//! Run configuration and the errors of a run.

use vstd::prelude::*;

verus! {

/// The settings a run needs, each required.
pub struct Config {
    pub backend_api: String,
    pub availability_host: String,
    pub reservation_url: String,
    pub email_endpoint: String,
    pub email_token: String,
}

/// The first required setting that was absent.
#[derive(PartialEq, Eq, Structural, Clone, Copy, Debug)]
pub enum MissingSetting {
    BackendApiEndpoint,
    AvailabilityApiHost,
    ReservationUrl,
    EmailApiEndpoint,
    EmailApiToken,
}

impl MissingSetting {
    /// Name of the environment variable that holds the setting.
    pub open spec fn variable_spec(&self) -> Seq<char> {
        match self {
            MissingSetting::BackendApiEndpoint => "BACKEND_API_ENDPOINT"@,
            MissingSetting::AvailabilityApiHost => "AVAILABILITY_API_HOST"@,
            MissingSetting::ReservationUrl => "RESERVATION_URL"@,
            MissingSetting::EmailApiEndpoint => "POSTMARK_API_ENDPOINT"@,
            MissingSetting::EmailApiToken => "POSTMARK_API_TOKEN"@,
        }
    }

    /// Name of the environment variable that holds the setting.
    pub fn variable(&self) -> (r: String)
        ensures
            r@ == self.variable_spec(),
    {
        match self {
            MissingSetting::BackendApiEndpoint => String::from_str("BACKEND_API_ENDPOINT"),
            MissingSetting::AvailabilityApiHost => String::from_str("AVAILABILITY_API_HOST"),
            MissingSetting::ReservationUrl => String::from_str("RESERVATION_URL"),
            MissingSetting::EmailApiEndpoint => String::from_str("POSTMARK_API_ENDPOINT"),
            MissingSetting::EmailApiToken => String::from_str("POSTMARK_API_TOKEN"),
        }
    }
}

impl Config {
    /// The configuration from the values read at startup: an error naming
    /// the first absent one, in the order of the parameters, or the
    /// configuration holding them all.
    pub fn from_values(
        backend_api: Option<String>,
        availability_host: Option<String>,
        reservation_url: Option<String>,
        email_endpoint: Option<String>,
        email_token: Option<String>,
    ) -> (r: Result<Config, MissingSetting>)
        ensures
            backend_api is None ==> r == Err::<Config, MissingSetting>(
                MissingSetting::BackendApiEndpoint,
            ),
            backend_api is Some && availability_host is None ==> r == Err::<Config, MissingSetting>(
                MissingSetting::AvailabilityApiHost,
            ),
            backend_api is Some && availability_host is Some && reservation_url is None ==> r
                == Err::<Config, MissingSetting>(MissingSetting::ReservationUrl),
            backend_api is Some && availability_host is Some && reservation_url is Some
                && email_endpoint is None ==> r == Err::<Config, MissingSetting>(
                MissingSetting::EmailApiEndpoint,
            ),
            backend_api is Some && availability_host is Some && reservation_url is Some
                && email_endpoint is Some && email_token is None ==> r == Err::<
                Config,
                MissingSetting,
            >(MissingSetting::EmailApiToken),
            backend_api is Some && availability_host is Some && reservation_url is Some
                && email_endpoint is Some && email_token is Some ==> r is Ok,
            r matches Ok(c) ==> {
                &&& backend_api == Some(c.backend_api)
                &&& availability_host == Some(c.availability_host)
                &&& reservation_url == Some(c.reservation_url)
                &&& email_endpoint == Some(c.email_endpoint)
                &&& email_token == Some(c.email_token)
            },
    {
        let backend_api = match backend_api {
            Some(v) => v,
            None => return Err(MissingSetting::BackendApiEndpoint),
        };
        let availability_host = match availability_host {
            Some(v) => v,
            None => return Err(MissingSetting::AvailabilityApiHost),
        };
        let reservation_url = match reservation_url {
            Some(v) => v,
            None => return Err(MissingSetting::ReservationUrl),
        };
        let email_endpoint = match email_endpoint {
            Some(v) => v,
            None => return Err(MissingSetting::EmailApiEndpoint),
        };
        let email_token = match email_token {
            Some(v) => v,
            None => return Err(MissingSetting::EmailApiToken),
        };
        Ok(Config { backend_api, availability_host, reservation_url, email_endpoint, email_token })
    }
}

/// The four calls a run makes to outside services.
#[derive(PartialEq, Eq, Structural, Clone, Copy, Debug)]
pub enum Operation {
    FetchSubscriptions,
    FetchFacilities,
    FetchAvailability,
    SendDigestEmail,
}

/// Why a call to an outside service failed.
#[derive(PartialEq, Eq, Structural, Clone, Copy, Debug)]
pub enum FailureKind {
    /// The request did not complete.
    Transport,
    /// The answer did not have the expected shape.
    Deserialization,
    /// The service answered with a status outside 2xx.
    ProviderStatus(u16),
}

/// A failed call: which one, and why.
#[derive(PartialEq, Eq, Structural, Clone, Copy, Debug)]
pub struct ProviderError {
    pub operation: Operation,
    pub kind: FailureKind,
}

/// The result of a service's answer with status `status` to `operation`:
/// success on 2xx, a status failure of that operation otherwise.
pub fn status_outcome(operation: Operation, status: u16) -> (r: Result<(), ProviderError>)
    ensures
        200 <= status < 300 ==> r is Ok,
        !(200 <= status < 300) ==> r == Err::<(), ProviderError>(
            ProviderError { operation, kind: FailureKind::ProviderStatus(status) },
        ),
{
    if 200 <= status && status < 300 {
        Ok(())
    } else {
        Err(ProviderError { operation, kind: FailureKind::ProviderStatus(status) })
    }
}

} // verus!
