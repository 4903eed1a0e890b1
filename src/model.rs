//! The records exchanged with the subscription store, the facility
//! directory, the availability provider and the email provider.

use vstd::prelude::*;

verus! {

/// One subscriber's interest in one facility.
pub struct Subscription {
    pub email: String,
    /// Directory identifier of the facility; it keys the availability index.
    pub facility_id: i16,
}

/// A facility-directory record.
pub struct Facility {
    /// Directory identifier, the one that subscriptions reference.
    pub id: i16,
    /// Identifier under which the availability provider knows the facility.
    pub facility_id: String,
}

/// Body of the subscription store's answer.
pub struct GetSubscriptionsResponse {
    pub data: Vec<Subscription>,
}

/// Body of the facility directory's answer.
pub struct GetFacilitiesResponse {
    pub data: Vec<Facility>,
}

/// Body of one transactional email request.
pub struct SendEmailPayload {
    pub from: String,
    pub to: String,
    pub subject: String,
    pub text_body: String,
    pub html_body: String,
    pub message_stream: String,
}

/// Body of the availability provider's answer: campsite identifier and the
/// site's statuses, one entry per campsite.
pub struct GetAvailabilitiesResponse {
    pub campsites: Vec<(String, Campsite)>,
}

/// Status of one campsite on each date: (date, status) pairs.
pub struct Campsite {
    pub availabilities: Vec<(String, String)>,
}

/// No two pairs share a key, as in a map from key to value.
pub open spec fn distinct_keys<T>(s: Seq<(String, T)>) -> bool {
    forall|i: int, j: int| 0 <= i < j < s.len() ==> (#[trigger] s[i]).0@ != (#[trigger] s[j]).0@
}

/// Whether no two pairs of `s` share a key.
pub fn keys_distinct<T>(s: &Vec<(String, T)>) -> (r: bool)
    ensures
        r == distinct_keys(s@),
{
    let mut i: usize = 0;
    while i < s.len()
        invariant
            0 <= i <= s@.len(),
            forall|a: int, b: int|
                0 <= a < i && a < b < s@.len() ==> (#[trigger] s@[a]).0@ != (#[trigger] s@[b]).0@,
        decreases s@.len() - i,
    {
        let mut j: usize = i + 1;
        while j < s.len()
            invariant
                i < s@.len(),
                i + 1 <= j <= s@.len(),
                forall|a: int, b: int|
                    0 <= a < i && a < b < s@.len() ==> (#[trigger] s@[a]).0@ != (
                    #[trigger] s@[b]).0@,
                forall|b: int| i < b < j ==> s@[i as int].0@ != (#[trigger] s@[b]).0@,
            decreases s@.len() - j,
        {
            if s[i].0 == s[j].0 {
                assert(s@[i as int].0@ == s@[j as int].0@);
                return false;
            }
            j = j + 1;
        }
        i = i + 1;
    }
    true
}

impl Campsite {
    /// Each date appears once.
    pub open spec fn wf(&self) -> bool {
        distinct_keys(self.availabilities@)
    }
}

impl GetAvailabilitiesResponse {
    /// Each campsite appears once, and each date once within a campsite.
    pub open spec fn wf(&self) -> bool {
        &&& distinct_keys(self.campsites@)
        &&& forall|i: int| 0 <= i < self.campsites@.len() ==> (#[trigger] self.campsites@[i]).1.wf()
    }

    /// Whether campsites and dates each appear once.
    pub fn keys_unique(&self) -> (r: bool)
        ensures
            r == self.wf(),
    {
        if !keys_distinct(&self.campsites) {
            return false;
        }
        let mut i: usize = 0;
        while i < self.campsites.len()
            invariant
                0 <= i <= self.campsites@.len(),
                forall|k: int| 0 <= k < i ==> (#[trigger] self.campsites@[k]).1.wf(),
            decreases self.campsites@.len() - i,
        {
            if !keys_distinct(&self.campsites[i].1.availabilities) {
                return false;
            }
            i = i + 1;
        }
        true
    }
}

} // verus!
