use campsite_alerts::config::{
    status_outcome, Config, FailureKind, MissingSetting, Operation, ProviderError,
};
use campsite_alerts::digest::{digest_payload, months_list, plan_digests, DispatchReport, EmailDigest};
use campsite_alerts::index::{
    build_index, populate_map, skipped_pairs, AvailabilityIndex, LookupOutcome,
};
use campsite_alerts::model::Subscription;

fn sub(email: &str, facility_id: i16) -> Subscription {
    Subscription { email: email.to_string(), facility_id }
}

fn outcome(facility: i16, month: u32, sites: Option<&[&str]>) -> LookupOutcome {
    LookupOutcome {
        facility,
        month,
        sites: sites.map(|s| s.iter().map(|x| x.to_string()).collect()),
    }
}

fn sorted(v: &Vec<u32>) -> Vec<u32> {
    let mut v = v.clone();
    v.sort();
    v
}

#[test]
fn populate_map_adds_month_only_with_openings() {
    let mut index = AvailabilityIndex::new();
    populate_map(&mut index, 5, 6, &vec![]);
    assert!(index.get(5).is_none());
    populate_map(&mut index, 5, 6, &vec!["a".to_string()]);
    assert_eq!(index.get(5), Some(&vec![6]));
    populate_map(&mut index, 5, 6, &vec!["b".to_string()]);
    assert_eq!(index.get(5), Some(&vec![6]));
    populate_map(&mut index, 5, 7, &vec!["c".to_string()]);
    assert_eq!(sorted(index.get(5).unwrap()), vec![6, 7]);
    assert!(index.get(4).is_none());
}

#[test]
fn index_holds_only_facilities_with_openings() {
    let outcomes = vec![
        outcome(1, 11, Some(&["s1"])),
        outcome(1, 12, Some(&[])),
        outcome(1, 1, Some(&["s2", "s3"])),
        outcome(2, 11, Some(&[])),
        outcome(2, 12, None),
        outcome(2, 1, Some(&[])),
        outcome(3, 11, None),
        outcome(3, 12, Some(&["x"])),
    ];
    let index = build_index(&outcomes);
    assert_eq!(sorted(index.get(1).unwrap()), vec![1, 11]);
    assert!(index.get(2).is_none());
    assert_eq!(index.get(3), Some(&vec![12]));
}

#[test]
fn digests_go_to_subscribers_with_openings_only() {
    let outcomes = vec![
        outcome(1, 5, Some(&["s"])),
        outcome(1, 6, Some(&["s"])),
        outcome(1, 7, Some(&[])),
        outcome(2, 5, Some(&[])),
    ];
    let index = build_index(&outcomes);
    let subs = vec![sub("a@x.io", 1), sub("b@x.io", 2), sub("c@x.io", 9), sub("d@x.io", 1)];
    let plan = plan_digests(&subs, &index);
    assert_eq!(plan.len(), 4);
    let a = plan[0].as_ref().unwrap();
    assert_eq!(a.to, "a@x.io");
    assert_eq!(a.facility_id, 1);
    assert_eq!(sorted(&a.months), vec![5, 6]);
    assert!(plan[1].is_none());
    assert!(plan[2].is_none());
    let d = plan[3].as_ref().unwrap();
    assert_eq!(d.to, "d@x.io");
    assert_eq!(sorted(&d.months), vec![5, 6]);
}

#[test]
fn rerun_gives_same_index_and_digests() {
    let outcomes = vec![
        outcome(1, 11, Some(&["s"])),
        outcome(2, 12, Some(&["t"])),
        outcome(1, 1, Some(&["u"])),
    ];
    let reversed: Vec<LookupOutcome> = outcomes
        .iter()
        .rev()
        .map(|o| LookupOutcome { facility: o.facility, month: o.month, sites: o.sites.clone() })
        .collect();
    let subs = vec![sub("a", 1), sub("b", 2), sub("c", 3)];
    let first = plan_digests(&subs, &build_index(&outcomes));
    let second = plan_digests(&subs, &build_index(&outcomes));
    let third = plan_digests(&subs, &build_index(&reversed));
    for plan in [&second, &third] {
        assert_eq!(plan.len(), first.len());
        for (x, y) in first.iter().zip(plan.iter()) {
            match (x, y) {
                (Some(x), Some(y)) => {
                    assert_eq!(x.to, y.to);
                    assert_eq!(sorted(&x.months), sorted(&y.months));
                }
                (None, None) => {}
                _ => panic!("plans differ"),
            }
        }
    }
}

#[test]
fn one_failed_send_does_not_stop_the_others() {
    let index = build_index(&vec![outcome(1, 4, Some(&["s"]))]);
    let subs = vec![sub("a@x.io", 1), sub("b@x.io", 1), sub("c@x.io", 1)];
    let plan = plan_digests(&subs, &index);
    let statuses = [200u16, 500, 202];
    let mut report = DispatchReport::new();
    let mut attempts = 0;
    for (digest, status) in plan.iter().zip(statuses.iter()) {
        let digest = digest.as_ref().unwrap();
        attempts += 1;
        let delivered = status_outcome(Operation::SendDigestEmail, *status).is_ok();
        report.record(&digest.to, delivered);
    }
    assert_eq!(attempts, 3);
    assert_eq!(report.sent, vec!["a@x.io".to_string(), "c@x.io".to_string()]);
    assert_eq!(report.failed, vec!["b@x.io".to_string()]);
}

#[test]
fn email_status_cases() {
    assert!(status_outcome(Operation::SendDigestEmail, 200).is_ok());
    assert!(status_outcome(Operation::SendDigestEmail, 299).is_ok());
    assert_eq!(
        status_outcome(Operation::SendDigestEmail, 500),
        Err(ProviderError {
            operation: Operation::SendDigestEmail,
            kind: FailureKind::ProviderStatus(500)
        })
    );
    assert!(status_outcome(Operation::SendDigestEmail, 199).is_err());
    assert!(status_outcome(Operation::SendDigestEmail, 300).is_err());
}

#[test]
fn digest_email_text() {
    let digest = EmailDigest { to: "a@x.io".to_string(), facility_id: 42, months: vec![11, 1] };
    let p = digest_payload(&digest, "https://book.example.com/camp");
    assert_eq!(p.from, "info@theboardhop.com");
    assert_eq!(p.to, "a@x.io");
    assert_eq!(p.subject, "Your spot opened up!");
    assert_eq!(
        p.text_body,
        "New openings for following months: 11,01.\nBe first to reserve the spot here: https://book.example.com/camp/42"
    );
    assert_eq!(p.html_body, p.text_body);
    assert_eq!(p.message_stream, "outbound");
    assert_eq!(months_list(&vec![]), "");
    assert_eq!(months_list(&vec![3]), "03");
}

fn some(s: &str) -> Option<String> {
    Some(s.to_string())
}

#[test]
fn configuration_requires_every_setting() {
    let c = Config::from_values(some("b"), some("h"), some("r"), some("e"), some("t")).unwrap();
    assert_eq!(
        (c.backend_api, c.availability_host, c.reservation_url, c.email_endpoint, c.email_token),
        ("b".to_string(), "h".to_string(), "r".to_string(), "e".to_string(), "t".to_string())
    );
    let missing = |r: Result<Config, MissingSetting>| r.err().unwrap();
    assert_eq!(
        missing(Config::from_values(None, None, some("r"), some("e"), some("t"))),
        MissingSetting::BackendApiEndpoint
    );
    assert_eq!(
        missing(Config::from_values(some("b"), None, some("r"), some("e"), some("t"))),
        MissingSetting::AvailabilityApiHost
    );
    assert_eq!(
        missing(Config::from_values(some("b"), some("h"), None, some("e"), some("t"))),
        MissingSetting::ReservationUrl
    );
    assert_eq!(
        missing(Config::from_values(some("b"), some("h"), some("r"), None, some("t"))),
        MissingSetting::EmailApiEndpoint
    );
    assert_eq!(
        missing(Config::from_values(some("b"), some("h"), some("r"), some("e"), None)),
        MissingSetting::EmailApiToken
    );
    assert_eq!(MissingSetting::EmailApiToken.variable(), "POSTMARK_API_TOKEN");
    assert_eq!(MissingSetting::BackendApiEndpoint.variable(), "BACKEND_API_ENDPOINT");
}

#[test]
fn failed_lookups_are_listed_and_skipped() {
    let outcomes = vec![
        outcome(1, 3, None),
        outcome(1, 4, Some(&["s"])),
        outcome(2, 3, Some(&[])),
        outcome(2, 4, None),
    ];
    assert_eq!(skipped_pairs(&outcomes), vec![(1, 3), (2, 4)]);
    let index = build_index(&outcomes);
    assert_eq!(index.get(1), Some(&vec![4]));
    assert!(index.get(2).is_none());
    assert!(skipped_pairs(&vec![]).is_empty());
}

#[test]
fn fetch_status_failures_name_the_operation() {
    assert!(status_outcome(Operation::FetchFacilities, 204).is_ok());
    assert_eq!(
        status_outcome(Operation::FetchSubscriptions, 404),
        Err(ProviderError {
            operation: Operation::FetchSubscriptions,
            kind: FailureKind::ProviderStatus(404)
        })
    );
}
