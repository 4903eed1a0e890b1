use campsite_alerts::model::Subscription;
use campsite_alerts::resolver::{
    contains_id, distinct_facility_ids, facilities_url, facility_ids_param, subscriptions_url,
};

fn sub(email: &str, facility_id: i16) -> Subscription {
    Subscription { email: email.to_string(), facility_id }
}

#[test]
fn batched_request_names_each_facility_once() {
    let subs = vec![sub("a@x.io", 7), sub("b@x.io", 12), sub("c@x.io", 7)];
    assert_eq!(distinct_facility_ids(&subs), vec![7, 12]);
    assert_eq!(facility_ids_param(&subs), "7,12");
}

#[test]
fn batched_request_without_subscriptions_is_empty() {
    assert_eq!(distinct_facility_ids(&vec![]), Vec::<i16>::new());
    assert_eq!(facility_ids_param(&vec![]), "");
}

#[test]
fn batched_request_keeps_first_reference_order() {
    let subs = vec![sub("a", 3), sub("b", -2), sub("c", 3), sub("d", 1), sub("e", -2)];
    assert_eq!(facility_ids_param(&subs), "3,-2,1");
}

#[test]
fn contains_id_cases() {
    assert!(contains_id(&vec![1, 2, 3], 2));
    assert!(!contains_id(&vec![1, 2, 3], 4));
    assert!(!contains_id(&vec![], 0));
}

#[test]
fn store_and_directory_addresses() {
    assert_eq!(
        subscriptions_url("https://api.example.com"),
        "https://api.example.com/subscriptions?status=confirmed"
    );
    assert_eq!(
        facilities_url("https://api.example.com", "1,2"),
        "https://api.example.com/facilities?ids=1,2"
    );
}
