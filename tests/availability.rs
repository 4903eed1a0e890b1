use campsite_alerts::availability::{
    availability_url, available_sites, lookup_requests, outcome_of, start_date,
};
use campsite_alerts::model::{keys_distinct, Campsite, Facility, GetAvailabilitiesResponse};
use campsite_alerts::window::month_window;

fn site(id: &str, days: &[(&str, &str)]) -> (String, Campsite) {
    (
        id.to_string(),
        Campsite {
            availabilities: days.iter().map(|(d, s)| (d.to_string(), s.to_string())).collect(),
        },
    )
}

#[test]
fn only_available_entries_count() {
    let response = GetAvailabilitiesResponse {
        campsites: vec![
            site("101", &[("2024-06-01T00:00:00Z", "Available")]),
            site("102", &[("2024-06-01T00:00:00Z", "Booked")]),
            site("103", &[("2024-06-01T00:00:00Z", "Available")]),
        ],
    };
    assert_eq!(available_sites(&response), vec!["101".to_string(), "103".to_string()]);
}

#[test]
fn other_statuses_are_dropped() {
    let response = GetAvailabilitiesResponse {
        campsites: vec![site(
            "7",
            &[("d1", "available"), ("d2", "Not Available"), ("d3", "Reserved"), ("d4", "Available ")],
        )],
    };
    assert!(available_sites(&response).is_empty());
    assert!(available_sites(&GetAvailabilitiesResponse { campsites: vec![] }).is_empty());
}

#[test]
fn a_site_counts_once_per_available_date() {
    let response = GetAvailabilitiesResponse {
        campsites: vec![site("9", &[("d1", "Available"), ("d2", "Booked"), ("d3", "Available")])],
    };
    assert_eq!(available_sites(&response), vec!["9".to_string(), "9".to_string()]);
}

#[test]
fn start_date_of_month() {
    assert_eq!(start_date(2024, 3), "2024-03-01T00:00:00.000Z");
    assert_eq!(start_date(2024, 11), "2024-11-01T00:00:00.000Z");
}

#[test]
fn availability_address_encodes_start_date() {
    assert_eq!(
        availability_url("https://camps.example.com", "232447", 2024, 6),
        "https://camps.example.com/api/camps/availability/campground/232447/month?start_date=2024-06-01T00%3A00%3A00.000Z"
    );
}

#[test]
fn lookups_cover_each_facility_and_month() {
    let facilities = vec![
        Facility { id: 1, facility_id: "A".to_string() },
        Facility { id: 2, facility_id: "B".to_string() },
    ];
    let window = month_window(12);
    let requests = lookup_requests(&facilities, &window, "h", 2024);
    assert_eq!(requests.len(), 6);
    let got: Vec<(i16, String, u32)> =
        requests.iter().map(|r| (r.facility, r.provider_id.clone(), r.month)).collect();
    assert_eq!(
        got,
        vec![
            (1, "A".to_string(), 12),
            (1, "A".to_string(), 1),
            (1, "A".to_string(), 2),
            (2, "B".to_string(), 12),
            (2, "B".to_string(), 1),
            (2, "B".to_string(), 2),
        ]
    );
    assert_eq!(
        requests[4].url,
        "h/api/camps/availability/campground/B/month?start_date=2024-01-01T00%3A00%3A00.000Z"
    );
    let o = outcome_of(&requests[1], None);
    assert_eq!((o.facility, o.month, o.sites.is_none()), (1, 1, true));
}

#[test]
fn no_facilities_no_lookups() {
    assert!(lookup_requests(&vec![], &month_window(3), "h", 2024).is_empty());
}

#[test]
fn repeated_sites_or_dates_are_detected() {
    let good = GetAvailabilitiesResponse {
        campsites: vec![site("1", &[("d1", "Available"), ("d2", "Booked")]), site("2", &[("d1", "Booked")])],
    };
    assert!(good.keys_unique());
    let repeated_site = GetAvailabilitiesResponse {
        campsites: vec![site("1", &[("d1", "Available")]), site("1", &[("d2", "Booked")])],
    };
    assert!(!repeated_site.keys_unique());
    let repeated_date = GetAvailabilitiesResponse {
        campsites: vec![site("1", &[("d1", "Available"), ("d1", "Booked")])],
    };
    assert!(!repeated_date.keys_unique());
    assert!(keys_distinct::<u8>(&vec![]));
    assert!(!keys_distinct(&vec![("a".to_string(), 1), ("b".to_string(), 2), ("a".to_string(), 3)]));
}
