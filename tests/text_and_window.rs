use campsite_alerts::text::{decimal, join_with_commas, month_code, nat_decimal};
use campsite_alerts::window::{following_month, month_window};

#[test]
fn decimal_of_numbers() {
    assert_eq!(nat_decimal(0), "0");
    assert_eq!(nat_decimal(7), "7");
    assert_eq!(nat_decimal(1970), "1970");
    assert_eq!(decimal(-42), "-42");
    assert_eq!(decimal(i64::MIN), "-9223372036854775808");
    assert_eq!(decimal(32767), "32767");
}

#[test]
fn month_codes_are_two_digits() {
    assert_eq!(month_code(1), "01");
    assert_eq!(month_code(9), "09");
    assert_eq!(month_code(10), "10");
    assert_eq!(month_code(12), "12");
}

#[test]
fn join_with_commas_cases() {
    assert_eq!(join_with_commas(&vec![]), "");
    assert_eq!(join_with_commas(&vec!["a".to_string()]), "a");
    assert_eq!(
        join_with_commas(&vec!["a".to_string(), "bc".to_string(), "d".to_string()]),
        "a,bc,d"
    );
}

#[test]
fn window_in_november_wraps_to_january() {
    let w = month_window(11);
    assert_eq!(w.months(), vec![11, 12, 1]);
    assert_eq!(w.codes(), vec!["11".to_string(), "12".to_string(), "01".to_string()]);
}

#[test]
fn window_in_december_keeps_twelve() {
    let w = month_window(12);
    assert_eq!(w.months(), vec![12, 1, 2]);
    assert_eq!(w.codes(), vec!["12".to_string(), "01".to_string(), "02".to_string()]);
}

#[test]
fn window_mid_year() {
    let w = month_window(6);
    assert_eq!(w.codes(), vec!["06".to_string(), "07".to_string(), "08".to_string()]);
    assert_eq!(following_month(12), 1);
    assert_eq!(following_month(1), 2);
}

#[test]
fn window_follows_formula_for_every_month() {
    for m in 1u32..=12 {
        let expected: Vec<u32> = (0..3).map(|k| (m - 1 + k) % 12 + 1).collect();
        assert_eq!(month_window(m).months(), expected);
        assert!(month_window(m).codes().iter().all(|c| c != "00" && c.len() == 2));
    }
}
