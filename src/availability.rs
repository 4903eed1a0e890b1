//! Availability lookups: the provider's request address and the openings in
//! its answer.

use vstd::prelude::*;
use crate::index::LookupOutcome;
use crate::model::{Campsite, Facility, GetAvailabilitiesResponse};
use crate::window::MonthWindow;
use crate::text::{decimal, digit_char, int_text, month_code, month_text, nat_text};

verus! {

/// The one status that counts as an opening.
pub open spec fn available_status() -> Seq<char> {
    seq!['A', 'v', 'a', 'i', 'l', 'a', 'b', 'l', 'e']
}

/// The site identifier once for each date on which the site is available.
pub open spec fn site_openings(site: Seq<char>, days: Seq<(String, String)>) -> Seq<Seq<char>>
    decreases days.len(),
{
    if days.len() == 0 {
        Seq::empty()
    } else {
        let rest = site_openings(site, days.drop_last());
        if days.last().1@ == available_status() {
            rest.push(site)
        } else {
            rest
        }
    }
}

/// The openings of all campsites, site by site.
pub open spec fn openings(camps: Seq<(String, Campsite)>) -> Seq<Seq<char>>
    decreases camps.len(),
{
    if camps.len() == 0 {
        Seq::empty()
    } else {
        openings(camps.drop_last()) + site_openings(
            camps.last().0@,
            camps.last().1.availabilities@,
        )
    }
}

/// The identifier of each available campsite, once for each of its entries
/// whose status is exactly `Available`; every other status is dropped.
pub fn available_sites(response: &GetAvailabilitiesResponse) -> (r: Vec<String>)
    requires
        response.wf(),
    ensures
        r@.map_values(|s: String| s@) == openings(response.campsites@),
{
    proof {
        reveal_strlit("Available");
    }
    let available = String::from_str("Available");
    let ghost camps = response.campsites@;
    let mut r: Vec<String> = Vec::new();
    let mut i: usize = 0;
    assert(camps.take(0) =~= Seq::<(String, Campsite)>::empty());
    assert(r@.map_values(|s: String| s@) =~= Seq::<Seq<char>>::empty());
    while i < response.campsites.len()
        invariant
            0 <= i <= camps.len(),
            camps == response.campsites@,
            available@ == available_status(),
            r@.map_values(|s: String| s@) == openings(camps.take(i as int)),
        decreases camps.len() - i,
    {
        let site = &response.campsites[i].0;
        let days = &response.campsites[i].1.availabilities;
        let ghost start = r@.map_values(|s: String| s@);
        let mut j: usize = 0;
        assert(days@.take(0) =~= Seq::<(String, String)>::empty());
        assert(start + site_openings(site@, days@.take(0)) =~= start);
        while j < days.len()
            invariant
                0 <= j <= days@.len(),
                available@ == available_status(),
                r@.map_values(|s: String| s@) == start + site_openings(site@, days@.take(j as int)),
            decreases days@.len() - j,
        {
            assert(days@.take(j + 1).drop_last() =~= days@.take(j as int));
            let ghost before = r@;
            if days[j].1 == available {
                r.push(site.clone());
                assert(r@.map_values(|s: String| s@) =~= before.map_values(|s: String| s@).push(
                    site@,
                ));
            }
            j = j + 1;
        }
        assert(days@.take(days@.len() as int) =~= days@);
        assert(camps.take(i + 1).drop_last() =~= camps.take(i as int));
        i = i + 1;
    }
    assert(camps.take(camps.len() as int) =~= camps);
    r
}

/// ASCII letters and digits and `-`, `.`, `_`, `~`: left as they are in a
/// query parameter.
pub open spec fn unreserved(c: char) -> bool {
    ||| ('0' <= c && c <= '9')
    ||| ('A' <= c && c <= 'Z')
    ||| ('a' <= c && c <= 'z')
    ||| c == '-'
    ||| c == '.'
    ||| c == '_'
    ||| c == '~'
}

/// Upper-case hexadecimal digit of `d < 16`.
pub open spec fn hex_upper(d: nat) -> char {
    if d < 10 {
        digit_char(d)
    } else if d == 10 {
        'A'
    } else if d == 11 {
        'B'
    } else if d == 12 {
        'C'
    } else if d == 13 {
        'D'
    } else if d == 14 {
        'E'
    } else {
        'F'
    }
}

pub open spec fn is_ascii_text(s: Seq<char>) -> bool {
    forall|i: int| 0 <= i < s.len() ==> (s[i] as u32) < 128
}

/// Percent-encoding of an ASCII text: each character that is not
/// unreserved becomes `%` and its code in two upper-case hex digits.
pub open spec fn percent_encoded(s: Seq<char>) -> Seq<char>
    decreases s.len(),
{
    if s.len() == 0 {
        Seq::empty()
    } else {
        let c = s.last();
        percent_encoded(s.drop_last()) + if unreserved(c) {
            seq![c]
        } else {
            seq!['%', hex_upper((c as u32 as nat) / 16), hex_upper((c as u32 as nat) % 16)]
        }
    }
}

/// Relies on `urlencoding::encode`: it percent-encodes every byte but ASCII
/// letters, digits and `-`, `.`, `_`, `~`, with upper-case hex digits; on an
/// ASCII text each character is one byte.
#[verifier::external_body]
fn url_encode(s: &str) -> (r: String)
    ensures
        is_ascii_text(s@) ==> r@ == percent_encoded(s@),
{
    urlencoding::encode(s).into_owned()
}

/// The suffix of a start date after the month: the first day at midnight UTC.
pub open spec fn first_day_suffix() -> Seq<char> {
    seq!['-', '0', '1', 'T', '0', '0', ':', '0', '0', ':', '0', '0', '.', '0', '0', '0', 'Z']
}

/// `<year>-<MM>-01T00:00:00.000Z`
pub open spec fn start_date_text(year: int, month: nat) -> Seq<char> {
    int_text(year) + seq!['-'] + month_text(month) + first_day_suffix()
}

/// The start of month `month` of `year` at midnight UTC, in ISO 8601.
pub fn start_date(year: i32, month: u32) -> (r: String)
    requires
        1 <= month <= 12,
    ensures
        r@ == start_date_text(year as int, month as nat),
{
    proof {
        reveal_strlit("-");
        reveal_strlit("-01T00:00:00.000Z");
    }
    let mut r = decimal(year as i64);
    r.append("-");
    let code = month_code(month);
    r.append(code.as_str());
    r.append("-01T00:00:00.000Z");
    assert(r@ =~= start_date_text(year as int, month as nat));
    r
}

proof fn lemma_nat_text_ascii(n: nat)
    ensures
        forall|i: int| 0 <= i < nat_text(n).len() ==> '0' <= #[trigger] nat_text(n)[i] && nat_text(n)[i] <= '9',
    decreases n,
{
    if n >= 10 {
        lemma_nat_text_ascii(n / 10);
        let t = nat_text(n);
        assert forall|i: int| 0 <= i < t.len() implies '0' <= #[trigger] t[i] && t[i] <= '9' by {
            if i < t.len() - 1 {
                assert(t[i] == nat_text(n / 10)[i]);
            } else {
                assert(t[i] == digit_char(n % 10));
            }
        }
    } else {
        assert(nat_text(n)[0] == digit_char(n));
    }
}

proof fn lemma_start_date_ascii(year: int, month: nat)
    ensures
        is_ascii_text(start_date_text(year, month)),
{
    let s = start_date_text(year, month);
    lemma_nat_text_ascii(if year < 0 { (-year) as nat } else { year as nat });
    lemma_nat_text_ascii(month);
    let y = int_text(year);
    let m = month_text(month);
    assert forall|i: int| 0 <= i < s.len() implies (s[i] as u32) < 128 by {
        if i < y.len() {
            if year < 0 && i > 0 {
                assert(y[i] == nat_text((-year) as nat)[i - 1]);
            }
        } else if i == y.len() {
        } else if i < y.len() + 1 + m.len() {
            let k = i - y.len() - 1;
            assert(s[i] == m[k]);
            if month < 10 && k > 0 {
                assert(m[k] == nat_text(month)[k - 1]);
            }
        } else {
            assert(s[i] == first_day_suffix()[i - y.len() - 1 - m.len()]);
        }
    }
}

/// `<host>/api/camps/availability/campground/<facility>/month?start_date=<date>`
pub open spec fn availability_url_text(
    host: Seq<char>,
    facility: Seq<char>,
    year: int,
    month: nat,
) -> Seq<char> {
    host + "/api/camps/availability/campground/"@ + facility + "/month?start_date="@
        + percent_encoded(start_date_text(year, month))
}

/// Address of the provider's availability query for one facility and one
/// month of `year`, its start date percent-encoded.
pub fn availability_url(host: &str, facility: &str, year: i32, month: u32) -> (r: String)
    requires
        1 <= month <= 12,
    ensures
        r@ == availability_url_text(host@, facility@, year as int, month as nat),
{
    let date = start_date(year, month);
    proof {
        lemma_start_date_ascii(year as int, month as nat);
    }
    let encoded = url_encode(date.as_str());
    let mut r = String::from_str(host);
    r.append("/api/camps/availability/campground/");
    r.append(facility);
    r.append("/month?start_date=");
    r.append(encoded.as_str());
    r
}

/// One availability lookup to make: the facility's directory identifier
/// (the index key), its provider identifier, the month and the address.
pub struct LookupRequest {
    pub facility: i16,
    pub provider_id: String,
    pub month: u32,
    pub url: String,
}

/// What a lookup request stands for, as plain values.
pub open spec fn request_view(r: LookupRequest) -> (i16, Seq<char>, u32, Seq<char>) {
    (r.facility, r.provider_id@, r.month, r.url@)
}

/// The lookup of facility `f` in month `m` of `year`.
pub open spec fn lookup_of(host: Seq<char>, f: Facility, year: int, m: u32) -> (
    i16,
    Seq<char>,
    u32,
    Seq<char>,
) {
    (f.id, f.facility_id@, m, availability_url_text(host, f.facility_id@, year, m as nat))
}

/// Every resolved facility in each month of the window: facility by
/// facility, the months in window order.
pub open spec fn lookup_plan(
    host: Seq<char>,
    facilities: Seq<Facility>,
    window: MonthWindow,
    year: int,
) -> Seq<(i16, Seq<char>, u32, Seq<char>)>
    decreases facilities.len(),
{
    if facilities.len() == 0 {
        Seq::empty()
    } else {
        let f = facilities.last();
        lookup_plan(host, facilities.drop_last(), window, year) + seq![
            lookup_of(host, f, year, window.current),
            lookup_of(host, f, year, window.next),
            lookup_of(host, f, year, window.after_next),
        ]
    }
}

/// The lookups of a run: each resolved facility in each of the three months
/// of the window, dated in `year`.
pub fn lookup_requests(
    facilities: &Vec<Facility>,
    window: &MonthWindow,
    host: &str,
    year: i32,
) -> (r: Vec<LookupRequest>)
    requires
        window.wf(),
    ensures
        r@.map_values(|q: LookupRequest| request_view(q)) == lookup_plan(
            host@,
            facilities@,
            *window,
            year as int,
        ),
        r@.len() == 3 * facilities@.len(),
{
    let months = window.months();
    let mut r: Vec<LookupRequest> = Vec::new();
    let mut i: usize = 0;
    assert(facilities@.take(0) =~= Seq::<Facility>::empty());
    assert(r@.map_values(|q: LookupRequest| request_view(q)) =~= Seq::<
        (i16, Seq<char>, u32, Seq<char>),
    >::empty());
    while i < facilities.len()
        invariant
            0 <= i <= facilities@.len(),
            window.wf(),
            months@ == window.months_spec(),
            r@.map_values(|q: LookupRequest| request_view(q)) == lookup_plan(
                host@,
                facilities@.take(i as int),
                *window,
                year as int,
            ),
            r@.len() == 3 * i,
        decreases facilities@.len() - i,
    {
        let f = &facilities[i];
        let ghost before = r@;
        let mut j: usize = 0;
        while j < 3
            invariant
                0 <= j <= 3,
                window.wf(),
                months@ == window.months_spec(),
                r@.len() == before.len() + j,
                forall|k: int| 0 <= k < before.len() ==> r@[k] == before[k],
                forall|k: int|
                    before.len() <= k < r@.len() ==> request_view(#[trigger] r@[k]) == lookup_of(
                        host@,
                        *f,
                        year as int,
                        months@[k - before.len()],
                    ),
            decreases 3 - j,
        {
            let m = months[j];
            let url = availability_url(host, f.facility_id.as_str(), year, m);
            r.push(LookupRequest { facility: f.id, provider_id: f.facility_id.clone(), month: m, url });
            j = j + 1;
        }
        proof {
            assert(facilities@.take(i + 1).drop_last() =~= facilities@.take(i as int));
            assert(facilities@.take(i + 1).last() == *f);
            let n = before.len() as int;
            assert(request_view(r@[n]) == lookup_of(host@, *f, year as int, months@[0]));
            assert(request_view(r@[n + 1]) == lookup_of(host@, *f, year as int, months@[1]));
            assert(request_view(r@[n + 2]) == lookup_of(host@, *f, year as int, months@[2]));
            assert(r@.map_values(|q: LookupRequest| request_view(q)) =~= before.map_values(
                |q: LookupRequest| request_view(q),
            ) + seq![
                lookup_of(host@, *f, year as int, window.current),
                lookup_of(host@, *f, year as int, window.next),
                lookup_of(host@, *f, year as int, window.after_next),
            ]);
        }
        i = i + 1;
    }
    assert(facilities@.take(facilities@.len() as int) =~= facilities@);
    r
}

/// The outcome of a request, given the provider's answer (`None` where the
/// lookup failed).
pub fn outcome_of(request: &LookupRequest, sites: Option<Vec<String>>) -> (r: LookupOutcome)
    ensures
        r.facility == request.facility,
        r.month == request.month,
        r.sites == sites,
{
    LookupOutcome { facility: request.facility, month: request.month, sites }
}

} // verus!
