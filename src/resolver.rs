//! Facility resolution: which facilities to ask the directory for, and how.

use vstd::prelude::*;
use crate::model::Subscription;
use crate::text::{decimal, int_text, join_commas, join_with_commas};

verus! {

/// The facility identifiers that the subscriptions reference, in order.
pub open spec fn facility_refs(subs: Seq<Subscription>) -> Seq<i16> {
    subs.map_values(|s: Subscription| s.facility_id)
}

/// Each identifier of `s` once, in the order of its first occurrence.
pub open spec fn dedup(s: Seq<i16>) -> Seq<i16>
    decreases s.len(),
{
    if s.len() == 0 {
        Seq::empty()
    } else {
        let d = dedup(s.drop_last());
        if d.contains(s.last()) {
            d
        } else {
            d.push(s.last())
        }
    }
}

/// The identifiers as the directory's `ids` parameter takes them.
pub open spec fn ids_text(ids: Seq<i16>) -> Seq<char> {
    join_commas(ids.map_values(|x: i16| int_text(x as int)))
}

/// A batched directory request names every referenced facility, and each
/// of them exactly once.
pub proof fn lemma_batch_names_each_once(s: Seq<i16>)
    ensures
        dedup(s).no_duplicates(),
        forall|x: i16| dedup(s).contains(x) <==> s.contains(x),
    decreases s.len(),
{
    if s.len() > 0 {
        lemma_batch_names_each_once(s.drop_last());
        let d = dedup(s.drop_last());
        assert forall|x: i16| dedup(s).contains(x) <==> s.contains(x) by {
            if s.contains(x) {
                let i = choose|i: int| 0 <= i < s.len() && s[i] == x;
                if i < s.len() - 1 {
                    assert(s.drop_last()[i] == x);
                }
            }
            if s.drop_last().contains(x) {
                let i = choose|i: int| 0 <= i < s.len() - 1 && s.drop_last()[i] == x;
                assert(s[i] == x);
            }
            if !d.contains(s.last()) {
                assert(d.push(s.last()).last() == s.last());
                if d.push(s.last()).contains(x) {
                    let i = choose|i: int| 0 <= i < d.len() + 1 && d.push(s.last())[i] == x;
                    if i < d.len() {
                        assert(d[i] == x);
                    }
                }
                if d.contains(x) {
                    let i = choose|i: int| 0 <= i < d.len() && d[i] == x;
                    assert(d.push(s.last())[i] == x);
                }
            }
        }
    }
}

/// Whether `x` occurs in `v`.
pub fn contains_id(v: &Vec<i16>, x: i16) -> (r: bool)
    ensures
        r == v@.contains(x),
{
    let mut i: usize = 0;
    while i < v.len()
        invariant
            0 <= i <= v.len(),
            forall|j: int| 0 <= j < i ==> v@[j] != x,
        decreases v.len() - i,
    {
        if v[i] == x {
            return true;
        }
        i = i + 1;
    }
    false
}

/// The distinct facility identifiers that the subscriptions reference, in
/// the order of first reference.
pub fn distinct_facility_ids(subscriptions: &Vec<Subscription>) -> (r: Vec<i16>)
    ensures
        r@ == dedup(facility_refs(subscriptions@)),
{
    let ghost refs = facility_refs(subscriptions@);
    let mut r: Vec<i16> = Vec::new();
    let mut i: usize = 0;
    while i < subscriptions.len()
        invariant
            0 <= i <= subscriptions.len(),
            refs == facility_refs(subscriptions@),
            r@ == dedup(refs.take(i as int)),
        decreases subscriptions.len() - i,
    {
        let id = subscriptions[i].facility_id;
        assert(refs.take(i + 1).drop_last() =~= refs.take(i as int));
        assert(refs.take(i + 1).last() == id);
        if !contains_id(&r, id) {
            r.push(id);
        }
        i = i + 1;
    }
    assert(refs.take(subscriptions.len() as int) =~= refs);
    r
}

/// The `ids` parameter of the directory request: the distinct referenced
/// identifiers, in decimal, joined by commas.
pub fn facility_ids_param(subscriptions: &Vec<Subscription>) -> (r: String)
    ensures
        r@ == ids_text(dedup(facility_refs(subscriptions@))),
{
    let ids = distinct_facility_ids(subscriptions);
    let mut parts: Vec<String> = Vec::new();
    let mut i: usize = 0;
    while i < ids.len()
        invariant
            0 <= i <= ids.len(),
            parts@.map_values(|p: String| p@) =~= ids@.take(i as int).map_values(
                |x: i16| int_text(x as int),
            ),
        decreases ids.len() - i,
    {
        let s = decimal(ids[i] as i64);
        let ghost before = parts@;
        parts.push(s);
        assert(parts@.map_values(|p: String| p@) =~= before.map_values(|p: String| p@).push(s@));
        assert(ids@.take(i + 1).map_values(|x: i16| int_text(x as int)) =~= ids@.take(
            i as int,
        ).map_values(|x: i16| int_text(x as int)).push(int_text(ids@[i as int] as int)));
        i = i + 1;
    }
    assert(ids@.take(ids.len() as int) =~= ids@);
    join_with_commas(&parts)
}

/// Address of the subscription store's query for confirmed subscriptions.
pub fn subscriptions_url(backend: &str) -> (r: String)
    ensures
        r@ == backend@ + "/subscriptions?status=confirmed"@,
{
    let mut r = String::from_str(backend);
    r.append("/subscriptions?status=confirmed");
    r
}

/// Address of the batched facility-directory query.
pub fn facilities_url(backend: &str, ids: &str) -> (r: String)
    ensures
        r@ == backend@ + "/facilities?ids="@ + ids@,
{
    let mut r = String::from_str(backend);
    r.append("/facilities?ids=");
    r.append(ids);
    r
}

} // verus!
