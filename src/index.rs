//! The availability index: for each facility with an opening, the months in
//! which it has one.

use vstd::prelude::*;

verus! {

/// The months recorded for one facility.
pub struct FacilityMonths {
    pub facility: i16,
    pub months: Vec<u32>,
}

/// Map from directory facility identifier to the months with at least one
/// open campsite. A facility without openings has no entry.
pub struct AvailabilityIndex {
    entries: Vec<FacilityMonths>,
}

/// The answer to one (facility, month) availability lookup: the available
/// sites, or `None` where the lookup failed and the pair was skipped.
pub struct LookupOutcome {
    pub facility: i16,
    pub month: u32,
    pub sites: Option<Vec<String>>,
}

/// The lookup found at least one available site.
pub open spec fn opened(o: LookupOutcome) -> bool {
    match o.sites {
        Some(v) => v@.len() > 0,
        None => false,
    }
}

/// Some lookup of `s` found an opening at facility `k`.
pub open spec fn has_opening(s: Seq<LookupOutcome>, k: i16) -> bool {
    exists|i: int| 0 <= i < s.len() && opened(s[i]) && #[trigger] s[i].facility == k
}

/// The months in which some lookup of `s` found an opening at facility `k`.
pub open spec fn open_months(s: Seq<LookupOutcome>, k: i16) -> Set<u32> {
    Set::new(
        |m: u32|
            exists|i: int|
                0 <= i < s.len() && opened(s[i]) && #[trigger] s[i].facility == k && s[i].month
                    == m,
    )
}

/// The index that a set of lookup answers determines.
pub open spec fn index_model(s: Seq<LookupOutcome>) -> Map<i16, Set<u32>> {
    Map::new(|k: i16| has_opening(s, k), |k: i16| open_months(s, k))
}

pub open spec fn has_entry(e: Seq<FacilityMonths>, k: i16) -> bool {
    exists|i: int| 0 <= i < e.len() && #[trigger] e[i].facility == k
}

pub open spec fn entry_months(e: Seq<FacilityMonths>, k: i16) -> Set<u32> {
    let i = choose|i: int| 0 <= i < e.len() && #[trigger] e[i].facility == k;
    e[i].months@.to_set()
}

impl View for AvailabilityIndex {
    type V = Map<i16, Set<u32>>;

    closed spec fn view(&self) -> Map<i16, Set<u32>> {
        Map::new(
            |k: i16| has_entry(self.entries@, k),
            |k: i16| entry_months(self.entries@, k),
        )
    }
}

impl AvailabilityIndex {
    /// Entries have distinct facilities and non-empty month lists without
    /// repeats, each month a calendar month.
    pub closed spec fn wf(&self) -> bool {
        &&& forall|i: int, j: int|
            0 <= i < j < self.entries@.len() ==> self.entries@[i].facility
                != self.entries@[j].facility
        &&& forall|i: int|
            0 <= i < self.entries@.len() ==> {
                let ms = #[trigger] self.entries@[i].months@;
                &&& ms.len() > 0
                &&& ms.no_duplicates()
                &&& forall|j: int| 0 <= j < ms.len() ==> 1 <= #[trigger] ms[j] <= 12
            }
    }

    /// The empty index.
    pub fn new() -> (r: AvailabilityIndex)
        ensures
            r.wf(),
            r@ == Map::<i16, Set<u32>>::empty(),
    {
        let r = AvailabilityIndex { entries: Vec::new() };
        assert(r@ =~= Map::<i16, Set<u32>>::empty());
        r
    }

    fn position(&self, k: i16) -> (r: Option<usize>)
        ensures
            match r {
                Some(i) => i < self.entries@.len() && self.entries@[i as int].facility == k,
                None => !has_entry(self.entries@, k),
            },
    {
        let mut i: usize = 0;
        while i < self.entries.len()
            invariant
                0 <= i <= self.entries@.len(),
                forall|j: int| 0 <= j < i ==> self.entries@[j].facility != k,
            decreases self.entries@.len() - i,
        {
            if self.entries[i].facility == k {
                return Some(i);
            }
            i = i + 1;
        }
        None
    }

    proof fn lemma_months_at(&self, i: int)
        requires
            self.wf(),
            0 <= i < self.entries@.len(),
        ensures
            self@.contains_key(self.entries@[i].facility),
            self@[self.entries@[i].facility] == self.entries@[i].months@.to_set(),
    {
        let k = self.entries@[i].facility;
        assert(has_entry(self.entries@, k));
        let j = choose|j: int| 0 <= j < self.entries@.len() && #[trigger] self.entries@[j].facility == k;
        assert(i == j);
    }

    /// The months recorded for facility `k`, each once.
    pub fn get(&self, k: i16) -> (r: Option<&Vec<u32>>)
        requires
            self.wf(),
        ensures
            r is Some <==> self@.contains_key(k),
            r matches Some(v) ==> {
                &&& v@.to_set() == self@[k]
                &&& v@.no_duplicates()
                &&& v@.len() > 0
                &&& forall|j: int| 0 <= j < v@.len() ==> 1 <= #[trigger] v@[j] <= 12
            },
    {
        match self.position(k) {
            Some(i) => {
                proof {
                    self.lemma_months_at(i as int);
                }
                Some(&self.entries[i].months)
            },
            None => None,
        }
    }
}

/// `m` with `month` added to the months of facility `k`.
pub open spec fn with_opening(m: Map<i16, Set<u32>>, k: i16, month: u32) -> Map<i16, Set<u32>> {
    m.insert(k, if m.contains_key(k) { m[k] } else { Set::empty() }.insert(month))
}

/// Recording two openings gives the same index in either order, so the
/// index of a run does not depend on the order in which lookups answer.
pub proof fn lemma_openings_commute(m: Map<i16, Set<u32>>, k1: i16, m1: u32, k2: i16, m2: u32)
    ensures
        with_opening(with_opening(m, k1, m1), k2, m2) == with_opening(
            with_opening(m, k2, m2),
            k1,
            m1,
        ),
{
    let a = with_opening(with_opening(m, k1, m1), k2, m2);
    let b = with_opening(with_opening(m, k2, m2), k1, m1);
    assert forall|k: i16| a.contains_key(k) implies #[trigger] a[k] =~= b[k] by {}
    assert(a =~= b);
}

/// Recording an opening that is already there changes nothing.
pub proof fn lemma_opening_idempotent(m: Map<i16, Set<u32>>, k: i16, month: u32)
    ensures
        with_opening(with_opening(m, k, month), k, month) == with_opening(m, k, month),
{
    let a = with_opening(with_opening(m, k, month), k, month);
    assert(a[k] =~= with_opening(m, k, month)[k]);
    assert(a =~= with_opening(m, k, month));
}

/// Records the answer of the lookup for `internal_id` in `month`: the
/// facility gains the month when some site is available, and the index
/// is left as it is otherwise.
pub fn populate_map(
    map: &mut AvailabilityIndex,
    internal_id: i16,
    month: u32,
    availabilities: &Vec<String>,
)
    requires
        old(map).wf(),
        1 <= month <= 12,
    ensures
        final(map).wf(),
        availabilities@.len() > 0 ==> final(map)@ == with_opening(old(map)@, internal_id, month),
        availabilities@.len() == 0 ==> final(map)@ == old(map)@,
{
    if availabilities.len() == 0 {
        return;
    }
    let ghost old_entries = map.entries@;
    let ghost old_view = map@;
    match map.position(internal_id) {
        Some(i) => {
            proof {
                map.lemma_months_at(i as int);
            }
            let mut months = map.entries[i].months.clone();
            let mut j: usize = 0;
            let mut found = false;
            while j < months.len()
                invariant
                    0 <= j <= months@.len(),
                    months@ == old_entries[i as int].months@,
                    found == (exists|k: int| 0 <= k < j && months@[k] == month),
                decreases months@.len() - j,
            {
                if months[j] == month {
                    found = true;
                }
                j = j + 1;
            }
            if !found {
                months.push(month);
            }
            let ghost new_months = months@;
            assert(new_months.to_set() =~= old_view[internal_id].insert(month)) by {
                if !found {
                    assert(new_months =~= old_entries[i as int].months@.push(month));
                    assert forall|x: u32| new_months.contains(x) <==> old_entries[i as int].months@.contains(x) || x == month by {
                        if new_months.contains(x) {
                            let k = choose|k: int| 0 <= k < new_months.len() && new_months[k] == x;
                            if k < new_months.len() - 1 {
                                assert(old_entries[i as int].months@[k] == x);
                            }
                        }
                        if old_entries[i as int].months@.contains(x) {
                            let k = choose|k: int| 0 <= k < old_entries[i as int].months@.len() && old_entries[i as int].months@[k] == x;
                            assert(new_months[k] == x);
                        }
                        if x == month {
                            assert(new_months[new_months.len() - 1] == month);
                        }
                    }
                }
            }
            map.entries.set(i, FacilityMonths { facility: internal_id, months });
            proof {
                let e = map.entries@;
                assert(e =~= old_entries.update(i as int, e[i as int]));
                assert forall|a: int| 0 <= a < e.len() implies (#[trigger] e[a].months@).no_duplicates() by {
                    if a == i && !found {
                        assert(new_months =~= old_entries[i as int].months@.push(month));
                        assert forall|p: int, q: int| 0 <= p < q < new_months.len() implies new_months[p] != new_months[q] by {
                            if q == new_months.len() - 1 {
                                assert(old_entries[i as int].months@[p] == new_months[p]);
                            }
                        }
                    }
                }
                assert forall|a: int| 0 <= a < e.len() implies (forall|j: int| 0 <= j < (#[trigger] e[a]).months@.len() ==> 1 <= #[trigger] e[a].months@[j] <= 12) by {
                    if a == i && !found {
                        assert(new_months =~= old_entries[i as int].months@.push(month));
                    }
                }
                assert(map.wf());
                let target = old_view.insert(internal_id, old_view[internal_id].insert(month));
                assert forall|k: i16| #[trigger] map@.contains_key(k) <==> target.contains_key(k) by {
                    if has_entry(old_entries, k) {
                        let a = choose|a: int| 0 <= a < old_entries.len() && #[trigger] old_entries[a].facility == k;
                        assert(e[a].facility == k);
                    }
                    if has_entry(e, k) {
                        let a = choose|a: int| 0 <= a < e.len() && #[trigger] e[a].facility == k;
                        assert(old_entries[a].facility == k);
                    }
                }
                assert forall|k: i16| map@.contains_key(k) implies #[trigger] map@[k] == target[k] by {
                    let a = choose|a: int| 0 <= a < e.len() && #[trigger] e[a].facility == k;
                    map.lemma_months_at(a);
                    if k != internal_id {
                        assert(old_entries[a].facility == k);
                        assert(has_entry(old_entries, k));
                        let b = choose|b: int| 0 <= b < old_entries.len() && #[trigger] old_entries[b].facility == k;
                        assert(a == b) by {
                            if a != b {
                                assert(e[b].facility == k);
                            }
                        }
                    }
                }
                assert(map@ =~= target);
            }
        },
        None => {
            let months = vec![month];
            map.entries.push(FacilityMonths { facility: internal_id, months });
            proof {
                let e = map.entries@;
                let n = old_entries.len() as int;
                assert(e =~= old_entries.push(e[n]));
                assert forall|a: int| 0 <= a < n implies e[a].facility != internal_id by {
                    if e[a].facility == internal_id {
                        assert(old_entries[a].facility == internal_id);
                    }
                }
                assert(e[n].months@.to_set() =~= Set::<u32>::empty().insert(month)) by {
                    assert(e[n].months@ =~= seq![month]);
                    assert(e[n].months@[0] == month);
                }
                assert(map.wf());
                let target = old_view.insert(internal_id, Set::<u32>::empty().insert(month));
                assert forall|k: i16| #[trigger] map@.contains_key(k) <==> target.contains_key(k) by {
                    if has_entry(old_entries, k) {
                        let a = choose|a: int| 0 <= a < old_entries.len() && #[trigger] old_entries[a].facility == k;
                        assert(e[a].facility == k);
                    }
                    if k == internal_id {
                        assert(e[n].facility == k);
                    }
                    if has_entry(e, k) && k != internal_id {
                        let a = choose|a: int| 0 <= a < e.len() && #[trigger] e[a].facility == k;
                        assert(old_entries[a].facility == k);
                    }
                }
                assert forall|k: i16| map@.contains_key(k) implies #[trigger] map@[k] == target[k] by {
                    let a = choose|a: int| 0 <= a < e.len() && #[trigger] e[a].facility == k;
                    map.lemma_months_at(a);
                    if k != internal_id {
                        assert(a < n);
                        assert(old_entries[a].facility == k);
                        assert(has_entry(old_entries, k));
                        let b = choose|b: int| 0 <= b < old_entries.len() && #[trigger] old_entries[b].facility == k;
                        assert(a == b) by {
                            if a != b {
                                assert(e[b].facility == k);
                            }
                        }
                    }
                }
                assert(map@ =~= target);
            }
        },
    }
}

/// The index after one more lookup answer.
proof fn lemma_index_model_push(s: Seq<LookupOutcome>, o: LookupOutcome)
    ensures
        index_model(s.push(o)) == if opened(o) {
            index_model(s).insert(
                o.facility,
                if index_model(s).contains_key(o.facility) {
                    index_model(s)[o.facility]
                } else {
                    Set::empty()
                }.insert(o.month),
            )
        } else {
            index_model(s)
        },
{
    let t = s.push(o);
    let m = index_model(s);
    assert forall|k: i16| has_opening(t, k) <==> has_opening(s, k) || (opened(o) && o.facility == k) by {
        if has_opening(t, k) {
            let i = choose|i: int| 0 <= i < t.len() && opened(t[i]) && #[trigger] t[i].facility == k;
            if i < s.len() {
                assert(s[i] == t[i]);
            }
        }
        if has_opening(s, k) {
            let i = choose|i: int| 0 <= i < s.len() && opened(s[i]) && #[trigger] s[i].facility == k;
            assert(t[i] == s[i]);
        }
        if opened(o) && o.facility == k {
            assert(t[s.len() as int] == o);
        }
    }
    assert forall|k: i16, x: u32| open_months(t, k).contains(x) <==> open_months(s, k).contains(x) || (opened(o) && o.facility == k && o.month == x) by {
        if open_months(t, k).contains(x) {
            let i = choose|i: int| 0 <= i < t.len() && opened(t[i]) && #[trigger] t[i].facility == k && t[i].month == x;
            if i < s.len() {
                assert(s[i] == t[i]);
            }
        }
        if open_months(s, k).contains(x) {
            let i = choose|i: int| 0 <= i < s.len() && opened(s[i]) && #[trigger] s[i].facility == k && s[i].month == x;
            assert(t[i] == s[i]);
        }
        if opened(o) && o.facility == k && o.month == x {
            assert(t[s.len() as int] == o);
        }
    }
    if opened(o) {
        let target = m.insert(o.facility, if m.contains_key(o.facility) { m[o.facility] } else { Set::empty() }.insert(o.month));
        assert forall|k: i16| index_model(t).contains_key(k) implies index_model(t)[k] =~= target[k] by {
            if k == o.facility && !m.contains_key(k) {
                assert forall|x: u32| !open_months(s, k).contains(x) by {
                    if open_months(s, k).contains(x) {
                        let i = choose|i: int| 0 <= i < s.len() && opened(s[i]) && #[trigger] s[i].facility == k && s[i].month == x;
                        assert(has_opening(s, k));
                    }
                }
            }
        }
        assert(index_model(t) =~= target);
    } else {
        assert forall|k: i16| index_model(t).contains_key(k) implies index_model(t)[k] =~= m[k] by {}
        assert(index_model(t) =~= m);
    }
}

/// Builds the index from the answers of all lookups of a run: each facility
/// with an opening, mapped to the months in which it has one. Failed lookups
/// are skipped; they leave out only their own (facility, month) pair.
pub fn build_index(outcomes: &Vec<LookupOutcome>) -> (r: AvailabilityIndex)
    requires
        forall|i: int| 0 <= i < outcomes@.len() ==> 1 <= #[trigger] outcomes@[i].month <= 12,
    ensures
        r.wf(),
        r@ == index_model(outcomes@),
{
    let mut r = AvailabilityIndex::new();
    let mut i: usize = 0;
    proof {
        assert(outcomes@.take(0) =~= Seq::<LookupOutcome>::empty());
        assert(index_model(Seq::<LookupOutcome>::empty()) =~= Map::<i16, Set<u32>>::empty());
    }
    while i < outcomes.len()
        invariant
            0 <= i <= outcomes@.len(),
            forall|j: int| 0 <= j < outcomes@.len() ==> 1 <= #[trigger] outcomes@[j].month <= 12,
            r.wf(),
            r@ == index_model(outcomes@.take(i as int)),
        decreases outcomes@.len() - i,
    {
        let o = &outcomes[i];
        proof {
            assert(outcomes@.take(i + 1) =~= outcomes@.take(i as int).push(*o));
            lemma_index_model_push(outcomes@.take(i as int), *o);
        }
        match &o.sites {
            Some(sites) => {
                populate_map(&mut r, o.facility, o.month, sites);
            },
            None => {},
        }
        i = i + 1;
    }
    assert(outcomes@.take(outcomes@.len() as int) =~= outcomes@);
    r
}

/// Two runs over the same lookup answers, in whatever order they came
/// back, build the same index.
pub proof fn lemma_index_independent_of_order(a: Seq<LookupOutcome>, b: Seq<LookupOutcome>)
    requires
        a.to_set() == b.to_set(),
    ensures
        index_model(a) == index_model(b),
{
    assert forall|k: i16| has_opening(a, k) implies has_opening(b, k) by {
        {
            let i = choose|i: int| 0 <= i < a.len() && opened(a[i]) && #[trigger] a[i].facility == k;
            assert(a.to_set().contains(a[i]));
            assert(b.contains(a[i]));
        }
    }
    assert forall|k: i16| has_opening(b, k) implies has_opening(a, k) by {
        {
            let i = choose|i: int| 0 <= i < b.len() && opened(b[i]) && #[trigger] b[i].facility == k;
            assert(b.to_set().contains(b[i]));
            assert(a.contains(b[i]));
        }
    }
    assert forall|k: i16| #[trigger] open_months(a, k) =~= open_months(b, k) by {
        assert forall|x: u32| open_months(a, k).contains(x) implies open_months(b, k).contains(x) by {
            {
                let i = choose|i: int| 0 <= i < a.len() && opened(a[i]) && #[trigger] a[i].facility == k && a[i].month == x;
                assert(a.to_set().contains(a[i]));
                assert(b.contains(a[i]));
            }
        }
        assert forall|x: u32| open_months(b, k).contains(x) implies open_months(a, k).contains(x) by {
            {
                let i = choose|i: int| 0 <= i < b.len() && opened(b[i]) && #[trigger] b[i].facility == k && b[i].month == x;
                assert(b.to_set().contains(b[i]));
                assert(a.contains(b[i]));
            }
        }
    }
    assert(index_model(a) =~= index_model(b));
}

/// The (facility, month) pairs whose lookup failed, in order.
pub open spec fn skipped_model(s: Seq<LookupOutcome>) -> Seq<(i16, u32)>
    decreases s.len(),
{
    if s.len() == 0 {
        Seq::empty()
    } else if s.last().sites is None {
        skipped_model(s.drop_last()).push((s.last().facility, s.last().month))
    } else {
        skipped_model(s.drop_last())
    }
}

/// The (facility, month) pairs whose lookup failed and that the index
/// therefore leaves out, for the warning at the end of a run.
pub fn skipped_pairs(outcomes: &Vec<LookupOutcome>) -> (r: Vec<(i16, u32)>)
    ensures
        r@ == skipped_model(outcomes@),
{
    let mut r: Vec<(i16, u32)> = Vec::new();
    let mut i: usize = 0;
    assert(outcomes@.take(0) =~= Seq::<LookupOutcome>::empty());
    while i < outcomes.len()
        invariant
            0 <= i <= outcomes@.len(),
            r@ == skipped_model(outcomes@.take(i as int)),
        decreases outcomes@.len() - i,
    {
        assert(outcomes@.take(i + 1).drop_last() =~= outcomes@.take(i as int));
        assert(outcomes@.take(i + 1).last() == outcomes@[i as int]);
        if outcomes[i].sites.is_none() {
            r.push((outcomes[i].facility, outcomes[i].month));
        }
        i = i + 1;
    }
    assert(outcomes@.take(outcomes@.len() as int) =~= outcomes@);
    r
}

} // verus!
