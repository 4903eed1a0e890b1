//! Digest dispatch: which subscriber is told of which months, the email
//! that says so, and the record of what was sent.

use vstd::prelude::*;
use crate::index::{
    has_opening, index_model, lemma_index_independent_of_order, open_months, opened,
    AvailabilityIndex, LookupOutcome,
};
use crate::model::{SendEmailPayload, Subscription};
use crate::text::{
    decimal, digit_char, int_text, join_commas, join_with_commas, month_code, month_text, nat_text,
};

verus! {

/// One subscriber's notification: the months in which their facility has
/// an opening.
pub struct EmailDigest {
    pub to: String,
    pub facility_id: i16,
    pub months: Vec<u32>,
}

/// For each subscription in order, the months to notify of, or `None`
/// where its facility has no entry in the index.
pub open spec fn digest_plan_model(subs: Seq<Subscription>, index: Map<i16, Set<u32>>) -> Seq<
    Option<Set<u32>>,
> {
    subs.map_values(
        |s: Subscription|
            if index.contains_key(s.facility_id) {
                Some(index[s.facility_id])
            } else {
                None
            },
    )
}

/// The months of a planned digest, as a set.
pub open spec fn digest_months(d: Option<EmailDigest>) -> Option<Set<u32>> {
    match d {
        Some(d) => Some(d.months@.to_set()),
        None => None,
    }
}

/// One digest slot per subscription, in order: a digest with the months of
/// its facility's entry (each once) where the index has one, and none
/// otherwise.
pub fn plan_digests(subscriptions: &Vec<Subscription>, index: &AvailabilityIndex) -> (r: Vec<
    Option<EmailDigest>,
>)
    requires
        index.wf(),
    ensures
        r@.len() == subscriptions@.len(),
        forall|i: int|
            0 <= i < r@.len() ==> digest_months(#[trigger] r@[i]) == digest_plan_model(
                subscriptions@,
                index@,
            )[i],
        forall|i: int|
            0 <= i < r@.len() ==> (#[trigger] r@[i] matches Some(d) ==> {
                &&& d.to@ == subscriptions@[i].email@
                &&& d.facility_id == subscriptions@[i].facility_id
                &&& d.months@.no_duplicates()
                &&& forall|j: int| 0 <= j < d.months@.len() ==> 1 <= #[trigger] d.months@[j] <= 12
            }),
{
    let mut r: Vec<Option<EmailDigest>> = Vec::new();
    let mut i: usize = 0;
    while i < subscriptions.len()
        invariant
            0 <= i <= subscriptions@.len(),
            index.wf(),
            r@.len() == i,
            forall|k: int|
                0 <= k < i ==> digest_months(#[trigger] r@[k]) == digest_plan_model(
                    subscriptions@,
                    index@,
                )[k],
            forall|k: int|
                0 <= k < i ==> (#[trigger] r@[k] matches Some(d) ==> {
                    &&& d.to@ == subscriptions@[k].email@
                    &&& d.facility_id == subscriptions@[k].facility_id
                    &&& d.months@.no_duplicates()
                    &&& forall|j: int|
                        0 <= j < d.months@.len() ==> 1 <= #[trigger] d.months@[j] <= 12
                }),
        decreases subscriptions@.len() - i,
    {
        let s = &subscriptions[i];
        match index.get(s.facility_id) {
            Some(months) => {
                let d = EmailDigest {
                    to: s.email.clone(),
                    facility_id: s.facility_id,
                    months: months.clone(),
                };
                r.push(Some(d));
            },
            None => {
                r.push(None);
            },
        }
        i = i + 1;
    }
    r
}

/// A facility with an opening in the lookups of a run gives each of its
/// subscribers one digest, listing exactly the months with an opening.
pub proof fn lemma_open_facility_is_notified(
    subs: Seq<Subscription>,
    outcomes: Seq<LookupOutcome>,
    i: int,
)
    requires
        0 <= i < subs.len(),
        has_opening(outcomes, subs[i].facility_id),
    ensures
        digest_plan_model(subs, index_model(outcomes)).len() == subs.len(),
        digest_plan_model(subs, index_model(outcomes))[i] == Some(
            open_months(outcomes, subs[i].facility_id),
        ),
        open_months(outcomes, subs[i].facility_id) != Set::<u32>::empty(),
{
    let k = subs[i].facility_id;
    let j = choose|j: int|
        0 <= j < outcomes.len() && opened(outcomes[j]) && #[trigger] outcomes[j].facility
            == k;
    assert(open_months(outcomes, k).contains(outcomes[j].month));
}

/// A subscription whose facility has no opening in the lookups of a run
/// (unresolved, failed or empty) gets no digest.
pub proof fn lemma_closed_facility_is_skipped(
    subs: Seq<Subscription>,
    outcomes: Seq<LookupOutcome>,
    i: int,
)
    requires
        0 <= i < subs.len(),
        !has_opening(outcomes, subs[i].facility_id),
    ensures
        digest_plan_model(subs, index_model(outcomes))[i] is None,
{
}

/// Two runs over the same subscriptions and the same lookup answers, in
/// whatever order the answers came back, build the same index and plan the
/// same digests.
pub proof fn lemma_rerun_plans_same_digests(
    subs: Seq<Subscription>,
    a: Seq<LookupOutcome>,
    b: Seq<LookupOutcome>,
)
    requires
        a.to_set() == b.to_set(),
    ensures
        index_model(a) == index_model(b),
        digest_plan_model(subs, index_model(a)) == digest_plan_model(subs, index_model(b)),
{
    lemma_index_independent_of_order(a, b);
}

/// The codes of the months, joined by commas.
pub open spec fn months_text(months: Seq<u32>) -> Seq<char> {
    join_commas(months.map_values(|m: u32| month_text(m as nat)))
}

proof fn lemma_month_text_shape(m: nat)
    requires
        1 <= m <= 12,
    ensures
        month_text(m).len() == 2,
        month_text(m)[0] != ',',
        month_text(m)[1] != ',',
{
    if m >= 10 {
        assert(nat_text(m) == nat_text(m / 10).push(digit_char(m % 10)));
        assert(nat_text(m / 10) == seq![digit_char(m / 10)]);
    } else {
        assert(nat_text(m) == seq![digit_char(m)]);
    }
}

/// The month list of a notification splits on `,` into exactly the codes of
/// its months, in order: code `i` fills positions `3i` and `3i + 1`, and a
/// comma stands between each two codes and nowhere else.
pub proof fn lemma_months_text_splits(months: Seq<u32>)
    requires
        months.len() > 0,
        forall|j: int| 0 <= j < months.len() ==> 1 <= #[trigger] months[j] <= 12,
    ensures
        months_text(months).len() == 3 * months.len() - 1,
        forall|i: int, c: int|
            0 <= i < months.len() && 0 <= c < 2 ==> #[trigger] months_text(months)[3 * i + c]
                == #[trigger] month_text(months[i] as nat)[c],
        forall|i: int| 0 <= i < months.len() - 1 ==> #[trigger] months_text(months)[3 * i + 2] == ',',
    decreases months.len(),
{
    let parts = months.map_values(|m: u32| month_text(m as nat));
    let t = months_text(months);
    let n = months.len() as int;
    lemma_month_text_shape(months[n - 1] as nat);
    if n == 1 {
        assert(t == month_text(months[0] as nat));
    } else {
        let init = months.drop_last();
        lemma_months_text_splits(init);
        assert(parts.drop_last() =~= init.map_values(|m: u32| month_text(m as nat)));
        let u = months_text(init);
        let last = month_text(months[n - 1] as nat);
        assert(t == u + seq![','] + last);
        assert forall|i: int, c: int|
            0 <= i < n && 0 <= c < 2 implies #[trigger] t[3 * i + c] == #[trigger] month_text(
            months[i] as nat)[c] by {
            if i < n - 1 {
                assert(init[i] == months[i]);
                assert(t[3 * i + c] == u[3 * i + c]);
            } else {
                assert(t[3 * i + c] == last[c]);
            }
        }
        assert forall|i: int| 0 <= i < n - 1 implies #[trigger] t[3 * i + 2] == ',' by {
            if i < n - 2 {
                assert(t[3 * i + 2] == u[3 * i + 2]);
            } else {
                assert(3 * i + 2 == u.len());
            }
        }
    }
}

/// The text of a notification.
pub open spec fn body_text(months: Seq<u32>, reservation_url: Seq<char>, facility_id: i16) -> Seq<
    char,
> {
    "New openings for following months: "@ + months_text(months)
        + ".\nBe first to reserve the spot here: "@ + reservation_url + "/"@ + int_text(
        facility_id as int,
    )
}

/// The month codes of `months`, joined by commas.
pub fn months_list(months: &Vec<u32>) -> (r: String)
    requires
        forall|j: int| 0 <= j < months@.len() ==> 1 <= #[trigger] months@[j] <= 12,
    ensures
        r@ == months_text(months@),
{
    let mut parts: Vec<String> = Vec::new();
    let mut i: usize = 0;
    while i < months.len()
        invariant
            0 <= i <= months@.len(),
            forall|j: int| 0 <= j < months@.len() ==> 1 <= #[trigger] months@[j] <= 12,
            parts@.map_values(|p: String| p@) =~= months@.take(i as int).map_values(
                |m: u32| month_text(m as nat),
            ),
        decreases months@.len() - i,
    {
        let code = month_code(months[i]);
        let ghost before = parts@;
        parts.push(code);
        assert(parts@.map_values(|p: String| p@) =~= before.map_values(|p: String| p@).push(
            code@,
        ));
        assert(months@.take(i + 1).map_values(|m: u32| month_text(m as nat)) =~= months@.take(
            i as int,
        ).map_values(|m: u32| month_text(m as nat)).push(month_text(months@[i as int] as nat)));
        i = i + 1;
    }
    assert(months@.take(months@.len() as int) =~= months@);
    join_with_commas(&parts)
}

/// The email that tells a subscriber of the months in `digest`, with the
/// reservation link of the facility.
pub fn digest_payload(digest: &EmailDigest, reservation_url: &str) -> (r: SendEmailPayload)
    requires
        forall|j: int| 0 <= j < digest.months@.len() ==> 1 <= #[trigger] digest.months@[j] <= 12,
    ensures
        r.from@ == "info@theboardhop.com"@,
        r.to@ == digest.to@,
        r.subject@ == "Your spot opened up!"@,
        r.text_body@ == body_text(digest.months@, reservation_url@, digest.facility_id),
        r.html_body@ == r.text_body@,
        r.message_stream@ == "outbound"@,
{
    let list = months_list(&digest.months);
    let mut body = String::from_str("New openings for following months: ");
    body.append(list.as_str());
    body.append(".\nBe first to reserve the spot here: ");
    body.append(reservation_url);
    body.append("/");
    let id = decimal(digest.facility_id as i64);
    body.append(id.as_str());
    let html = body.clone();
    SendEmailPayload {
        from: String::from_str("info@theboardhop.com"),
        to: digest.to.clone(),
        subject: String::from_str("Your spot opened up!"),
        text_body: body,
        html_body: html,
        message_stream: String::from_str("outbound"),
    }
}

/// The subscribers reached and those whose email failed, in the order
/// attempted.
pub struct DispatchReport {
    pub sent: Vec<String>,
    pub failed: Vec<String>,
}

impl DispatchReport {
    /// A report of no attempts.
    pub fn new() -> (r: DispatchReport)
        ensures
            r.sent@.len() == 0,
            r.failed@.len() == 0,
    {
        DispatchReport { sent: Vec::new(), failed: Vec::new() }
    }

    /// Records one attempt; a failure is recorded and the run goes on.
    pub fn record(&mut self, email: &String, delivered: bool)
        ensures
            delivered ==> final(self).sent@ == old(self).sent@.push(*email),
            delivered ==> final(self).failed@ == old(self).failed@,
            !delivered ==> final(self).failed@ == old(self).failed@.push(*email),
            !delivered ==> final(self).sent@ == old(self).sent@,
    {
        if delivered {
            self.sent.push(email.clone());
        } else {
            self.failed.push(email.clone());
        }
    }
}

} // verus!
