//! The three calendar months checked on each run.

use vstd::prelude::*;
use crate::text::{month_code, month_text};

verus! {

/// The month after `m` (1-based), wrapping December to January.
pub open spec fn next_month(m: nat) -> nat {
    m % 12 + 1
}

/// The current month and the two after it, each as a number 1 to 12.
pub struct MonthWindow {
    pub current: u32,
    pub next: u32,
    pub after_next: u32,
}

impl MonthWindow {
    pub open spec fn wf(&self) -> bool {
        &&& 1 <= self.current <= 12
        &&& self.next as nat == next_month(self.current as nat)
        &&& self.after_next as nat == next_month(self.next as nat)
    }

    /// The three months in order.
    pub open spec fn months_spec(&self) -> Seq<u32> {
        seq![self.current, self.next, self.after_next]
    }

    /// The three months in order.
    pub fn months(&self) -> (r: Vec<u32>)
        ensures
            r@ == self.months_spec(),
    {
        let r = vec![self.current, self.next, self.after_next];
        assert(r@ =~= self.months_spec());
        r
    }

    /// The three two-digit month codes in order.
    pub fn codes(&self) -> (r: Vec<String>)
        requires
            self.wf(),
        ensures
            r@.len() == 3,
            r@[0]@ == month_text(self.current as nat),
            r@[1]@ == month_text(self.next as nat),
            r@[2]@ == month_text(self.after_next as nat),
    {
        vec![month_code(self.current), month_code(self.next), month_code(self.after_next)]
    }
}

/// The month after `m`, wrapping December to January.
pub fn following_month(m: u32) -> (r: u32)
    requires
        1 <= m <= 12,
    ensures
        r as nat == next_month(m as nat),
        1 <= r <= 12,
{
    m % 12 + 1
}

/// The window that starts at month `current` (1 to 12).
pub fn month_window(current: u32) -> (r: MonthWindow)
    requires
        1 <= current <= 12,
    ensures
        r.wf(),
        r.current == current,
        r.next as nat == next_month(current as nat),
        r.after_next as nat == next_month(next_month(current as nat)),
        forall|k: int|
            0 <= k < 3 ==> #[trigger] r.months_spec()[k] as int == (current - 1 + k) % 12 + 1,
{
    let next = following_month(current);
    let after_next = following_month(next);
    let r = MonthWindow { current, next, after_next };
    assert(r.months_spec()[0] == current);
    assert(r.months_spec()[1] == next);
    assert(r.months_spec()[2] == after_next);
    r
}

} // verus!
