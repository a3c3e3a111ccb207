//! Monotonic per-connection serial numbers for request/response correlation.

use vstd::prelude::*;

verus! {

/// Source of correlation ids.  Serial 0 is reserved for unsolicited pushes,
/// so the counter starts at 1; every draw is strictly greater than every
/// serial drawn before it on the same counter.
pub struct SerialCounter {
    next: u32,
    produced: Ghost<Seq<u32>>,
}

impl SerialCounter {
    /// The value the next draw will return.
    pub closed spec fn next_value(self) -> u32 {
        self.next
    }

    /// Every serial this counter has handed out, in order.
    pub closed spec fn produced(self) -> Seq<u32> {
        self.produced@
    }

    /// Serials start at 1 and everything handed out is below `next`.
    pub open spec fn wf(self) -> bool {
        &&& self.next_value() >= 1
        &&& forall|i: int|
            0 <= i < self.produced().len() ==> 1 <= #[trigger] self.produced()[i]
                < self.next_value()
    }

    pub fn new() -> (r: SerialCounter)
        ensures
            r.wf(),
            r.next_value() == 1,
            r.produced() == Seq::<u32>::empty(),
    {
        SerialCounter { next: 1, produced: Ghost(Seq::empty()) }
    }

    /// The value the next draw will return, without drawing it.  Callers
    /// outside the library use it to notice an exhausted counter.
    pub fn peek_next(&self) -> (r: u32)
        ensures
            r == self.next_value(),
    {
        self.next
    }

    /// Draw the next serial number: at least 1, and strictly greater than
    /// every serial previously produced by this counter.
    pub fn next_serial(&mut self) -> (r: u32)
        requires
            old(self).wf(),
            old(self).next_value() < u32::MAX,
        ensures
            r == old(self).next_value(),
            r >= 1,
            final(self).wf(),
            final(self).next_value() == r + 1,
            final(self).produced() == old(self).produced().push(r),
            forall|i: int|
                0 <= i < old(self).produced().len() ==> #[trigger] old(self).produced()[i] < r,
    {
        let r = self.next;
        self.next = self.next + 1;
        proof {
            self.produced@ = self.produced@.push(r);
        }
        r
    }
}

} // verus!
