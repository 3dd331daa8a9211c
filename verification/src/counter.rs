//! Monotonic counters for event sequence numbers and state revisions, and
//! the publication tally of a latest-value stream.

use vstd::prelude::*;

verus! {

/// Hands out 1, 2, 3, ... after its starting value.
#[derive(Debug)]
pub struct MonotonicCounter {
    next: u64,
}

impl MonotonicCounter {
    /// The last value handed out (or the starting value).
    pub closed spec fn value(&self) -> u64 {
        self.next
    }

    pub fn new(start: u64) -> (counter: Self)
        ensures
            counter.value() == start,
    {
        MonotonicCounter { next: start }
    }

    /// Moves to the next value and returns it.
    pub fn advance(&mut self) -> (n: u64)
        requires
            old(self).value() < u64::MAX,
        ensures
            n == old(self).value() + 1,
            final(self).value() == n,
    {
        self.next = self.next + 1;
        self.next
    }

    pub fn current(&self) -> (n: u64)
        ensures
            n == self.value(),
    {
        self.next
    }
}

impl Default for MonotonicCounter {
    fn default() -> (counter: Self)
        ensures
            counter.value() == 0,
    {
        MonotonicCounter::new(0)
    }
}

/// `n + 1`, wrapping to 0 after `u64::MAX`.
pub open spec fn wrapping_increment(n: u64) -> u64 {
    if n == u64::MAX {
        0
    } else {
        (n + 1) as u64
    }
}

/// Counts the values published on a latest-value stream and how many of them
/// replaced a value that was still held.
#[derive(Debug)]
pub struct PublishTally {
    published: u64,
    replaced: u64,
    holds_value: bool,
}

impl PublishTally {
    pub closed spec fn published(&self) -> u64 {
        self.published
    }

    pub closed spec fn replaced(&self) -> u64 {
        self.replaced
    }

    /// Whether the stream currently holds a value.
    pub closed spec fn holds_value(&self) -> bool {
        self.holds_value
    }

    /// Every publication but the first replaced a held value: the stream
    /// holds a value exactly when something was published, and the
    /// replacements number one less than the publications.
    pub open spec fn replacements_trail(&self) -> bool {
        &&& self.holds_value() <==> self.published() > 0
        &&& self.published() > 0 ==> self.replaced() == self.published() - 1
        &&& self.published() == 0 ==> self.replaced() == 0
    }

    pub fn new() -> (tally: Self)
        ensures
            tally.published() == 0,
            tally.replaced() == 0,
            !tally.holds_value(),
            tally.replacements_trail(),
    {
        PublishTally { published: 0, replaced: 0, holds_value: false }
    }

    /// Records one publication: it counts as a replacement when a value was
    /// already held. The counts wrap around at `u64::MAX`, like the atomic
    /// counters they stand for.
    pub fn record_publish(&mut self)
        ensures
            final(self).published() == wrapping_increment(old(self).published()),
            final(self).replaced() == (if old(self).holds_value() {
                wrapping_increment(old(self).replaced())
            } else {
                old(self).replaced()
            }),
            final(self).holds_value(),
            old(self).replacements_trail() && old(self).published() < u64::MAX
                ==> final(self).replacements_trail(),
    {
        if self.holds_value {
            self.replaced = self.replaced.wrapping_add(1);
        }
        self.published = self.published.wrapping_add(1);
        self.holds_value = true;
    }

    pub fn published_count(&self) -> (n: u64)
        ensures
            n == self.published(),
    {
        self.published
    }

    pub fn replaced_count(&self) -> (n: u64)
        ensures
            n == self.replaced(),
    {
        self.replaced
    }
}

} // verus!
