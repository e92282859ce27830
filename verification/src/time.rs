//! Lengths of time as seconds and nanoseconds.
use vstd::prelude::*;

verus! {

/// A length of time; `nanos` stays below one second.
#[derive(Debug, Clone, Copy, PartialEq, Eq, Structural)]
pub struct Span {
    pub secs: u64,
    pub nanos: u32,
}

impl Span {
    /// The length in nanoseconds.
    pub open spec fn total(self) -> nat {
        self.secs as nat * 1000000000 + self.nanos as nat
    }

    pub fn from_secs(secs: u64) -> (r: Span)
        ensures
            r.total() == secs * 1000000000,
            r.nanos < 1000000000,
    {
        Span { secs, nanos: 0 }
    }

    pub fn from_millis(millis: u64) -> (r: Span)
        ensures
            r.total() == millis * 1000000,
            r.nanos < 1000000000,
    {
        Span { secs: millis / 1000, nanos: ((millis % 1000) * 1000000) as u32 }
    }

    pub fn is_zero(self) -> (r: bool)
        ensures
            r == (self.total() == 0),
    {
        self.secs == 0 && self.nanos == 0
    }

    /// Whether this is longer than `secs` seconds.
    pub fn exceeds(self, secs: u64) -> (r: bool)
        ensures
            r == (self.total() > secs * 1000000000),
    {
        let whole: u128 = self.secs as u128 * 1000000000 + self.nanos as u128;
        whole > secs as u128 * 1000000000
    }

    /// Whole milliseconds, if they fit.
    pub fn millis_fit(self) -> (r: Option<u64>)
        ensures
            match r {
                Some(n) => n == self.total() / 1000000,
                None => self.total() / 1000000 > u64::MAX,
            },
    {
        let whole: u128 = (self.secs as u128 * 1000000000 + self.nanos as u128) / 1000000;
        if whole <= u64::MAX as u128 { Some(whole as u64) } else { None }
    }

    /// Whole milliseconds, as far as they fit.
    pub fn millis(self) -> (r: u64)
        ensures
            r == if self.total() / 1000000 <= u64::MAX { (self.total() / 1000000) as u64 } else { u64::MAX },
    {
        let whole: u128 = (self.secs as u128 * 1000000000 + self.nanos as u128) / 1000000;
        if whole <= u64::MAX as u128 { whole as u64 } else { u64::MAX }
    }
}

} // verus!
