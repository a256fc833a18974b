//! Lengths of time with nanosecond resolution.
use vstd::prelude::*;

verus! {

/// A length of time: whole seconds and a sub-second part.
#[derive(Clone, Copy, Debug, PartialEq, Eq, Structural)]
pub struct Interval {
    secs: u64,
    nanos: u32,
}

impl Interval {
    #[verifier::type_invariant]
    pub closed spec fn normalized(self) -> bool {
        self.nanos < 1_000_000_000
    }

    /// Total length in nanoseconds.
    pub closed spec fn total_nanos(self) -> nat {
        (self.secs * 1_000_000_000 + self.nanos) as nat
    }

    /// Whole seconds followed by a sub-second part below one second.
    pub fn from_parts(secs: u64, nanos: u32) -> (result: Self)
        requires
            nanos < 1_000_000_000,
        ensures
            result.total_nanos() == secs * 1_000_000_000 + nanos,
    {
        Interval { secs, nanos }
    }

    /// A whole number of seconds.
    pub fn from_secs(secs: u64) -> (result: Self)
        ensures
            result.total_nanos() == secs * 1_000_000_000,
    {
        Interval { secs, nanos: 0 }
    }

    /// A whole number of milliseconds.
    pub fn from_millis(millis: u64) -> (result: Self)
        ensures
            result.total_nanos() == millis * 1_000_000,
    {
        let rest: u32 = (millis % 1_000) as u32;
        Interval { secs: millis / 1_000, nanos: rest * 1_000_000 }
    }

    /// Whole seconds.
    pub fn as_secs(&self) -> (result: u64)
        ensures
            result == self.total_nanos() / 1_000_000_000,
    {
        proof {
            use_type_invariant(self);
        }
        self.secs
    }

    /// The part below one second, in nanoseconds.
    pub fn subsec_nanos(&self) -> (result: u32)
        ensures
            result == self.total_nanos() % 1_000_000_000,
    {
        proof {
            use_type_invariant(self);
        }
        self.nanos
    }

    /// Whole milliseconds.
    pub fn as_millis(&self) -> (result: u128)
        ensures
            result == self.total_nanos() / 1_000_000,
    {
        proof {
            use_type_invariant(self);
        }
        (self.secs as u128) * 1_000 + ((self.nanos / 1_000_000) as u128)
    }

    /// Tests for an empty length of time.
    pub fn is_zero(&self) -> (result: bool)
        ensures
            result == (self.total_nanos() == 0),
    {
        self.secs == 0 && self.nanos == 0
    }

    /// Tests whether this length is greater than `other`.
    pub fn exceeds(&self, other: &Interval) -> (result: bool)
        ensures
            result == (self.total_nanos() > other.total_nanos()),
    {
        proof {
            use_type_invariant(self);
            use_type_invariant(other);
        }
        self.secs > other.secs || (self.secs == other.secs && self.nanos > other.nanos)
    }

    /// Tests whether this time lies at least `length` after `start`.
    pub fn reaches(&self, start: &Interval, length: &Interval) -> (result: bool)
        ensures
            result == (self.total_nanos() >= start.total_nanos() + length.total_nanos()),
    {
        proof {
            use_type_invariant(self);
            use_type_invariant(start);
            use_type_invariant(length);
        }
        let own: u128 = (self.secs as u128) * 1_000_000_000 + (self.nanos as u128);
        let begin: u128 = (start.secs as u128) * 1_000_000_000 + (start.nanos as u128);
        let span: u128 = (length.secs as u128) * 1_000_000_000 + (length.nanos as u128);
        own >= begin + span
    }

    /// Rendering with a unit, such as `1.5s` or `20ms`.
    pub fn debug_text(&self) -> (result: String)
        ensures
            result@ == unit_text(self.total_nanos()),
    {
        proof {
            use_type_invariant(self);
            assert(self.total_nanos() / 1_000_000_000 == self.secs);
            assert(self.total_nanos() % 1_000_000_000 == self.nanos);
        }
        render_duration(self.secs, self.nanos)
    }

    /// The shorter of twice this length and `cap`; `cap` also stands in for a
    /// doubled length that cannot be represented.
    pub fn doubled_up_to(&self, cap: &Interval) -> (result: Self)
        ensures
            result.total_nanos() == if 2 * self.total_nanos() <= cap.total_nanos() {
                2 * self.total_nanos()
            } else {
                cap.total_nanos()
            },
    {
        proof {
            use_type_invariant(self);
            use_type_invariant(cap);
        }
        let total: u128 = 2 * ((self.secs as u128) * 1_000_000_000 + (self.nanos as u128));
        let bound: u128 = (cap.secs as u128) * 1_000_000_000 + (cap.nanos as u128);
        if total <= bound {
            let nanos: u32 = (total % 1_000_000_000) as u32;
            let secs: u64 = (total / 1_000_000_000) as u64;
            Interval { secs, nanos }
        } else {
            *cap
        }
    }
}

/// Rendering of a number of nanoseconds, in the largest fitting unit.
pub uninterp spec fn unit_text(nanos: nat) -> Seq<char>;

/// Renders a length of time with `<std::time::Duration as std::fmt::Debug>::fmt`.
/// The result depends on the length alone.
#[verifier::external_body]
fn render_duration(secs: u64, nanos: u32) -> (result: String)
    requires
        nanos < 1_000_000_000,
    ensures
        result@ == unit_text((secs * 1_000_000_000 + nanos) as nat),
{
    format!("{:?}", std::time::Duration::new(secs, nanos))
}

} // verus!
