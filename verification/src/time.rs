//! Submission timestamps and the keys by which tickets are ordered.

use vstd::prelude::*;

verus! {

/// An instant in UTC: whole seconds since the Unix epoch and the nanoseconds
/// past that second.
#[derive(Clone, Copy, Debug, PartialEq, Eq, Structural, PartialOrd, Ord, Hash)]
pub struct Timestamp {
    pub secs: i64,
    pub nanos: u32,
}

/// A key with a total order, given by its integer rank.
pub trait TicketKey: Sized {
    /// The position of the key in the order: smaller ranks come first.
    spec fn rank(&self) -> int;

    /// Whether `self` comes strictly before `other`.
    fn precedes(&self, other: &Self) -> (b: bool)
        ensures
            b == (self.rank() < other.rank()),
    ;
}

impl Timestamp {
    /// Whether `self` is strictly earlier than `other`: seconds first, then
    /// nanoseconds.
    pub open spec fn earlier(self, other: Timestamp) -> bool {
        self.secs < other.secs || (self.secs == other.secs && self.nanos < other.nanos)
    }

    /// Whether `self` is strictly earlier than `other`.
    pub fn is_before(&self, other: &Timestamp) -> (b: bool)
        ensures
            b == self.earlier(*other),
    {
        self.secs < other.secs || (self.secs == other.secs && self.nanos < other.nanos)
    }

    /// Milliseconds since the Unix epoch, truncated to 64 bits; 0 for an
    /// instant before the epoch.
    pub open spec fn unix_millis(self) -> int {
        if self.secs < 0 {
            0
        } else {
            (self.secs * 1000 + self.nanos / 1_000_000) % 0x1_0000_0000_0000_0000
        }
    }

    /// Milliseconds since the Unix epoch, truncated to 64 bits; 0 for an
    /// instant before the epoch.
    pub fn millis(&self) -> (ms: u64)
        ensures
            ms == self.unix_millis(),
    {
        if self.secs < 0 {
            0
        } else {
            let whole: u128 = (self.secs as u128) * 1000 + ((self.nanos / 1_000_000) as u128);
            (whole % 0x1_0000_0000_0000_0000u128) as u64
        }
    }

    /// Reads the system clock through `chrono::Utc::now` and takes the
    /// instant apart with `timestamp` and `timestamp_subsec_nanos`. Nothing
    /// is claimed of the instant that comes back.
    #[verifier::external_body]
    pub(crate) fn now() -> Timestamp {
        let t = chrono::Utc::now();
        Timestamp { secs: t.timestamp(), nanos: t.timestamp_subsec_nanos() }
    }
}

impl TicketKey for Timestamp {
    open spec fn rank(&self) -> int {
        self.secs * 0x1_0000_0000 + self.nanos
    }

    fn precedes(&self, other: &Self) -> (b: bool) {
        self.is_before(other)
    }
}

impl TicketKey for u64 {
    open spec fn rank(&self) -> int {
        *self as int
    }

    fn precedes(&self, other: &Self) -> (b: bool) {
        *self < *other
    }
}

impl TicketKey for i64 {
    open spec fn rank(&self) -> int {
        *self as int
    }

    fn precedes(&self, other: &Self) -> (b: bool) {
        *self < *other
    }
}

impl TicketKey for u32 {
    open spec fn rank(&self) -> int {
        *self as int
    }

    fn precedes(&self, other: &Self) -> (b: bool) {
        *self < *other
    }
}

impl TicketKey for i32 {
    open spec fn rank(&self) -> int {
        *self as int
    }

    fn precedes(&self, other: &Self) -> (b: bool) {
        *self < *other
    }
}

/// On timestamps the rank order is the order by seconds, then nanoseconds.
pub proof fn lemma_timestamp_rank(a: Timestamp, b: Timestamp)
    ensures
        a.rank() < b.rank() <==> a.earlier(b),
        a.rank() == b.rank() <==> a == b,
{
}

} // verus!
