//! A UTC instant, held as whole seconds since the Unix epoch and the
//! nanoseconds since the last whole second, ordered by time.

use vstd::prelude::*;

verus! {

/// Whether chrono has a UTC date and time for `seconds` since the Unix epoch
/// and `nanos` nanoseconds past that second.
pub uninterp spec fn is_utc_instant(seconds: i64, nanos: u32) -> bool;

/// Relies on `chrono::DateTime::<Utc>::from_timestamp`, which returns `None`
/// for seconds out of chrono's range and for nanoseconds of two seconds or
/// more.
#[verifier::external_body]
fn utc_instant_exists(seconds: i64, nanos: u32) -> (r: bool)
    ensures
        r == is_utc_instant(seconds, nanos),
        r ==> nanos < 2_000_000_000,
{
    chrono::DateTime::<chrono::Utc>::from_timestamp(seconds, nanos).is_some()
}

/// Relies on `chrono::Utc::now`, which builds the current time with
/// `DateTime::from_timestamp` from the system clock's seconds and sub-second
/// nanoseconds; the parts read back are those.
#[verifier::external_body]
fn utc_now() -> (r: (i64, u32))
    ensures
        is_utc_instant(r.0, r.1),
        r.1 < 1_000_000_000,
{
    let t = chrono::Utc::now();
    (t.timestamp(), t.timestamp_subsec_nanos())
}

/// `a` is the same instant as `b` or a later one.
pub open spec fn at_least(a: (i64, u32), b: (i64, u32)) -> bool {
    a.0 > b.0 || (a.0 == b.0 && a.1 >= b.1)
}

/// A point in time in UTC, suitable for comparing times taken on different
/// machines. It never changes once made; equality and order are those of the
/// instants.
#[derive(Clone, Copy, Debug, PartialEq, Eq, Structural, PartialOrd, Ord, Hash)]
pub struct Timestamp {
    seconds: i64,
    nanos: u32,
}

impl View for Timestamp {
    type V = (i64, u32);

    closed spec fn view(&self) -> (i64, u32) {
        (self.seconds, self.nanos)
    }
}

impl Timestamp {
    #[verifier::type_invariant]
    spec fn inv(&self) -> bool {
        is_utc_instant(self.seconds, self.nanos) && self.nanos < 2_000_000_000
    }

    /// The current time.
    pub fn new() -> (r: Timestamp)
        ensures
            is_utc_instant(r@.0, r@.1),
            r@.1 < 1_000_000_000,
    {
        let (seconds, nanos) = utc_now();
        Timestamp { seconds, nanos }
    }

    /// The instant `nanos` nanoseconds past `seconds` whole seconds since the
    /// Unix epoch, when chrono has such a UTC time.
    pub fn create(seconds: i64, nanos: u32) -> (r: Option<Timestamp>)
        ensures
            r is Some <==> is_utc_instant(seconds, nanos),
            r matches Some(t) ==> t@ == (seconds, nanos),
    {
        if utc_instant_exists(seconds, nanos) {
            Some(Timestamp { seconds, nanos })
        } else {
            None
        }
    }

    /// Whole seconds since the Unix epoch.
    pub fn seconds(&self) -> (r: i64)
        ensures
            r == self@.0,
            is_utc_instant(self@.0, self@.1),
    {
        proof {
            use_type_invariant(self);
        }
        self.seconds
    }

    /// Nanoseconds past the last whole second; a leap second gives one
    /// billion or more.
    pub fn nanos(&self) -> (r: u32)
        ensures
            r == self@.1,
            r < 2_000_000_000,
            is_utc_instant(self@.0, self@.1),
    {
        proof {
            use_type_invariant(self);
        }
        self.nanos
    }

    /// Whether this timestamp is as new as `other` or newer.
    pub fn is_current(&self, other: &Timestamp) -> (r: bool)
        ensures
            r == at_least(self@, other@),
    {
        self.seconds > other.seconds || (self.seconds == other.seconds && self.nanos
            >= other.nanos)
    }
}

impl Default for Timestamp {
    /// The current time.
    fn default() -> (r: Timestamp)
        ensures
            is_utc_instant(r@.0, r@.1),
    {
        Timestamp::new()
    }
}

/// `is_current` is a total order on instants: every timestamp is current
/// against itself, of two timestamps one is current against the other, two
/// that are each current against the other are equal, and it is transitive.
pub proof fn law_is_current_total_order(a: Timestamp, b: Timestamp, c: Timestamp)
    ensures
        at_least(a@, a@),
        at_least(a@, b@) || at_least(b@, a@),
        at_least(a@, b@) && at_least(b@, a@) ==> a == b,
        at_least(a@, b@) && at_least(b@, c@) ==> at_least(a@, c@),
{
}

/// A timestamp is determined by its seconds and nanoseconds: the one that
/// `create` makes from the parts of `t` (which `seconds` and `nanos` show to
/// be accepted) equals `t`.
pub proof fn law_equal_parts_equal_timestamps(t: Timestamp, u: Timestamp)
    requires
        u@ == t@,
    ensures
        u == t,
{
}

} // verus!
