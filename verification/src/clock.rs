//! Moments in time.
use vstd::prelude::*;

verus! {

/// The latest time that a date can have, in seconds since 1970: the end of the year
/// 262142.
pub const MAX_TIMESTAMP: i64 = 8_210_266_876_799;

/// The earliest time that a date can have, in seconds since 1970: the start of the
/// year -262143.
pub const MIN_TIMESTAMP: i64 = -8_334_601_228_800;

pub const SECS_PER_DAY: i64 = 86_400;

/// A moment: seconds since 1970, and nanoseconds since the last of them.
#[derive(Debug, Clone, Copy, PartialEq, Eq, Structural)]
pub struct Moment {
    pub seconds: i64,
    pub nanos: u32,
}

impl Moment {
    /// Nanoseconds since 1970.
    pub open spec fn at(self) -> int {
        self.seconds * 1_000_000_000 + self.nanos
    }

    pub fn nanoseconds(&self) -> (r: i128)
        ensures
            r == self.at(),
    {
        (self.seconds as i128) * 1_000_000_000 + (self.nanos as i128)
    }
}

/// Whether a moment can have been read off a clock.
pub open spec fn is_present(m: Moment) -> bool {
    0 <= m.seconds <= MAX_TIMESTAMP && m.nanos < 1_000_000_000
}

/// A moment in the notation of RFC 3339, as `chrono` prints it in UTC.
pub uninterp spec fn rfc3339(seconds: i64, nanos: u32) -> Seq<char>;

/// Reads the clock with `chrono::Utc::now`, which gives a date that is not before 1970,
/// and prints the moment with `to_rfc3339`. The text is named: it depends on the moment
/// alone. On a machine whose clock stands before 1970 the call panics.
#[verifier::external_body]
pub(crate) fn utc_now() -> (r: (Moment, String))
    ensures
        is_present(r.0),
        r.1@ == rfc3339(r.0.seconds, r.0.nanos),
{
    let t = chrono::Utc::now();
    (Moment { seconds: t.timestamp(), nanos: t.timestamp_subsec_nanos() }, t.to_rfc3339())
}

/// Moments are counted in nanoseconds, and a clock shows one from 1970 on.
pub proof fn law_moments_are_counted(m: Moment)
    ensures
        m.at() == m.seconds as int * 1_000_000_000 + m.nanos as int,
        is_present(m) == (0 <= m.seconds <= 8_210_266_876_799 && m.nanos < 1_000_000_000),
        SECS_PER_DAY == 24 * 60 * 60,
{
}

} // verus!
