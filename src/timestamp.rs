use vstd::prelude::*;

verus! {

/// The earliest second the calendar handles: -9999-01-01T00:00:00Z.
pub const MIN_UNIX_SECS: i64 = -377705116800;

/// The latest second the calendar handles: 9999-12-31T23:59:59Z.
pub const MAX_UNIX_SECS: i64 = 253402300799;

pub const NANOS_PER_SEC: u32 = 1000000000;

pub const SECS_PER_DAY: i64 = 86400;

pub const SECS_PER_MINUTE: i64 = 60;

/// An instant with the UTC offset it is shown in: whole seconds since the Unix
/// epoch, the nanoseconds past that second, and the offset in seconds.
#[derive(Clone, Copy, Debug, PartialEq, Eq, Structural)]
pub struct Timestamp {
    pub unix_secs: i64,
    pub nanos: u32,
    pub offset_secs: i32,
}

impl Timestamp {
    /// Inside the calendar's range, with a nanosecond part below one second.
    pub open spec fn wf(self) -> bool {
        &&& MIN_UNIX_SECS <= self.unix_secs <= MAX_UNIX_SECS
        &&& self.nanos < NANOS_PER_SEC
    }

    /// The instant in nanoseconds since the Unix epoch.
    pub open spec fn instant(self) -> int {
        self.unix_secs * NANOS_PER_SEC + self.nanos
    }
}

} // verus!
