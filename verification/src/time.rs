//! The system clock: a tick counter advanced by a periodic timer, the
//! seconds count derived from it, and the date-time arithmetic that turns a
//! seconds count into a calendar time.
//!
//! There is no real-time clock behind this: time starts at a fixed default
//! date and advances one second per `TICKS_PER_SECOND` timer ticks.  The
//! caller owns the `SystemClock` value and drives it from its timer
//! interrupt.

use vstd::prelude::*;

verus! {

/// Year the clock starts in.
pub const DEFAULT_YEAR: u16 = 2024;

/// Month the clock starts in.
pub const DEFAULT_MONTH: u8 = 1;

/// Day of month the clock starts on.
pub const DEFAULT_DAY: u8 = 1;

/// Hour the clock starts at.
pub const DEFAULT_HOUR: u8 = 0;

/// Minute the clock starts at.
pub const DEFAULT_MINUTE: u8 = 0;

/// Second the clock starts at.
pub const DEFAULT_SECOND: u8 = 0;

/// Timer interrupts per counted second.
pub const TICKS_PER_SECOND: u32 = 100;

/// A calendar date and time of day.
#[derive(Debug, Clone, Copy, PartialEq, Eq, Structural)]
pub struct Time {
    pub year: u16,
    pub month: u8,
    pub day: u8,
    pub hour: u8,
    pub minute: u8,
    pub second: u8,
}

/// The twenty bytes of `Time::to_string`: `YYYY-MM-DD HH:MM:SS` and a
/// trailing NUL, each digit taken by place value.
pub open spec fn spec_time_bytes(t: Time) -> Seq<u8> {
    seq![
        (48 + (t.year / 1000) % 10) as u8,
        (48 + (t.year / 100) % 10) as u8,
        (48 + (t.year / 10) % 10) as u8,
        (48 + t.year % 10) as u8,
        45u8,
        (48 + t.month / 10) as u8,
        (48 + t.month % 10) as u8,
        45u8,
        (48 + t.day / 10) as u8,
        (48 + t.day % 10) as u8,
        32u8,
        (48 + t.hour / 10) as u8,
        (48 + t.hour % 10) as u8,
        58u8,
        (48 + t.minute / 10) as u8,
        (48 + t.minute % 10) as u8,
        58u8,
        (48 + t.second / 10) as u8,
        (48 + t.second % 10) as u8,
        0u8,
    ]
}

impl Time {
    /// Builds a time from its fields.
    pub fn new(year: u16, month: u8, day: u8, hour: u8, minute: u8, second: u8) -> (r: Time)
        ensures
            r == (Time { year, month, day, hour, minute, second }),
    {
        Time { year, month, day, hour, minute, second }
    }

    /// Formats the time as `YYYY-MM-DD HH:MM:SS` with a trailing NUL,
    /// twenty bytes in all.
    pub fn to_string(&self) -> (r: [u8; 20])
        ensures
            r@ == spec_time_bytes(*self),
    {
        let mut buffer: [u8; 20] = [0u8; 20];
        buffer[0] = 48 + ((self.year / 1000) % 10) as u8;
        buffer[1] = 48 + ((self.year / 100) % 10) as u8;
        buffer[2] = 48 + ((self.year / 10) % 10) as u8;
        buffer[3] = 48 + (self.year % 10) as u8;
        buffer[4] = 45;
        buffer[5] = 48 + self.month / 10;
        buffer[6] = 48 + self.month % 10;
        buffer[7] = 45;
        buffer[8] = 48 + self.day / 10;
        buffer[9] = 48 + self.day % 10;
        buffer[10] = 32;
        buffer[11] = 48 + self.hour / 10;
        buffer[12] = 48 + self.hour % 10;
        buffer[13] = 58;
        buffer[14] = 48 + self.minute / 10;
        buffer[15] = 48 + self.minute % 10;
        buffer[16] = 58;
        buffer[17] = 48 + self.second / 10;
        buffer[18] = 48 + self.second % 10;
        buffer[19] = 0;
        proof {
            assert(buffer@ =~= spec_time_bytes(*self));
        }
        buffer
    }
}

/// The calendar time a seconds count stands for.  The seconds count is
/// truncated to 32 bits and the minutes total to 8 bits (both inherited
/// from the fixed-width arithmetic of the computation), and the date part
/// never leaves the default day.
pub open spec fn spec_calculate_datetime(seconds: u64) -> Time {
    let ts = seconds as u32;
    let m0 = (ts / 60) as u8;
    Time {
        year: DEFAULT_YEAR,
        month: DEFAULT_MONTH,
        day: DEFAULT_DAY,
        hour: (m0 / 60) as u8,
        minute: (m0 % 60) as u8,
        second: (ts % 60) as u8,
    }
}

/// Turns a seconds count into a calendar time, by the simplified arithmetic
/// of `spec_calculate_datetime`.
fn calculate_datetime(seconds: u64) -> (r: Time)
    ensures
        r == spec_calculate_datetime(seconds),
{
    let total_seconds: u32 = (#[verifier::truncate] (seconds as u32));
    let minute_total: u8 = (#[verifier::truncate] ((total_seconds / 60) as u8));
    let second: u8 = (total_seconds % 60) as u8;
    let hour: u8 = minute_total / 60;
    let minute: u8 = minute_total % 60;

    Time {
        year: DEFAULT_YEAR,
        month: DEFAULT_MONTH,
        day: DEFAULT_DAY,
        hour,
        minute,
        second,
    }
}

/// The free-running clock: seconds since start and the tick phase within
/// the current second.
pub struct SystemClock {
    seconds: u64,
    tick_count: u32,
}

impl SystemClock {
    /// Seconds counted since the clock was initialised.
    pub closed spec fn spec_seconds(&self) -> u64 {
        self.seconds
    }

    /// Timer ticks counted within the current second.
    pub closed spec fn spec_ticks(&self) -> u32 {
        self.tick_count
    }

    /// The clock's invariant: the tick phase never reaches a full second.
    pub open spec fn wf(&self) -> bool {
        self.spec_ticks() < TICKS_PER_SECOND
    }

    /// The seconds count, for display.
    pub fn seconds(&self) -> (r: u64)
        ensures
            r == self.spec_seconds(),
    {
        self.seconds
    }
}

/// A freshly reset clock: zero seconds, zero ticks.
pub fn time_init() -> (r: SystemClock)
    ensures
        r.wf(),
        r.spec_seconds() == 0,
        r.spec_ticks() == 0,
{
    SystemClock { seconds: 0, tick_count: 0 }
}

/// One timer interrupt: counts a tick, and on every `TICKS_PER_SECOND`th
/// tick advances the seconds count by one (wrapping at the top of `u64`).
pub fn update_system_time(clock: &mut SystemClock)
    requires
        old(clock).wf(),
    ensures
        final(clock).wf(),
        old(clock).spec_ticks() + 1 < TICKS_PER_SECOND ==> {
            &&& final(clock).spec_ticks() == old(clock).spec_ticks() + 1
            &&& final(clock).spec_seconds() == old(clock).spec_seconds()
        },
        old(clock).spec_ticks() + 1 == TICKS_PER_SECOND ==> {
            &&& final(clock).spec_ticks() == 0
            &&& final(clock).spec_seconds() == (if old(clock).spec_seconds() == u64::MAX {
                0u64
            } else {
                (old(clock).spec_seconds() + 1) as u64
            })
        },
{
    clock.tick_count = clock.tick_count + 1;
    if clock.tick_count >= TICKS_PER_SECOND {
        clock.tick_count = 0;
        if clock.seconds == u64::MAX {
            clock.seconds = 0;
        } else {
            clock.seconds = clock.seconds + 1;
        }
    }
}

/// The calendar time the clock currently stands at.
pub fn get_current_time(clock: &SystemClock) -> (r: Time)
    ensures
        r == spec_calculate_datetime(clock.spec_seconds()),
{
    calculate_datetime(clock.seconds)
}

} // verus!
