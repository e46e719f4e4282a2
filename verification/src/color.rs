//! Time of day and accent presets of the adaptive theme.

use vstd::prelude::*;

verus! {

/// Time of day for adaptive theming.
#[derive(Clone, Copy, Debug, PartialEq, Eq, Structural)]
pub enum TimeOfDay {
    /// 5 to 7 in the morning.
    Dawn,
    /// 7 to noon.
    Morning,
    /// Noon to 5 in the afternoon.
    Day,
    /// 5 to 8 in the evening.
    Evening,
    /// 8 to 10 in the evening.
    Dusk,
    /// 10 in the evening to 5 in the morning.
    Night,
}

/// User accent colour presets.
#[derive(Clone, Copy, Debug, PartialEq, Eq, Structural)]
pub enum AccentPreset {
    Blue,
    Purple,
    Pink,
    Red,
    Orange,
    Yellow,
    Green,
    Teal,
    Cyan,
}

impl TimeOfDay {
    /// The part of the day that an hour falls into. Hours past 23 count as
    /// night.
    pub open spec fn from_hour_spec(hour: u32) -> TimeOfDay {
        if 5 <= hour <= 6 {
            TimeOfDay::Dawn
        } else if 7 <= hour <= 11 {
            TimeOfDay::Morning
        } else if 12 <= hour <= 16 {
            TimeOfDay::Day
        } else if 17 <= hour <= 19 {
            TimeOfDay::Evening
        } else if 20 <= hour <= 21 {
            TimeOfDay::Dusk
        } else {
            TimeOfDay::Night
        }
    }

    pub fn from_hour(hour: u32) -> (t: TimeOfDay)
        ensures
            t == TimeOfDay::from_hour_spec(hour),
    {
        if hour < 5 {
            TimeOfDay::Night
        } else if hour <= 6 {
            TimeOfDay::Dawn
        } else if hour <= 11 {
            TimeOfDay::Morning
        } else if hour <= 16 {
            TimeOfDay::Day
        } else if hour <= 19 {
            TimeOfDay::Evening
        } else if hour <= 21 {
            TimeOfDay::Dusk
        } else {
            TimeOfDay::Night
        }
    }
}

/// The parts of the day follow each other without a gap: every hour of the
/// clock has one, and the part changes only at 5, 7, 12, 17, 20 and 22.
pub proof fn lemma_day_parts(hour: u32)
    requires
        hour < 23,
    ensures
        TimeOfDay::from_hour_spec(hour) != TimeOfDay::from_hour_spec((hour + 1) as u32) <==> (hour
            + 1 == 5 || hour + 1 == 7 || hour + 1 == 12 || hour + 1 == 17 || hour + 1 == 20
            || hour + 1 == 22),
{
}

} // verus!
