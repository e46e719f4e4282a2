//! Alerts that telemetry raises.

use vstd::prelude::*;
use crate::feed::Priority;
use crate::widgets::{decimal, push_decimal};
use vstd::string::*;
use crate::text::{
    contains_spec, contains_text, has_prefix, number_spec, parse_number, split_words, spans_of,
    words_spec,
};

verus! {

/// Kinds of telemetry alerts.
#[derive(Clone, Copy, Debug, PartialEq, Eq, Hash, Structural)]
pub enum AlertKind {
    HighCpu,
    HighMemory,
    LowMemory,
    NetworkDown,
    NetworkUp,
    ProcessSpike,
    UptimeMilestone,
}

/// An alert raised by a telemetry reading.
pub struct TelemetryAlert {
    pub kind: AlertKind,
    pub message: String,
    pub priority: Priority,
}

impl AlertKind {
    /// The headline of each kind of alert.
    pub open spec fn label_spec(self) -> Seq<char> {
        match self {
            AlertKind::HighCpu => "High CPU Usage"@,
            AlertKind::HighMemory => "Memory Spike"@,
            AlertKind::LowMemory => "Low Memory"@,
            AlertKind::NetworkDown => "Network Down"@,
            AlertKind::NetworkUp => "Network Connected"@,
            AlertKind::ProcessSpike => "Process Spike"@,
            AlertKind::UptimeMilestone => "Uptime Milestone"@,
        }
    }

    /// The priority that an alert of each kind is raised with.
    pub open spec fn priority_spec(self) -> Priority {
        match self {
            AlertKind::HighCpu => Priority::Urgent,
            AlertKind::LowMemory => Priority::Urgent,
            AlertKind::NetworkDown => Priority::Urgent,
            AlertKind::HighMemory => Priority::Normal,
            AlertKind::NetworkUp => Priority::Normal,
            AlertKind::ProcessSpike => Priority::Normal,
            AlertKind::UptimeMilestone => Priority::Low,
        }
    }

    /// Headline of the alert.
    pub fn label(&self) -> (s: &'static str)
        ensures
            s@ == self.label_spec(),
    {
        match self {
            AlertKind::HighCpu => "High CPU Usage",
            AlertKind::HighMemory => "Memory Spike",
            AlertKind::LowMemory => "Low Memory",
            AlertKind::NetworkDown => "Network Down",
            AlertKind::NetworkUp => "Network Connected",
            AlertKind::ProcessSpike => "Process Spike",
            AlertKind::UptimeMilestone => "Uptime Milestone",
        }
    }

    /// Priority of the alert.
    pub fn priority(&self) -> (p: Priority)
        ensures
            p == self.priority_spec(),
    {
        match self {
            AlertKind::HighCpu => Priority::Urgent,
            AlertKind::LowMemory => Priority::Urgent,
            AlertKind::NetworkDown => Priority::Urgent,
            AlertKind::HighMemory => Priority::Normal,
            AlertKind::NetworkUp => Priority::Normal,
            AlertKind::ProcessSpike => Priority::Normal,
            AlertKind::UptimeMilestone => Priority::Low,
        }
    }
}

impl TelemetryAlert {
    /// An alert of the given kind, with the priority that belongs to it.
    pub fn new(kind: AlertKind, message: String) -> (a: TelemetryAlert)
        ensures
            a.kind == kind,
            a.message == message,
            a.priority == kind.priority_spec(),
    {
        TelemetryAlert { kind, message, priority: kind.priority() }
    }
}

/// Whether the process count jumped: more than 20 above the reading
/// before.
pub fn process_spike(previous: u32, latest: u32) -> (spike: bool)
    ensures
        spike == (latest > previous + 20),
{
    latest > previous.saturating_add(20)
}

/// The alert that a change of the network state raises: none on the
/// first reading or while the state holds, `NetworkUp` when the network
/// comes, `NetworkDown` when it goes.
pub fn network_alert(previous_up: Option<bool>, now_up: bool) -> (alert: Option<AlertKind>)
    ensures
        alert == (match previous_up {
            Some(was_up) => if !was_up && now_up {
                Some(AlertKind::NetworkUp)
            } else if was_up && !now_up {
                Some(AlertKind::NetworkDown)
            } else {
                None
            },
            None => None,
        }),
{
    match previous_up {
        Some(was_up) => if !was_up && now_up {
            Some(AlertKind::NetworkUp)
        } else if was_up && !now_up {
            Some(AlertKind::NetworkDown)
        } else {
            None
        },
        None => None,
    }
}

/// Uptime marks that are announced once each: one hour, six hours, a day.
pub const UPTIME_HOUR: u64 = 3600;

pub const UPTIME_SIX_HOURS: u64 = 21600;

pub const UPTIME_DAY: u64 = 86400;

/// The mark is due at this uptime and has not been announced.
pub open spec fn milestone_due(mark: u64, uptime_secs: u64, reported: Seq<u64>) -> bool {
    uptime_secs >= mark && !reported.contains(mark)
}

/// One mark, where it is due.
pub open spec fn due_mark(mark: u64, uptime_secs: u64, reported: Seq<u64>) -> Seq<u64> {
    if milestone_due(mark, uptime_secs, reported) {
        seq![mark]
    } else {
        Seq::empty()
    }
}

/// The marks that are due, smallest first.
pub open spec fn due_milestones(uptime_secs: u64, reported: Seq<u64>) -> Seq<u64> {
    due_mark(UPTIME_HOUR, uptime_secs, reported) + due_mark(
        UPTIME_SIX_HOURS,
        uptime_secs,
        reported,
    ) + due_mark(UPTIME_DAY, uptime_secs, reported)
}

/// The words for an uptime mark.
pub open spec fn milestone_label_spec(mark: u64) -> Seq<char> {
    if mark == UPTIME_HOUR {
        "1 hour"@
    } else if mark == UPTIME_SIX_HOURS {
        "6 hours"@
    } else {
        "24 hours"@
    }
}

/// The words for an uptime mark.
pub fn milestone_label(mark: u64) -> (label: &'static str)
    ensures
        label@ == milestone_label_spec(mark),
{
    if mark == UPTIME_HOUR {
        "1 hour"
    } else if mark == UPTIME_SIX_HOURS {
        "6 hours"
    } else {
        "24 hours"
    }
}

fn was_reported(reported: &Vec<u64>, mark: u64) -> (yes: bool)
    ensures
        yes == reported@.contains(mark),
{
    let n: usize = reported.len();
    let mut i: usize = 0;
    while i < n
        invariant
            n == reported@.len(),
            i <= n,
            forall|k: int| 0 <= k < i ==> reported@[k] != mark,
        decreases n - i,
    {
        if reported[i] == mark {
            return true;
        }
        i = i + 1;
    }
    false
}

/// The uptime marks that fall due at `uptime_secs`. Each is taken down in
/// `reported`, so that it falls due once only.
pub fn take_milestones(uptime_secs: u64, reported: &mut Vec<u64>) -> (due: Vec<u64>)
    ensures
        due@ == due_milestones(uptime_secs, old(reported)@),
        final(reported)@ == old(reported)@ + due@,
{
    let mut due: Vec<u64> = Vec::new();
    if uptime_secs >= UPTIME_HOUR && !was_reported(reported, UPTIME_HOUR) {
        due.push(UPTIME_HOUR);
    }
    if uptime_secs >= UPTIME_SIX_HOURS && !was_reported(reported, UPTIME_SIX_HOURS) {
        due.push(UPTIME_SIX_HOURS);
    }
    if uptime_secs >= UPTIME_DAY && !was_reported(reported, UPTIME_DAY) {
        due.push(UPTIME_DAY);
    }
    assert(due@ =~= due_milestones(uptime_secs, reported@));
    let n: usize = due.len();
    let mut i: usize = 0;
    while i < n
        invariant
            n == due@.len(),
            i <= n,
            reported@ == old(reported)@ + due@.subrange(0, i as int),
        decreases n - i,
    {
        reported.push(due[i]);
        i = i + 1;
        assert(reported@ =~= old(reported)@ + due@.subrange(0, i as int));
    }
    assert(due@.subrange(0, n as int) =~= due@);
    due
}

/// The network counts as up: the address looks like a private one, or the
/// report says "up".
pub open spec fn network_up_spec(address: Seq<char>) -> bool {
    "10."@.is_prefix_of(address) || "192."@.is_prefix_of(address) || "172."@.is_prefix_of(address)
        || contains_spec(address, "up"@)
}

/// Whether the network counts as up, by the address that telemetry
/// reports.
pub fn network_up(address: &str) -> (up: bool)
    ensures
        up == network_up_spec(address@),
{
    has_prefix(address, "10.") || has_prefix(address, "192.") || has_prefix(address, "172.")
        || contains_text(address, "up")
}

/// The number of kilobytes that a line of the memory report gives: its
/// second word, read as a number, or zero where there is no second word or
/// it is no number.
pub open spec fn kilobytes_spec(line: Seq<char>) -> u64 {
    let words = words_spec(line);
    if words.len() < 2 {
        0
    } else {
        match number_spec(line.subrange(words[1].0, words[1].1)) {
            Some(n) => n,
            None => 0,
        }
    }
}

/// Reads the number of kilobytes off a line of the memory report.
pub fn parse_kb(line: &str) -> (kb: u64)
    ensures
        kb == kilobytes_spec(line@),
{
    let words = split_words(line);
    assert(spans_of(words@).len() == words@.len());
    if words.len() < 2 {
        return 0;
    }
    let second = words[1];
    assert(spans_of(words@)[1] == (second.0 as int, second.1 as int));
    match parse_number(line.substring_char(second.0, second.1)) {
        Some(n) => n,
        None => 0,
    }
}

/// Megabytes in use: total less available, and zero where more is
/// reported available than there is.
pub fn mem_used_mb(total_mb: u64, avail_mb: u64) -> (used: u64)
    ensures
        used == (if total_mb >= avail_mb {
            total_mb - avail_mb
        } else {
            0
        }),
{
    total_mb.saturating_sub(avail_mb)
}

/// An uptime in words: hours and minutes from an hour on, minutes and
/// seconds from a minute on, seconds below.
pub open spec fn uptime_spec(secs: u64) -> Seq<char> {
    if secs >= 3600 {
        decimal((secs / 3600) as nat) + "h "@ + decimal(((secs % 3600) / 60) as nat) + "m"@
    } else if secs >= 60 {
        decimal((secs / 60) as nat) + "m "@ + decimal((secs % 60) as nat) + "s"@
    } else {
        decimal(secs as nat) + "s"@
    }
}

/// Formats an uptime.
pub fn uptime_str(secs: u64) -> (s: String)
    ensures
        s@ == uptime_spec(secs),
{
    let mut out = String::new();
    if secs >= 3600 {
        push_decimal(&mut out, secs / 3600);
        out.append("h ");
        push_decimal(&mut out, (secs % 3600) / 60);
        out.append("m");
    } else if secs >= 60 {
        push_decimal(&mut out, secs / 60);
        out.append("m ");
        push_decimal(&mut out, secs % 60);
        out.append("s");
    } else {
        push_decimal(&mut out, secs);
        out.append("s");
    }
    assert(out@ =~= uptime_spec(secs));
    out
}

} // verus!
