//! Raw input: what a run of console bytes means, what an evdev record does
//! to the pointer, and which event a poll reports.
//!
//! The program around the library owns the descriptors. It hands in the bytes
//! it read and gets events back.

use vstd::prelude::*;
use vstd::string::*;
use crate::widgets::{decimal, push_decimal};
use crate::bytes::{le16, le32_signed, le64, read_le16, read_le32_signed, read_le64};

verus! {

/// Event class of a key or button transition.
pub const EV_KEY: u16 = 0x01;

/// Event class of an absolute axis update.
pub const EV_ABS: u16 = 0x03;

/// Axis code of the horizontal position.
pub const ABS_X: u16 = 0x00;

/// Axis code of the vertical position.
pub const ABS_Y: u16 = 0x01;

/// Key code of the left button.
pub const BTN_LEFT: u16 = 0x110;

/// Size of one evdev record in bytes.
pub const RECORD_LEN: usize = 24;

/// One past the largest value of an absolute axis.
pub const AXIS_RANGE: i64 = 32768;

/// How many numbered evdev nodes are tried.
pub const MAX_EVDEV_NODES: usize = 16;

/// Largest run of console bytes taken in one read.
pub const KEY_RUN_LEN: usize = 8;

/// Input events from keyboard and pointer.
#[derive(Clone, Copy, Debug, PartialEq, Eq, Structural)]
pub enum InputEvent {
    Char(char),
    Backspace,
    Enter,
    Escape,
    Tab,
    Up,
    Down,
    Left,
    Right,
    PageUp,
    PageDown,
    Mouse { x: i32, y: i32, button: u8 },
    MouseMove { x: i32, y: i32 },
    NoEvent,
}

/// One record of the evdev stream.
#[derive(Clone, Copy, Debug, PartialEq, Eq, Structural)]
pub struct RawInputEvent {
    pub tv_sec: u64,
    pub tv_usec: u64,
    pub type_: u16,
    pub code: u16,
    pub value: i32,
}

/// The console modes that raw mode is about. Everything else in the
/// terminal's attributes is left as it was found.
#[derive(Clone, Copy, Debug, PartialEq, Eq, Structural)]
pub struct TerminalModes {
    pub echo: bool,
    pub canonical: bool,
    pub signals: bool,
    pub extended_input: bool,
    pub flow_control: bool,
    pub cr_to_nl: bool,
    pub break_interrupt: bool,
    pub parity_check: bool,
    pub strip_high_bit: bool,
    pub post_process: bool,
    /// Fewest bytes a read waits for.
    pub min_read: u8,
    /// Longest a read waits, in tenths of a second.
    pub read_timeout: u8,
}

impl TerminalModes {
    /// Raw mode: no echo, no line editing, no signals, input and output
    /// bytes passed through as they are, and reads that return at once with
    /// whatever is there.
    pub open spec fn is_raw(self) -> bool {
        &&& !self.echo
        &&& !self.canonical
        &&& !self.signals
        &&& !self.extended_input
        &&& !self.flow_control
        &&& !self.cr_to_nl
        &&& !self.break_interrupt
        &&& !self.parity_check
        &&& !self.strip_high_bit
        &&& !self.post_process
        &&& self.min_read == 0
        &&& self.read_timeout == 0
    }

    /// The modes to apply for raw, non-blocking single reads.
    pub fn raw() -> (m: TerminalModes)
        ensures
            m.is_raw(),
    {
        TerminalModes {
            echo: false,
            canonical: false,
            signals: false,
            extended_input: false,
            flow_control: false,
            cr_to_nl: false,
            break_interrupt: false,
            parity_check: false,
            strip_high_bit: false,
            post_process: false,
            min_read: 0,
            read_timeout: 0,
        }
    }
}

/// The console that is tried first.
pub const PRIMARY_CONSOLE: &'static str = "/dev/tty0";

/// The console that is tried where the first cannot be opened.
pub const FALLBACK_CONSOLE: &'static str = "/dev/console";

/// The path of evdev node number `index`.
pub open spec fn evdev_path_spec(index: usize) -> Seq<char> {
    "/dev/input/event"@ + decimal(index as nat)
}

/// The path of one of the numbered evdev nodes.
pub fn evdev_path(index: usize) -> (path: String)
    ensures
        path@ == evdev_path_spec(index),
{
    let mut path = String::from_str("/dev/input/event");
    push_decimal(&mut path, index as u64);
    path
}

/// How a single non-blocking read ended.
#[derive(Clone, Copy, Debug, PartialEq, Eq, Structural)]
pub enum ReadOutcome {
    /// The read returned this many bytes; zero means nothing was waiting.
    Bytes(usize),
    /// The read would have blocked.
    WouldBlock,
    /// The read timed out.
    TimedOut,
    /// The read failed in some other way.
    Failed,
}

/// How many bytes of a buffer of `capacity` bytes a read has filled. A read
/// that would block, timed out or failed is the same as one that found
/// nothing: it never surfaces as an error.
pub fn bytes_available(outcome: ReadOutcome, capacity: usize) -> (n: usize)
    ensures
        n == (match outcome {
            ReadOutcome::Bytes(k) => if k <= capacity {
                k
            } else {
                capacity
            },
            _ => 0,
        }),
        n <= capacity,
{
    match outcome {
        ReadOutcome::Bytes(k) => if k <= capacity {
            k
        } else {
            capacity
        },
        _ => 0,
    }
}

/// What a run of console bytes decodes to.
///
/// One byte is a control character, printable ASCII, or nothing. Three or
/// more bytes that start with escape and `[` are an arrow key, or with a
/// digit and `~` behind them a page key. Anything else is no event.
pub open spec fn key_event_spec(s: Seq<u8>) -> InputEvent {
    if s.len() == 1 {
        let b = s[0];
        if b == 0x1b {
            InputEvent::Escape
        } else if b == 0x0d || b == 0x0a {
            InputEvent::Enter
        } else if b == 0x7f || b == 0x08 {
            InputEvent::Backspace
        } else if b == 0x09 {
            InputEvent::Tab
        } else if 0x20 <= b < 0x7f {
            InputEvent::Char(b as char)
        } else {
            InputEvent::NoEvent
        }
    } else if s.len() >= 3 && s[0] == 0x1b && s[1] == 0x5b {
        let b = s[2];
        if b == 0x41 {
            InputEvent::Up
        } else if b == 0x42 {
            InputEvent::Down
        } else if b == 0x43 {
            InputEvent::Right
        } else if b == 0x44 {
            InputEvent::Left
        } else if b == 0x35 && s.len() >= 4 && s[3] == 0x7e {
            InputEvent::PageUp
        } else if b == 0x36 && s.len() >= 4 && s[3] == 0x7e {
            InputEvent::PageDown
        } else {
            InputEvent::NoEvent
        }
    } else {
        InputEvent::NoEvent
    }
}

/// Decodes the bytes of one console read. An empty read is no event.
pub fn decode_keyboard(run: &[u8]) -> (ev: InputEvent)
    ensures
        ev == key_event_spec(run@),
{
    let n: usize = run.len();
    if n == 1 {
        let b: u8 = run[0];
        if b == 0x1b {
            InputEvent::Escape
        } else if b == 0x0d || b == 0x0a {
            InputEvent::Enter
        } else if b == 0x7f || b == 0x08 {
            InputEvent::Backspace
        } else if b == 0x09 {
            InputEvent::Tab
        } else if b >= 0x20 && b < 0x7f {
            InputEvent::Char(b as char)
        } else {
            InputEvent::NoEvent
        }
    } else if n >= 3 && run[0] == 0x1b && run[1] == 0x5b {
        let b: u8 = run[2];
        if b == 0x41 {
            InputEvent::Up
        } else if b == 0x42 {
            InputEvent::Down
        } else if b == 0x43 {
            InputEvent::Right
        } else if b == 0x44 {
            InputEvent::Left
        } else if b == 0x35 && n >= 4 && run[3] == 0x7e {
            InputEvent::PageUp
        } else if b == 0x36 && n >= 4 && run[3] == 0x7e {
            InputEvent::PageDown
        } else {
            InputEvent::NoEvent
        }
    } else {
        InputEvent::NoEvent
    }
}

/// The record that the 24 bytes at `at` hold: two 64-bit time fields, the
/// event class, the code and the signed value, all little-endian.
pub open spec fn record_at(s: Seq<u8>, at: int) -> RawInputEvent {
    RawInputEvent {
        tv_sec: le64(s, at) as u64,
        tv_usec: le64(s, at + 8) as u64,
        type_: le16(s, at + 16) as u16,
        code: le16(s, at + 18) as u16,
        value: le32_signed(s, at + 20) as i32,
    }
}

/// The complete records of a byte stream, in order. Bytes behind the last
/// complete record are dropped.
pub open spec fn records_of(s: Seq<u8>) -> Seq<RawInputEvent> {
    Seq::new((s.len() / 24) as nat, |k: int| record_at(s, 24 * k))
}

/// Decodes the record at `at`.
pub fn decode_record(data: &[u8], at: usize) -> (ev: RawInputEvent)
    requires
        at + 24 <= data@.len(),
    ensures
        ev == record_at(data@, at as int),
{
    let len: usize = data.len();
    assert(at + 24 <= len);
    RawInputEvent {
        tv_sec: read_le64(data, at),
        tv_usec: read_le64(data, at + 8),
        type_: read_le16(data, at + 16),
        code: read_le16(data, at + 18),
        value: read_le32_signed(data, at + 20),
    }
}

/// An absolute axis value scaled from the device's range of 0 to 32767 into
/// `0..=dim - 1`, and clamped there.
pub open spec fn scale_axis_spec(value: int, dim: int) -> int {
    if value <= 0 {
        0
    } else if value * dim / 32768 > dim - 1 {
        dim - 1
    } else {
        value * dim / 32768
    }
}

/// Scales an absolute axis value to a screen dimension.
pub fn scale_axis(value: i32, dim: u32) -> (pos: i32)
    requires
        1 <= dim <= i32::MAX,
    ensures
        pos == scale_axis_spec(value as int, dim as int),
        0 <= pos <= dim - 1,
        0 <= value < 32768 ==> pos == value * dim / 32768,
        value >= 32768 ==> pos == dim - 1,
{
    assert(0 <= value < 32768 ==> value * dim / 32768 <= dim - 1) by (nonlinear_arith)
        requires
            dim >= 1,
    ;
    assert(value >= 32768 ==> value * dim / 32768 > dim - 1) by (nonlinear_arith)
        requires
            dim >= 1,
    ;
    if value <= 0 {
        return 0;
    }
    assert(0 <= value * dim <= 0x7FFF_FFFF * 0x7FFF_FFFF) by (nonlinear_arith)
        requires
            0 < value <= 0x7FFF_FFFF,
            1 <= dim <= 0x7FFF_FFFF,
    ;
    let scaled: i64 = (value as i64) * (dim as i64) / AXIS_RANGE;
    let top: i64 = dim as i64 - 1;
    if scaled > top {
        top as i32
    } else {
        scaled as i32
    }
}

/// The pointer as the evdev records have left it, and the screen it is
/// scaled to.
#[derive(Clone, Copy, Debug, PartialEq, Eq, Structural)]
pub struct InputReader {
    pub mouse_x: i32,
    pub mouse_y: i32,
    pub mouse_buttons: u8,
    pub screen_width: u32,
    pub screen_height: u32,
}

/// The record moves the pointer along an axis.
pub open spec fn is_motion(ev: RawInputEvent) -> bool {
    ev.type_ == EV_ABS && (ev.code == ABS_X || ev.code == ABS_Y)
}

/// The record is a press of the left button.
pub open spec fn is_press(ev: RawInputEvent) -> bool {
    ev.type_ == EV_KEY && ev.code == BTN_LEFT && ev.value == 1
}

/// The record is a release of the left button.
pub open spec fn is_release(ev: RawInputEvent) -> bool {
    ev.type_ == EV_KEY && ev.code == BTN_LEFT && ev.value == 0
}

/// Some record of the run moves the pointer.
pub open spec fn saw_motion(evs: Seq<RawInputEvent>) -> bool {
    exists|i: int| 0 <= i < evs.len() && is_motion(#[trigger] evs[i])
}

impl InputReader {
    /// Both screen dimensions are at least 1 and fit a signed coordinate.
    pub open spec fn wf(self) -> bool {
        &&& 1 <= self.screen_width <= i32::MAX
        &&& 1 <= self.screen_height <= i32::MAX
    }

    /// The pointer lies on the screen.
    pub open spec fn on_screen(self) -> bool {
        &&& 0 <= self.mouse_x < self.screen_width
        &&& 0 <= self.mouse_y < self.screen_height
    }

    /// The state after one record. An axis update moves the pointer, a press
    /// of the left button latches its bit, a release clears it, and any
    /// other record changes nothing.
    pub open spec fn after_record(self, ev: RawInputEvent) -> InputReader {
        if ev.type_ == EV_ABS && ev.code == ABS_X {
            InputReader {
                mouse_x: scale_axis_spec(ev.value as int, self.screen_width as int) as i32,
                ..self
            }
        } else if ev.type_ == EV_ABS && ev.code == ABS_Y {
            InputReader {
                mouse_y: scale_axis_spec(ev.value as int, self.screen_height as int) as i32,
                ..self
            }
        } else if is_press(ev) {
            InputReader { mouse_buttons: self.mouse_buttons | 1, ..self }
        } else if is_release(ev) {
            InputReader { mouse_buttons: self.mouse_buttons & !1u8, ..self }
        } else {
            self
        }
    }

    /// The state after a run of records, taken in order.
    pub open spec fn after_records(self, evs: Seq<RawInputEvent>) -> InputReader
        decreases evs.len(),
    {
        if evs.len() == 0 {
            self
        } else {
            self.after_records(evs.drop_last()).after_record(evs.last())
        }
    }

    /// The click that a run of records leaves latched: that of its last
    /// press of the left button, at the place where the pointer was then.
    pub open spec fn last_click(self, evs: Seq<RawInputEvent>) -> Option<InputEvent>
        decreases evs.len(),
    {
        if evs.len() == 0 {
            None
        } else if is_press(evs.last()) {
            let then = self.after_records(evs.drop_last());
            Some(InputEvent::Mouse { x: then.mouse_x, y: then.mouse_y, button: 1 })
        } else {
            self.last_click(evs.drop_last())
        }
    }

    /// What a poll over a run of records reports: the click if there was
    /// one, else the move to where the pointer ended up, else nothing.
    pub open spec fn poll_result(self, evs: Seq<RawInputEvent>) -> Option<InputEvent> {
        match self.last_click(evs) {
            Some(click) => Some(click),
            None => if saw_motion(evs) {
                let end = self.after_records(evs);
                Some(InputEvent::MouseMove { x: end.mouse_x, y: end.mouse_y })
            } else {
                None
            },
        }
    }

    /// The reader for a screen of 1920 by 1080.
    pub fn new() -> (r: InputReader)
        ensures
            r == (InputReader {
                mouse_x: 960,
                mouse_y: 540,
                mouse_buttons: 0,
                screen_width: 1920,
                screen_height: 1080,
            }),
            r.wf(),
            r.on_screen(),
    {
        InputReader::new_with_screen(1920, 1080)
    }

    /// The reader for a screen of the given size, with the pointer in the
    /// middle and no button down.
    pub fn new_with_screen(screen_width: u32, screen_height: u32) -> (r: InputReader)
        ensures
            r == (InputReader {
                mouse_x: (screen_width / 2) as i32,
                mouse_y: (screen_height / 2) as i32,
                mouse_buttons: 0,
                screen_width,
                screen_height,
            }),
            r.wf() <==> 1 <= screen_width <= i32::MAX && 1 <= screen_height <= i32::MAX,
            r.wf() ==> r.on_screen(),
    {
        InputReader {
            mouse_x: (screen_width / 2) as i32,
            mouse_y: (screen_height / 2) as i32,
            mouse_buttons: 0,
            screen_width,
            screen_height,
        }
    }

    /// Takes one record in.
    pub fn apply_record(&mut self, ev: RawInputEvent)
        requires
            old(self).wf(),
        ensures
            *final(self) == old(self).after_record(ev),
            final(self).wf(),
            old(self).on_screen() ==> final(self).on_screen(),
    {
        if ev.type_ == EV_ABS {
            if ev.code == ABS_X {
                self.mouse_x = scale_axis(ev.value, self.screen_width);
            } else if ev.code == ABS_Y {
                self.mouse_y = scale_axis(ev.value, self.screen_height);
            }
        } else if ev.type_ == EV_KEY {
            if ev.code == BTN_LEFT {
                if ev.value == 1 {
                    self.mouse_buttons = self.mouse_buttons | 1;
                } else if ev.value == 0 {
                    self.mouse_buttons = self.mouse_buttons & !1u8;
                }
            }
        }
    }

    /// Takes in the evdev records that one poll cycle has read, and reports
    /// what happened to the pointer.
    ///
    /// `stream` holds the records of all devices, 24 bytes each, in the
    /// order they were read. A click and a move in one cycle report the
    /// click alone.
    pub fn poll_evdev(&mut self, stream: &[u8]) -> (ev: Option<InputEvent>)
        requires
            old(self).wf(),
        ensures
            *final(self) == old(self).after_records(records_of(stream@)),
            ev == old(self).poll_result(records_of(stream@)),
            final(self).wf(),
            old(self).on_screen() ==> final(self).on_screen(),
            ev is Some ==> stream@.len() >= 24,
            ev matches Some(e) ==> e is Mouse || e is MouseMove,
    {
        let count: usize = stream.len() / RECORD_LEN;
        let ghost evs = records_of(stream@);
        let mut moved: bool = false;
        let mut click: Option<InputEvent> = None;
        let mut i: usize = 0;
        while i < count
            invariant
                count == stream@.len() / 24,
                evs == records_of(stream@),
                i <= count,
                self.wf(),
                old(self).on_screen() ==> self.on_screen(),
                *self == old(self).after_records(evs.subrange(0, i as int)),
                click == old(self).last_click(evs.subrange(0, i as int)),
                moved == saw_motion(evs.subrange(0, i as int)),
                click matches Some(e) ==> e is Mouse,
            decreases count - i,
        {
            let len: usize = stream.len();
            assert(i * 24 + 24 <= len) by (nonlinear_arith)
                requires
                    i < count,
                    count == len / 24,
            ;
            let record = decode_record(stream, i * RECORD_LEN);
            let ghost before = evs.subrange(0, i as int);
            let ghost now = evs.subrange(0, i as int + 1);
            proof {
                assert(record == evs[i as int]);
                assert(now.drop_last() =~= before);
                assert(now.last() == record);
                if is_motion(record) {
                    assert(is_motion(now[i as int]));
                } else if saw_motion(now) {
                    let j = choose|j: int| 0 <= j < now.len() && is_motion(#[trigger] now[j]);
                    assert(is_motion(before[j]));
                }
                if saw_motion(before) {
                    let j = choose|j: int| 0 <= j < before.len() && is_motion(#[trigger] before[j]);
                    assert(is_motion(now[j]));
                }
            }
            if record.type_ == EV_KEY && record.code == BTN_LEFT && record.value == 1 {
                click = Some(InputEvent::Mouse { x: self.mouse_x, y: self.mouse_y, button: 1 });
            }
            if record.type_ == EV_ABS && (record.code == ABS_X || record.code == ABS_Y) {
                moved = true;
            }
            self.apply_record(record);
            i = i + 1;
        }
        assert(evs.subrange(0, count as int) =~= evs);
        match click {
            Some(c) => Some(c),
            None => if moved {
                Some(InputEvent::MouseMove { x: self.mouse_x, y: self.mouse_y })
            } else {
                None
            },
        }
    }

    /// One poll: the pointer first, then the keyboard. `stream` is what the
    /// evdev nodes gave and `key_run` what the console gave; the key run
    /// counts only where the pointer has nothing to report.
    pub fn poll(&mut self, stream: &[u8], key_run: &[u8]) -> (ev: InputEvent)
        requires
            old(self).wf(),
        ensures
            *final(self) == old(self).after_records(records_of(stream@)),
            ev == (match old(self).poll_result(records_of(stream@)) {
                Some(e) => e,
                None => key_event_spec(key_run@),
            }),
            final(self).wf(),
    {
        match self.poll_evdev(stream) {
            Some(e) => e,
            None => decode_keyboard(key_run),
        }
    }
}

/// A click always takes priority over a move: a run with a press of the
/// left button reports a click, a run without one reports a move exactly
/// when some record moved the pointer, and the move carries the place
/// where the pointer ended up.
pub proof fn lemma_click_beats_move(r: InputReader, evs: Seq<RawInputEvent>)
    ensures
        (exists|i: int| 0 <= i < evs.len() && is_press(#[trigger] evs[i])) <==> r.last_click(
            evs,
        ) is Some,
        r.last_click(evs) is Some ==> r.poll_result(evs) == r.last_click(evs),
        r.last_click(evs) matches Some(e) ==> e is Mouse,
        r.last_click(evs) is None && saw_motion(evs) ==> r.poll_result(evs) == Some(
            InputEvent::MouseMove {
                x: r.after_records(evs).mouse_x,
                y: r.after_records(evs).mouse_y,
            },
        ),
        r.last_click(evs) is None && !saw_motion(evs) ==> r.poll_result(evs) is None,
    decreases evs.len(),
{
    if evs.len() > 0 {
        let init = evs.drop_last();
        lemma_click_beats_move(r, init);
        if is_press(evs.last()) {
            assert(is_press(evs[evs.len() - 1]));
        } else if r.last_click(init) is Some {
            let i = choose|i: int| 0 <= i < init.len() && is_press(#[trigger] init[i]);
            assert(is_press(evs[i]));
        } else if exists|i: int| 0 <= i < evs.len() && is_press(#[trigger] evs[i]) {
            let i = choose|i: int| 0 <= i < evs.len() && is_press(#[trigger] evs[i]);
            assert(i < evs.len() - 1);
            assert(is_press(init[i]));
        }
    }
}

/// The pointer never leaves the screen: whatever the records say, a pointer
/// that was on the screen is on it afterwards, and the screen stays the
/// same.
pub proof fn lemma_pointer_stays_on_screen(r: InputReader, evs: Seq<RawInputEvent>)
    requires
        r.wf(),
        r.on_screen(),
    ensures
        r.after_records(evs).wf(),
        r.after_records(evs).on_screen(),
        r.after_records(evs).screen_width == r.screen_width,
        r.after_records(evs).screen_height == r.screen_height,
    decreases evs.len(),
{
    if evs.len() > 0 {
        lemma_pointer_stays_on_screen(r, evs.drop_last());
        let before = r.after_records(evs.drop_last());
        let ev = evs.last();
        lemma_axis_in_range(ev.value as int, before.screen_width as int);
        lemma_axis_in_range(ev.value as int, before.screen_height as int);
    }
}

/// A scaled axis value lies on the screen, grows with the raw value, is 0
/// at the bottom of the device's range and `dim - 1` at its top.
pub proof fn lemma_axis_in_range(value: int, dim: int)
    requires
        dim >= 1,
    ensures
        0 <= scale_axis_spec(value, dim) <= dim - 1,
        scale_axis_spec(0, dim) == 0,
        scale_axis_spec(32767, dim) == dim - 1 || dim > 32768,
        value >= 32768 ==> scale_axis_spec(value, dim) == dim - 1,
        0 <= value < 32768 ==> scale_axis_spec(value, dim) == value * dim / 32768,
{
    assert(value > 0 ==> value * dim / 32768 >= 0) by (nonlinear_arith)
        requires
            dim >= 1,
    ;
    assert(0 <= value < 32768 ==> value * dim / 32768 <= dim - 1) by (nonlinear_arith)
        requires
            dim >= 1,
    ;
    assert(value >= 32768 ==> value * dim / 32768 > dim - 1) by (nonlinear_arith)
        requires
            dim >= 1,
    ;
    assert(dim <= 32768 ==> 32767 * dim / 32768 == dim - 1) by (nonlinear_arith)
        requires
            dim >= 1,
    ;
    assert(value == 0 ==> value * dim / 32768 == 0) by (nonlinear_arith);
}

/// Scaling keeps the order of raw values.
pub proof fn lemma_axis_monotone(low: int, high: int, dim: int)
    requires
        dim >= 1,
        low <= high,
    ensures
        scale_axis_spec(low, dim) <= scale_axis_spec(high, dim),
{
    lemma_axis_in_range(low, dim);
    lemma_axis_in_range(high, dim);
    assert(0 < low ==> low * dim / 32768 <= high * dim / 32768) by (nonlinear_arith)
        requires
            dim >= 1,
            low <= high,
    ;
}

} // verus!
