use nebula::bytes::{read_le16, read_le32, read_le32_signed, read_le64};
use nebula::input::{
    bytes_available, evdev_path, ReadOutcome, decode_keyboard, FALLBACK_CONSOLE,
    MAX_EVDEV_NODES, PRIMARY_CONSOLE, decode_record, scale_axis, InputEvent, InputReader, RawInputEvent,
    TerminalModes, ABS_X, ABS_Y, BTN_LEFT, EV_ABS, EV_KEY,
};

fn record(type_: u16, code: u16, value: i32) -> [u8; 24] {
    let mut r = [0u8; 24];
    r[0..8].copy_from_slice(&1_700_000_000u64.to_le_bytes());
    r[8..16].copy_from_slice(&123_456u64.to_le_bytes());
    r[16..18].copy_from_slice(&type_.to_le_bytes());
    r[18..20].copy_from_slice(&code.to_le_bytes());
    r[20..24].copy_from_slice(&value.to_le_bytes());
    r
}

fn stream(records: &[[u8; 24]]) -> Vec<u8> {
    records.iter().flat_map(|r| r.iter().copied()).collect()
}

#[test]
fn escape_sequences_decode_to_keys() {
    assert_eq!(decode_keyboard(&[0x1B, 0x5B, 0x41]), InputEvent::Up);
    assert_eq!(decode_keyboard(&[0x1B]), InputEvent::Escape);
    assert_eq!(decode_keyboard(&[0x1B, 0x5B, 0x35, 0x7E]), InputEvent::PageUp);
}

#[test]
fn arrows_and_pages() {
    assert_eq!(decode_keyboard(b"\x1b[B"), InputEvent::Down);
    assert_eq!(decode_keyboard(b"\x1b[C"), InputEvent::Right);
    assert_eq!(decode_keyboard(b"\x1b[D"), InputEvent::Left);
    assert_eq!(decode_keyboard(b"\x1b[6~"), InputEvent::PageDown);
    // Bytes behind a complete sequence do not matter.
    assert_eq!(decode_keyboard(b"\x1b[A\x1b[B"), InputEvent::Up);
    assert_eq!(decode_keyboard(b"\x1b[5~xyz"), InputEvent::PageUp);
}

#[test]
fn single_bytes_decode_to_controls_and_characters() {
    assert_eq!(decode_keyboard(&[0x0D]), InputEvent::Enter);
    assert_eq!(decode_keyboard(&[0x0A]), InputEvent::Enter);
    assert_eq!(decode_keyboard(&[0x7F]), InputEvent::Backspace);
    assert_eq!(decode_keyboard(&[0x08]), InputEvent::Backspace);
    assert_eq!(decode_keyboard(&[0x09]), InputEvent::Tab);
    assert_eq!(decode_keyboard(b"a"), InputEvent::Char('a'));
    assert_eq!(decode_keyboard(b" "), InputEvent::Char(' '));
    assert_eq!(decode_keyboard(b"~"), InputEvent::Char('~'));
}

#[test]
fn anything_else_is_no_event() {
    assert_eq!(decode_keyboard(&[]), InputEvent::NoEvent);
    assert_eq!(decode_keyboard(&[0x00]), InputEvent::NoEvent);
    assert_eq!(decode_keyboard(&[0x1F]), InputEvent::NoEvent);
    assert_eq!(decode_keyboard(&[0x80]), InputEvent::NoEvent);
    assert_eq!(decode_keyboard(&[0xFF]), InputEvent::NoEvent);
    assert_eq!(decode_keyboard(b"ab"), InputEvent::NoEvent);
    assert_eq!(decode_keyboard(&[0x1B, 0x5B]), InputEvent::NoEvent);
    assert_eq!(decode_keyboard(b"\x1b[5"), InputEvent::NoEvent);
    assert_eq!(decode_keyboard(b"\x1b[5A"), InputEvent::NoEvent);
    assert_eq!(decode_keyboard(b"\x1b[Z"), InputEvent::NoEvent);
    assert_eq!(decode_keyboard(b"\x1bOA"), InputEvent::NoEvent);
    assert_eq!(decode_keyboard(b"abc"), InputEvent::NoEvent);
}

#[test]
fn absolute_axis_scales_to_the_screen() {
    assert_eq!(scale_axis(16384, 1920), 960);
    assert_eq!(scale_axis(0, 1920), 0);
    assert_eq!(scale_axis(32767, 1920), 1919);
    assert_eq!(scale_axis(16384, 1080), 540);
    assert_eq!(scale_axis(32767, 1080), 1079);
    assert_eq!(scale_axis(1, 1920), 0);
    assert_eq!(scale_axis(18, 1920), 1);
}

#[test]
fn axis_values_out_of_range_are_clamped() {
    assert_eq!(scale_axis(-1, 1920), 0);
    assert_eq!(scale_axis(i32::MIN, 1920), 0);
    assert_eq!(scale_axis(32768, 1920), 1919);
    assert_eq!(scale_axis(i32::MAX, 1920), 1919);
    assert_eq!(scale_axis(i32::MAX, i32::MAX as u32), i32::MAX - 1);
    assert_eq!(scale_axis(12345, 1), 0);
}

#[test]
fn records_decode_field_by_field() {
    let bytes = record(EV_ABS, ABS_Y, -5);
    assert_eq!(
        decode_record(&bytes, 0),
        RawInputEvent {
            tv_sec: 1_700_000_000,
            tv_usec: 123_456,
            type_: 3,
            code: 1,
            value: -5,
        }
    );
    let two = stream(&[record(1, 2, 3), record(0xFFFF, 0x0110, i32::MIN)]);
    let second = decode_record(&two, 24);
    assert_eq!((second.type_, second.code, second.value), (0xFFFF, 0x110, i32::MIN));
    let max = decode_record(&[0xFF; 24], 0);
    assert_eq!(max.tv_sec, u64::MAX);
    assert_eq!(max.value, -1);
    let top = decode_record(&record(0, 0, i32::MAX), 0);
    assert_eq!(top.value, i32::MAX);
}

#[test]
fn reader_starts_in_the_middle_of_the_screen() {
    let r = InputReader::new();
    assert_eq!((r.mouse_x, r.mouse_y, r.mouse_buttons), (960, 540, 0));
    assert_eq!((r.screen_width, r.screen_height), (1920, 1080));
    let r = InputReader::new_with_screen(800, 601);
    assert_eq!((r.mouse_x, r.mouse_y, r.mouse_buttons), (400, 300, 0));
    let r = InputReader::new_with_screen(u32::MAX, 1);
    assert_eq!((r.mouse_x, r.mouse_y), (i32::MAX, 0));
}

#[test]
fn empty_poll_reports_nothing() {
    let mut r = InputReader::new();
    assert_eq!(r.poll_evdev(&[]), None);
    assert_eq!(r.poll_evdev(&[0u8; 23]), None);
    assert_eq!(r, InputReader::new());
}

#[test]
fn motion_reports_the_final_position() {
    let mut r = InputReader::new();
    let s = stream(&[record(EV_ABS, ABS_X, 16384), record(EV_ABS, ABS_Y, 32767), record(EV_ABS, ABS_X, 0)]);
    assert_eq!(r.poll_evdev(&s), Some(InputEvent::MouseMove { x: 0, y: 1079 }));
    assert_eq!((r.mouse_x, r.mouse_y), (0, 1079));
}

#[test]
fn click_takes_priority_over_motion() {
    let mut r = InputReader::new();
    let s = stream(&[
        record(EV_ABS, ABS_X, 16384),
        record(EV_KEY, BTN_LEFT, 1),
        record(EV_ABS, ABS_Y, 0),
    ]);
    // The click carries the place where the pointer was when the button went down.
    assert_eq!(r.poll_evdev(&s), Some(InputEvent::Mouse { x: 960, y: 540, button: 1 }));
    assert_eq!((r.mouse_x, r.mouse_y, r.mouse_buttons), (960, 0, 1));
}

#[test]
fn last_click_of_a_cycle_is_reported() {
    let mut r = InputReader::new_with_screen(100, 100);
    let s = stream(&[
        record(EV_KEY, BTN_LEFT, 1),
        record(EV_KEY, BTN_LEFT, 0),
        record(EV_ABS, ABS_X, 32767),
        record(EV_ABS, ABS_Y, 32767),
        record(EV_KEY, BTN_LEFT, 1),
        record(EV_ABS, ABS_X, 0),
    ]);
    assert_eq!(r.poll_evdev(&s), Some(InputEvent::Mouse { x: 99, y: 99, button: 1 }));
    assert_eq!((r.mouse_x, r.mouse_y, r.mouse_buttons), (0, 99, 1));
}

#[test]
fn release_clears_the_latch_and_reports_nothing() {
    let mut r = InputReader::new();
    assert!(r.poll_evdev(&record(EV_KEY, BTN_LEFT, 1)).is_some());
    assert_eq!(r.mouse_buttons, 1);
    assert_eq!(r.poll_evdev(&record(EV_KEY, BTN_LEFT, 0)), None);
    assert_eq!(r.mouse_buttons, 0);
    // Auto-repeat and other buttons change nothing.
    assert_eq!(r.poll_evdev(&record(EV_KEY, BTN_LEFT, 2)), None);
    assert_eq!(r.poll_evdev(&record(EV_KEY, 0x111, 1)), None);
    assert_eq!(r.mouse_buttons, 0);
}

#[test]
fn other_buttons_bits_survive_the_left_button() {
    let mut r = InputReader::new();
    r.mouse_buttons = 0b110;
    r.poll_evdev(&record(EV_KEY, BTN_LEFT, 1));
    assert_eq!(r.mouse_buttons, 0b111);
    r.poll_evdev(&record(EV_KEY, BTN_LEFT, 0));
    assert_eq!(r.mouse_buttons, 0b110);
}

#[test]
fn unknown_records_are_ignored() {
    let mut r = InputReader::new();
    let s = stream(&[record(0, 0, 0), record(2, 0, 5), record(EV_ABS, 2, 100), record(4, 4, 9)]);
    assert_eq!(r.poll_evdev(&s), None);
    assert_eq!(r, InputReader::new());
}

#[test]
fn trailing_partial_record_is_dropped() {
    let mut r = InputReader::new();
    let mut s = stream(&[record(EV_ABS, ABS_X, 0)]);
    s.extend_from_slice(&record(EV_KEY, BTN_LEFT, 1)[..23]);
    assert_eq!(r.poll_evdev(&s), Some(InputEvent::MouseMove { x: 0, y: 540 }));
    assert_eq!(r.mouse_buttons, 0);
}

#[test]
fn apply_record_is_one_step_of_a_poll() {
    let mut a = InputReader::new();
    let mut b = InputReader::new();
    let recs = [record(EV_ABS, ABS_X, 20000), record(EV_KEY, BTN_LEFT, 1), record(EV_ABS, ABS_Y, 7)];
    for r in recs.iter() {
        a.apply_record(decode_record(r, 0));
    }
    b.poll_evdev(&stream(&recs));
    assert_eq!(a, b);
    assert_eq!(a.mouse_x, 1171);
}

#[test]
fn poll_checks_the_pointer_before_the_keyboard() {
    let mut r = InputReader::new();
    let click = stream(&[record(EV_KEY, BTN_LEFT, 1)]);
    assert_eq!(r.poll(&click, b"a"), InputEvent::Mouse { x: 960, y: 540, button: 1 });
    assert_eq!(r.poll(&[], b"a"), InputEvent::Char('a'));
    assert_eq!(r.poll(&[], b"\x1b[A"), InputEvent::Up);
    assert_eq!(r.poll(&[], &[]), InputEvent::NoEvent);
    let release = stream(&[record(EV_KEY, BTN_LEFT, 0)]);
    assert_eq!(r.poll(&release, &[0x0D]), InputEvent::Enter);
    assert_eq!(r.mouse_buttons, 0);
}

#[test]
fn raw_mode_turns_everything_off() {
    let m = TerminalModes::raw();
    assert!(!m.echo && !m.canonical && !m.signals && !m.extended_input);
    assert!(!m.flow_control && !m.cr_to_nl && !m.break_interrupt);
    assert!(!m.parity_check && !m.strip_high_bit && !m.post_process);
    assert_eq!((m.min_read, m.read_timeout), (0, 0));
}

#[test]
fn failed_reads_count_as_no_data() {
    assert_eq!(bytes_available(ReadOutcome::Bytes(0), 8), 0);
    assert_eq!(bytes_available(ReadOutcome::Bytes(3), 8), 3);
    assert_eq!(bytes_available(ReadOutcome::Bytes(8), 8), 8);
    assert_eq!(bytes_available(ReadOutcome::Bytes(9), 8), 8);
    assert_eq!(bytes_available(ReadOutcome::WouldBlock, 8), 0);
    assert_eq!(bytes_available(ReadOutcome::TimedOut, 8), 0);
    assert_eq!(bytes_available(ReadOutcome::Failed, 8), 0);
    assert_eq!(decode_keyboard(&[1, 2, 3][..bytes_available(ReadOutcome::WouldBlock, 3)]), InputEvent::NoEvent);
}

#[test]
fn little_endian_reads() {
    let b = [0x01, 0x02, 0x03, 0x04, 0x05, 0x06, 0x07, 0x08, 0xFF];
    assert_eq!(read_le16(&b, 0), 0x0201);
    assert_eq!(read_le16(&b, 7), 0xFF08);
    assert_eq!(read_le32(&b, 1), 0x0504_0302);
    assert_eq!(read_le64(&b, 0), 0x0807_0605_0403_0201);
    assert_eq!(read_le64(&b, 1), 0xFF08_0706_0504_0302);
    assert_eq!(read_le32_signed(&b, 5), i32::from_le_bytes([0x06, 0x07, 0x08, 0xFF]));
    assert_eq!(read_le32_signed(&[0, 0, 0, 0x80], 0), i32::MIN);
    assert_eq!(read_le32_signed(&[0xFF, 0xFF, 0xFF, 0x7F], 0), i32::MAX);
}

#[test]
fn evdev_nodes_are_numbered() {
    assert_eq!(evdev_path(0), "/dev/input/event0");
    assert_eq!(evdev_path(9), "/dev/input/event9");
    assert_eq!(evdev_path(15), "/dev/input/event15");
    assert_eq!(evdev_path(MAX_EVDEV_NODES), "/dev/input/event16");
    assert_eq!(PRIMARY_CONSOLE, "/dev/tty0");
    assert_eq!(FALLBACK_CONSOLE, "/dev/console");
}
