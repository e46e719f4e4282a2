use nebula::audio::{control_pair, AudioPlayer};
use nebula::hw_params::{format_code, HardwareParameters, Interval, Mask};
use nebula::playback::{
    chunk_len, fade_volume, keep_looping, pass_end, scale_samples, ControlSnapshot, PassEnd,
    PlayStep, Playback,
};
use nebula::wav::WavInfo;

fn info(len: usize) -> WavInfo {
    WavInfo {
        channels: 2,
        sample_rate: 44100,
        bits_per_sample: 16,
        data_offset: 44,
        data_len: len,
    }
}

fn fading(ms: u32) -> Option<ControlSnapshot> {
    Some(ControlSnapshot { stop: false, fading: true, fade_duration_ms: ms })
}

fn idle() -> Option<ControlSnapshot> {
    Some(ControlSnapshot { stop: false, fading: false, fade_duration_ms: 3000 })
}

#[test]
fn chunk_is_a_tenth_of_a_second() {
    assert_eq!(chunk_len(44100, 2, 16), 17640);
    assert_eq!(chunk_len(48000, 2, 24), 28800);
    assert_eq!(chunk_len(96000, 8, 32), 307200);
}

#[test]
fn chunk_is_never_under_4096_bytes() {
    assert_eq!(chunk_len(8000, 1, 8), 4096);
    assert_eq!(chunk_len(0, 0, 0), 4096);
    assert_eq!(chunk_len(44100, 2, 7), 4096);
    assert_eq!(chunk_len(40960, 1, 8), 4096);
    assert_eq!(chunk_len(40970, 1, 8), 4097);
}

#[test]
fn fade_halfway_is_half_volume() {
    assert_eq!(fade_volume(1500, 3000), Some(500));
    assert_eq!(fade_volume(500, 1000), Some(500));
    assert_eq!(fade_volume(1, 2), Some(500));
    assert_eq!(fade_volume(1500, 3001), Some(501));
}

#[test]
fn fade_is_linear() {
    assert_eq!(fade_volume(0, 3000), Some(1000));
    assert_eq!(fade_volume(750, 3000), Some(750));
    assert_eq!(fade_volume(2999, 3000), Some(1));
    assert_eq!(fade_volume(1, 3), Some(667));
    assert_eq!(fade_volume(4_000_000_000, u32::MAX), Some(69));
}

#[test]
fn fade_ends_at_its_duration() {
    assert_eq!(fade_volume(3000, 3000), None);
    assert_eq!(fade_volume(3001, 3000), None);
    assert_eq!(fade_volume(0, 0), None);
    assert_eq!(fade_volume(u64::MAX, u32::MAX), None);
}

#[test]
fn begin_cuts_the_payload_to_the_buffer() {
    let p = Playback::begin(&info(1000), 544, 1000, None);
    assert_eq!(p.payload_start, 44);
    assert_eq!(p.payload_len, 500);
    assert_eq!(p.chunk, 17640);
    assert_eq!(p.offset, 0);
    assert_eq!(p.fade_started_ms, None);
    let p = Playback::begin(&info(100), 544, 1000, None);
    assert_eq!(p.payload_len, 100);
    let p = Playback::begin(&info(100), 44, 1000, None);
    assert_eq!(p.payload_len, 0);
}

#[test]
fn uncontrolled_session_writes_every_chunk_at_full_volume() {
    let mut p = Playback::begin(&info(40000), 44 + 40000, 1000, None);
    assert_eq!(
        p.step(None, 0),
        PlayStep::Write { start: 44, end: 44 + 17640, volume: 1000, scaled: false }
    );
    assert_eq!(
        p.step(None, 5),
        PlayStep::Write { start: 44 + 17640, end: 44 + 35280, volume: 1000, scaled: false }
    );
    assert_eq!(
        p.step(None, 9),
        PlayStep::Write { start: 44 + 35280, end: 44 + 40000, volume: 1000, scaled: false }
    );
    assert_eq!(p.step(None, 12), PlayStep::Finished);
    assert_eq!(p.step(None, 13), PlayStep::Finished);
    assert_eq!(p.offset, 40000);
}

#[test]
fn empty_payload_finishes_at_once() {
    let mut p = Playback::begin(&info(0), 44, 1000, None);
    assert_eq!(p.step(idle(), 0), PlayStep::Finished);
    assert_eq!(p.step(None, 0), PlayStep::Finished);
    assert_eq!(p.step(fading(1000), 10), PlayStep::Finished);
}

#[test]
fn controller_is_heard_even_where_nothing_is_left_to_play() {
    let mut p = Playback::begin(&info(0), 44, 1000, None);
    let stop = Some(ControlSnapshot { stop: true, fading: false, fade_duration_ms: 3000 });
    assert_eq!(p.step(stop, 0), PlayStep::Stopped);
    // A fade that is seen at the end of the payload is timed from there.
    let mut p = Playback::begin(&info(0), 44, 1000, None);
    assert_eq!(p.step(fading(1000), 500), PlayStep::Finished);
    assert_eq!(p.fade_started_ms, Some(500));
    assert_eq!(p.step(fading(1000), 1499), PlayStep::Finished);
    assert_eq!(p.volume, 1);
    assert_eq!(p.step(fading(1000), 1500), PlayStep::Stopped);
    let mut p = Playback::begin(&info(0), 44, 1000, None);
    assert_eq!(p.step(fading(0), 0), PlayStep::Stopped);
}

#[test]
fn fade_runs_on_across_the_passes_of_a_looping_track() {
    // A track of three chunks, far shorter than the fade of two seconds.
    let len = 3 * 17640;
    let mut p = Playback::begin(&info(len), 44 + len, 1000, None);
    let mut now: u64 = 0;
    let mut volumes: Vec<u32> = Vec::new();
    let mut passes = 1;
    let last = loop {
        match p.step(fading(2000), now) {
            PlayStep::Write { volume, scaled, .. } => {
                assert_eq!(scaled, volume < 1000);
                volumes.push(volume);
                now += 100;
            }
            PlayStep::Finished => {
                assert!(keep_looping(false, Some(PassEnd::Finished)));
                p = p.next_pass(&info(len), 44 + len);
                assert_eq!(p.offset, 0);
                assert_eq!(p.fade_started_ms, Some(0));
                passes += 1;
            }
            PlayStep::Stopped => break PlayStep::Stopped,
        }
    };
    assert_eq!(last, PlayStep::Stopped);
    assert_eq!(now, 2000);
    assert_eq!(passes, 7);
    let expected: Vec<u32> = (0..20).map(|k| 1000 - k * 50).collect();
    assert_eq!(volumes, expected);
    assert!(volumes.windows(2).all(|w| w[1] <= w[0]));
}

#[test]
fn next_pass_carries_volume_and_fade_start() {
    let mut p = Playback::begin(&info(100), 144, 1000, None);
    assert!(matches!(p.step(fading(1000), 40), PlayStep::Write { volume: 1000, .. }));
    assert_eq!(p.step(fading(1000), 340), PlayStep::Finished);
    assert_eq!((p.volume, p.fade_started_ms), (700, Some(40)));
    let mut q = p.next_pass(&info(5000), 44 + 5000);
    assert_eq!((q.offset, q.payload_len, q.volume, q.fade_started_ms), (0, 5000, 700, Some(40)));
    assert_eq!(
        q.step(fading(1000), 540),
        PlayStep::Write { start: 44, end: 44 + 5000, volume: 500, scaled: true }
    );
    // Without a fade the volume that was carried in stays.
    let r = Playback::begin(&info(100), 144, 420, None).next_pass(&info(100), 144);
    assert_eq!((r.volume, r.fade_started_ms), (420, None));
    // Beginning with a fade start given is the same as going on from a pass.
    assert_eq!(Playback::begin(&info(5000), 44 + 5000, 700, Some(40)), p.next_pass(&info(5000), 44 + 5000));
}

#[test]
fn stop_request_ends_before_the_next_write() {
    let mut p = Playback::begin(&info(40000), 44 + 40000, 1000, None);
    assert!(matches!(p.step(idle(), 0), PlayStep::Write { .. }));
    let stop = Some(ControlSnapshot { stop: true, fading: false, fade_duration_ms: 3000 });
    assert_eq!(p.step(stop, 10), PlayStep::Stopped);
    assert_eq!(p.offset, 17640);
}

#[test]
fn fade_is_timed_from_first_observation() {
    let mut p = Playback::begin(&info(1_000_000), 44 + 1_000_000, 1000, None);
    assert!(matches!(p.step(idle(), 100), PlayStep::Write { volume: 1000, scaled: false, .. }));
    // The fade is first seen at 5000 ms: full volume still.
    assert_eq!(
        p.step(fading(2000), 5000),
        PlayStep::Write { start: 44 + 17640, end: 44 + 35280, volume: 1000, scaled: false }
    );
    assert_eq!(p.fade_started_ms, Some(5000));
    // Halfway through.
    assert_eq!(
        p.step(fading(2000), 6000),
        PlayStep::Write { start: 44 + 35280, end: 44 + 52920, volume: 500, scaled: true }
    );
    assert_eq!(p.volume, 500);
    assert!(matches!(p.step(fading(2000), 6999), PlayStep::Write { volume: 1, scaled: true, .. }));
    // At the full duration the session ends.
    assert_eq!(p.step(fading(2000), 7000), PlayStep::Stopped);
    assert_eq!(p.step(fading(2000), 9000), PlayStep::Stopped);
    assert_eq!(p.offset, 70560);
}

#[test]
fn only_16_bit_samples_are_scaled() {
    let mut wide = info(1_000_000);
    wide.bits_per_sample = 24;
    let mut p = Playback::begin(&wide, 44 + 1_000_000, 1000, None);
    assert!(matches!(p.step(fading(1000), 0), PlayStep::Write { volume: 1000, scaled: false, .. }));
    assert!(matches!(p.step(fading(1000), 500), PlayStep::Write { volume: 500, scaled: false, .. }));
}

#[test]
fn volume_carries_over_without_a_fade() {
    let mut p = Playback::begin(&info(1_000_000), 44 + 1_000_000, 250, None);
    assert!(matches!(p.step(idle(), 0), PlayStep::Write { volume: 250, scaled: true, .. }));
    assert!(matches!(p.step(None, 0), PlayStep::Write { volume: 1000, scaled: false, .. }));
    assert_eq!(p.volume, 250);
}

#[test]
fn clock_going_backwards_counts_as_no_time() {
    let mut p = Playback::begin(&info(1_000_000), 44 + 1_000_000, 1000, None);
    assert!(matches!(p.step(fading(1000), 500), PlayStep::Write { volume: 1000, .. }));
    assert!(matches!(p.step(fading(1000), 400), PlayStep::Write { volume: 1000, .. }));
}

#[test]
fn zero_length_fade_stops_at_once() {
    let mut p = Playback::begin(&info(1_000_000), 44 + 1_000_000, 1000, None);
    assert_eq!(p.step(fading(0), 77), PlayStep::Stopped);
    assert_eq!(p.offset, 0);
}

#[test]
fn samples_scale_towards_zero() {
    let chunk: Vec<u8> = [1000i16, -1000, 32767, -32768, 1, -1, 0]
        .iter()
        .flat_map(|s| s.to_le_bytes())
        .collect();
    let out = scale_samples(&chunk, 500);
    let back: Vec<i16> = out.chunks_exact(2).map(|p| i16::from_le_bytes([p[0], p[1]])).collect();
    assert_eq!(back, vec![500, -500, 16383, -16384, 0, 0, 0]);
    let out = scale_samples(&chunk, 333);
    let back: Vec<i16> = out.chunks_exact(2).map(|p| i16::from_le_bytes([p[0], p[1]])).collect();
    assert_eq!(back, vec![333, -333, 10911, -10911, 0, 0, 0]);
}

#[test]
fn scaling_at_the_ends_of_the_range() {
    let chunk: Vec<u8> = [1234i16, -4321, i16::MIN, i16::MAX]
        .iter()
        .flat_map(|s| s.to_le_bytes())
        .collect();
    assert_eq!(scale_samples(&chunk, 1000), chunk);
    assert_eq!(scale_samples(&chunk, 0), vec![0u8; 8]);
}

#[test]
fn odd_last_byte_is_copied() {
    assert_eq!(scale_samples(&[0x10, 0x27, 0x55], 500), vec![0x88, 0x13, 0x55]);
    assert_eq!(scale_samples(&[0x55], 0), vec![0x55]);
    assert_eq!(scale_samples(&[], 500), Vec::<u8>::new());
}

#[test]
fn a_pass_ends_with_a_stop_or_with_its_payload() {
    assert_eq!(pass_end(PlayStep::Stopped), Some(PassEnd::Stopped));
    assert_eq!(pass_end(PlayStep::Finished), Some(PassEnd::Finished));
    let write = PlayStep::Write { start: 44, end: 4140, volume: 1000, scaled: false };
    assert_eq!(pass_end(write), None);
}

#[test]
fn looping_goes_on_after_a_full_pass_only() {
    assert!(keep_looping(false, None));
    assert!(keep_looping(false, Some(PassEnd::Finished)));
    assert!(!keep_looping(false, Some(PassEnd::Stopped)));
    assert!(!keep_looping(false, Some(PassEnd::Failed)));
    assert!(!keep_looping(true, None));
    assert!(!keep_looping(true, Some(PassEnd::Finished)));
}

#[test]
fn format_bit_follows_the_bit_depth() {
    assert_eq!(format_code(16), 2);
    assert_eq!(format_code(24), 6);
    assert_eq!(format_code(32), 10);
    assert_eq!(format_code(8), 2);
    assert_eq!(format_code(0), 2);
}

#[test]
fn open_request_accepts_everything() {
    let p = HardwareParameters::any();
    for m in [p.access, p.format, p.subformat] {
        assert_eq!(m.words, [u32::MAX; 8]);
    }
    for i in [
        p.sample_bits, p.frame_bits, p.channels, p.rate, p.period_time, p.period_size,
        p.period_bytes, p.periods, p.buffer_time, p.buffer_size, p.buffer_bytes, p.tick_time,
    ] {
        assert_eq!(i, Interval { min: 0, max: u32::MAX });
    }
    assert_eq!(p.refine, u32::MAX);
}

#[test]
fn stream_request_is_narrowed_to_the_stream() {
    let p = HardwareParameters::for_stream(44100, 2, 16);
    assert_eq!(p.access.words, [9, 0, 0, 0, 0, 0, 0, 0]);
    assert_eq!(p.format.words, [4, 0, 0, 0, 0, 0, 0, 0]);
    assert_eq!(p.subformat.words, [1, 0, 0, 0, 0, 0, 0, 0]);
    assert_eq!(p.sample_bits, Interval { min: 16, max: 16 });
    assert_eq!(p.frame_bits, Interval { min: 32, max: 32 });
    assert_eq!(p.channels, Interval { min: 2, max: 2 });
    assert_eq!(p.rate, Interval { min: 44100, max: 44100 });
    assert_eq!(p.period_size, Interval { min: 256, max: 16384 });
    assert_eq!(p.periods, Interval { min: 2, max: 8 });
    for i in [
        p.period_time, p.period_bytes, p.buffer_time, p.buffer_size, p.buffer_bytes, p.tick_time,
    ] {
        assert_eq!(i, Interval { min: 0, max: u32::MAX });
    }
    assert_eq!(p.refine, 0xFFFF_FFFF);
}

#[test]
fn stream_request_for_other_depths() {
    assert_eq!(HardwareParameters::for_stream(48000, 1, 24).format.words[0], 1 << 6);
    assert_eq!(HardwareParameters::for_stream(48000, 1, 32).format.words[0], 1 << 10);
    let odd = HardwareParameters::for_stream(48000, 6, 20);
    assert_eq!(odd.format.words[0], 1 << 2);
    assert_eq!(odd.sample_bits, Interval { min: 20, max: 20 });
    assert_eq!(odd.frame_bits, Interval { min: 120, max: 120 });
    let wide = HardwareParameters::for_stream(u32::MAX, u16::MAX, u16::MAX);
    assert_eq!(wide.frame_bits.min, 65535 * 65535);
}

#[test]
fn masks_are_built_bit_by_bit() {
    assert_eq!(Mask::single(0).words, [1, 0, 0, 0, 0, 0, 0, 0]);
    assert_eq!(Mask::single(31).words, [1 << 31, 0, 0, 0, 0, 0, 0, 0]);
    assert_eq!(Mask::single(32).words, [0, 1, 0, 0, 0, 0, 0, 0]);
    assert_eq!(Mask::single(255).words, [0, 0, 0, 0, 0, 0, 0, 1 << 31]);
    assert_eq!(Mask::pair(0, 3).words[0], 9);
    assert_eq!(Mask::pair(5, 5).words[0], 32);
    assert_eq!(Interval::exactly(7), Interval { min: 7, max: 7 });
    assert_eq!(Interval::between(2, 8), Interval { min: 2, max: 8 });
}

#[test]
fn fresh_control_block_is_quiet() {
    let (handle, control) = control_pair();
    assert_eq!(
        control.observe(),
        ControlSnapshot { stop: false, fading: false, fade_duration_ms: 3000 }
    );
    assert!(!control.stop_requested());
    assert_eq!(control.volume(), 1000);
    assert_eq!(handle.volume(), 1000);
}

#[test]
fn handle_requests_reach_the_playback_side() {
    let (handle, control) = control_pair();
    handle.fade_out(1500);
    assert_eq!(
        control.observe(),
        ControlSnapshot { stop: false, fading: true, fade_duration_ms: 1500 }
    );
    handle.stop();
    assert!(control.stop_requested());
    assert!(control.observe().stop);
    control.publish_volume(420);
    assert_eq!(handle.volume(), 420);
}

#[test]
fn stop_through_the_handle_ends_a_running_session() {
    let (handle, control) = control_pair();
    let mut p = Playback::begin(&info(1_000_000), 44 + 1_000_000, control.volume(), None);
    assert!(matches!(p.step(Some(control.observe()), 0), PlayStep::Write { .. }));
    assert!(matches!(p.step(Some(control.observe()), 100), PlayStep::Write { .. }));
    handle.stop();
    assert_eq!(p.step(Some(control.observe()), 200), PlayStep::Stopped);
    assert!(!keep_looping(control.stop_requested(), Some(PassEnd::Stopped)));
}

#[test]
fn fade_through_the_handle_runs_down_the_volume() {
    let (handle, control) = control_pair();
    let mut p = Playback::begin(&info(1_000_000), 44 + 1_000_000, control.volume(), None);
    handle.fade_out(400);
    let mut seen: Vec<u32> = Vec::new();
    let mut now: u64 = 10_000;
    loop {
        match p.step(Some(control.observe()), now) {
            PlayStep::Write { volume, .. } => {
                control.publish_volume(volume);
                seen.push(volume);
            }
            other => {
                assert_eq!(other, PlayStep::Stopped);
                break;
            }
        }
        now += 100;
    }
    assert_eq!(seen, vec![1000, 750, 500, 250]);
    assert_eq!(handle.volume(), 250);
}

#[test]
fn no_device_means_no_session() {
    let off = AudioPlayer::with_probe(false);
    assert!(!off.is_available());
    assert!(off.open_session().is_none());
    let mut on = AudioPlayer::with_probe(true);
    assert!(on.is_available());
    assert!(on.open_session().is_some());
    on.disable();
    assert!(!on.is_available());
    assert!(on.open_session().is_none());
}

fn word(bytes: &[u8], at: usize) -> u32 {
    u32::from_le_bytes([bytes[at], bytes[at + 1], bytes[at + 2], bytes[at + 3]])
}

#[test]
fn kernel_record_has_every_field_at_its_place() {
    let record = HardwareParameters::for_stream(44100, 2, 16).to_kernel_record();
    assert_eq!(record.len(), 608);
    // Flags, then the three masks.
    assert_eq!(word(&record, 0), 0);
    assert_eq!(word(&record, 4), 9);
    assert_eq!(word(&record, 36), 4);
    assert_eq!(word(&record, 68), 1);
    for at in (8..36).chain(40..68).chain(72..100).step_by(4) {
        assert_eq!(word(&record, at), 0, "mask word at {}", at);
    }
    // Five reserved masks, fully set.
    assert!(record[100..260].iter().all(|b| *b == 0xFF));
    // Twelve intervals: minimum, maximum, flags.
    let expected: [(u32, u32); 12] = [
        (16, 16),
        (32, 32),
        (2, 2),
        (44100, 44100),
        (0, u32::MAX),
        (256, 16384),
        (0, u32::MAX),
        (2, 8),
        (0, u32::MAX),
        (0, u32::MAX),
        (0, u32::MAX),
        (0, u32::MAX),
    ];
    for (i, (min, max)) in expected.iter().enumerate() {
        assert_eq!(word(&record, 260 + 12 * i), *min, "minimum of interval {}", i);
        assert_eq!(word(&record, 264 + 12 * i), *max, "maximum of interval {}", i);
        assert_eq!(word(&record, 268 + 12 * i), 0, "flags of interval {}", i);
    }
    // Nine reserved intervals, fully open.
    for i in 0..9 {
        assert_eq!(word(&record, 404 + 12 * i), 0);
        assert_eq!(word(&record, 408 + 12 * i), u32::MAX);
        assert_eq!(word(&record, 412 + 12 * i), 0);
    }
    // The refine mask, and nothing behind it.
    assert_eq!(word(&record, 512), u32::MAX);
    assert!(record[516..].iter().all(|b| *b == 0));
}

#[test]
fn kernel_record_words_are_little_endian() {
    let mut p = HardwareParameters::any();
    p.rate = Interval { min: 0x0102_0304, max: 0xA0B0_C0D0 };
    p.refine = 0x1122_3344;
    let record = p.to_kernel_record();
    assert_eq!(&record[296..304], &[0x04, 0x03, 0x02, 0x01, 0xD0, 0xC0, 0xB0, 0xA0]);
    assert_eq!(&record[512..516], &[0x44, 0x33, 0x22, 0x11]);
    assert!(record[4..260].iter().all(|b| *b == 0xFF));
}
