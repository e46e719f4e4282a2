//! One playback session as a state machine: which slice of the payload is
//! written next, at what volume, and when the session ends.
//!
//! The program around the library owns the device and the clock. Before each
//! write it hands in what the controller asked for and the current time in
//! milliseconds, and gets back what to do.

use vstd::prelude::*;
use crate::wav::WavInfo;

verus! {

/// Full volume, in permille.
pub const FULL_VOLUME: u32 = 1000;

/// Smallest chunk handed to the device, in bytes.
pub const MIN_CHUNK: usize = 4096;

/// What the controller has asked for, as seen at one moment.
#[derive(Clone, Copy, Debug, PartialEq, Eq, Structural)]
pub struct ControlSnapshot {
    pub stop: bool,
    pub fading: bool,
    pub fade_duration_ms: u32,
}

/// What the session does next.
#[derive(Clone, Copy, Debug, PartialEq, Eq, Structural)]
pub enum PlayStep {
    /// Ended early: a stop was requested or a fade ran out.
    Stopped,
    /// The payload is exhausted.
    Finished,
    /// Write the bytes `start..end` of the buffer; scale them to `volume`
    /// first where `scaled` is set.
    Write { start: usize, end: usize, volume: u32, scaled: bool },
}

/// The state of one pass over a payload.
#[derive(Clone, Copy, Debug, PartialEq, Eq, Structural)]
pub struct Playback {
    /// Offset of the payload in the buffer.
    pub payload_start: usize,
    /// Bytes of payload that the buffer really holds.
    pub payload_len: usize,
    /// Bytes per write.
    pub chunk: usize,
    pub bits_per_sample: u16,
    /// Payload bytes handed out so far.
    pub offset: usize,
    /// When the session first saw the fade request, on the clock of the
    /// session; a pass takes it over from the pass before.
    pub fade_started_ms: Option<u64>,
    /// Current volume in permille.
    pub volume: u32,
}

/// Bytes in about a tenth of a second of audio, and never under 4096.
pub open spec fn chunk_len_spec(sample_rate: u32, channels: u16, bits: u16) -> int {
    let tenth = (sample_rate as int) * (channels as int) * (bits as int / 8) / 10;
    if tenth < MIN_CHUNK {
        MIN_CHUNK as int
    } else {
        tenth
    }
}

/// The volume of a linear fade from 1000 to 0 over `duration` milliseconds,
/// `elapsed` milliseconds after it began.
pub open spec fn fade_volume_spec(elapsed: int, duration: int) -> int {
    1000 - elapsed * 1000 / duration
}

/// Milliseconds from `start` to `now`; zero where the clock went backwards.
pub open spec fn elapsed_spec(start: u64, now: u64) -> int {
    if now >= start {
        now - start
    } else {
        0
    }
}

/// The smaller of two lengths.
pub open spec fn min_len(a: int, b: int) -> int {
    if a <= b {
        a
    } else {
        b
    }
}

/// Bytes per write for a stream. Where the result would not fit in `usize`
/// it is `usize::MAX`, which is as good: no payload is longer.
pub fn chunk_len(sample_rate: u32, channels: u16, bits: u16) -> (n: usize)
    ensures
        n == min_len(chunk_len_spec(sample_rate, channels, bits), usize::MAX as int),
        n >= MIN_CHUNK,
{
    let bytes: u64 = (bits / 8) as u64;
    assert(channels * bytes <= 0xFFFF * 0x1FFF) by (nonlinear_arith)
        requires
            channels <= 0xFFFF,
            bytes <= 0x1FFF,
    ;
    let frame: u64 = (channels as u64) * bytes;
    assert(sample_rate * frame <= 0xFFFF_FFFF * (0xFFFF * 0x1FFF)) by (nonlinear_arith)
        requires
            sample_rate <= 0xFFFF_FFFF,
            frame <= 0xFFFF * 0x1FFF,
    ;
    let second: u64 = (sample_rate as u64) * frame;
    assert(second == (sample_rate as int) * (channels as int) * (bits as int / 8))
        by (nonlinear_arith)
        requires
            second == (sample_rate as int) * ((channels as int) * (bits as int / 8)),
    ;
    let tenth: u64 = second / 10;
    if tenth < MIN_CHUNK as u64 {
        MIN_CHUNK
    } else if tenth > usize::MAX as u64 {
        usize::MAX
    } else {
        tenth as usize
    }
}

/// The volume of a fade `elapsed_ms` after it began, or `None` once the
/// fade has run its course and the session is to end.
pub fn fade_volume(elapsed_ms: u64, duration_ms: u32) -> (v: Option<u32>)
    ensures
        v is None <==> elapsed_ms >= duration_ms,
        v matches Some(vol) ==> vol == fade_volume_spec(elapsed_ms as int, duration_ms as int)
            && 1 <= vol <= 1000,
{
    if elapsed_ms >= duration_ms as u64 {
        return None;
    }
    let d: u64 = duration_ms as u64;
    let gone: u64 = elapsed_ms * 1000 / d;
    assert(elapsed_ms * 1000 / (d as int) < 1000) by (nonlinear_arith)
        requires
            0 <= elapsed_ms < d,
    ;
    Some((1000 - gone) as u32)
}

impl Playback {
    /// The offsets make sense and the volume is a permille value.
    pub open spec fn wf(self) -> bool {
        &&& self.offset <= self.payload_len
        &&& self.payload_start + self.payload_len <= usize::MAX
        &&& self.chunk >= 1
        &&& self.volume <= FULL_VOLUME
    }

    /// The state at the start of a pass over the payload that `info`
    /// describes in a buffer of `buffer_len` bytes. The volume and the start
    /// of the fade belong to the session and are carried into the pass.
    pub open spec fn begin_spec(
        info: WavInfo,
        buffer_len: usize,
        volume: u32,
        fade_started_ms: Option<u64>,
    ) -> Playback {
        Playback {
            payload_start: info.data_offset,
            payload_len: min_len(buffer_len - info.data_offset, info.data_len as int) as usize,
            chunk: min_len(
                chunk_len_spec(info.sample_rate, info.channels, info.bits_per_sample),
                usize::MAX as int,
            ) as usize,
            bits_per_sample: info.bits_per_sample,
            offset: 0,
            fade_started_ms,
            volume,
        }
    }

    /// Starts a pass. The payload is what the buffer holds behind the
    /// payload offset, cut to the length that the `data` chunk declares.
    /// `volume` and `fade_started_ms` are those of the session so far: full
    /// volume and no fade for its first pass, and what the pass before left
    /// for every other.
    pub fn begin(
        info: &WavInfo,
        buffer_len: usize,
        volume: u32,
        fade_started_ms: Option<u64>,
    ) -> (p: Playback)
        requires
            info.data_offset <= buffer_len,
            volume <= FULL_VOLUME,
        ensures
            p == Playback::begin_spec(*info, buffer_len, volume, fade_started_ms),
            p.wf(),
    {
        let held: usize = buffer_len - info.data_offset;
        let payload_len: usize = if held <= info.data_len {
            held
        } else {
            info.data_len
        };
        Playback {
            payload_start: info.data_offset,
            payload_len,
            chunk: chunk_len(info.sample_rate, info.channels, info.bits_per_sample),
            bits_per_sample: info.bits_per_sample,
            offset: 0,
            fade_started_ms,
            volume,
        }
    }

    /// Starts the pass that follows this one in a looping session: over the
    /// payload as it was decoded anew, at the volume that this pass left, and
    /// with the fade, if one has begun, still timed from where it began.
    pub fn next_pass(&self, info: &WavInfo, buffer_len: usize) -> (p: Playback)
        requires
            self.wf(),
            info.data_offset <= buffer_len,
        ensures
            p == Playback::begin_spec(*info, buffer_len, self.volume, self.fade_started_ms),
            p.wf(),
    {
        Playback::begin(info, buffer_len, self.volume, self.fade_started_ms)
    }

    /// When the fade began, once `ctrl` has been seen at `now_ms`: where it
    /// was seen before, then; where it is seen for the first time, now.
    pub open spec fn fade_start_spec(self, ctrl: Option<ControlSnapshot>, now_ms: u64) -> Option<
        u64,
    > {
        match ctrl {
            Some(c) => if !c.stop && c.fading && self.fade_started_ms is None {
                Some(now_ms)
            } else {
                self.fade_started_ms
            },
            None => self.fade_started_ms,
        }
    }

    /// The session ends early: a stop is requested, or the fade has run for
    /// its whole duration.
    pub open spec fn ends_early(self, ctrl: Option<ControlSnapshot>, now_ms: u64) -> bool {
        match ctrl {
            Some(c) => c.stop || (c.fading && elapsed_spec(
                self.fade_start_spec(ctrl, now_ms)->0,
                now_ms,
            ) >= c.fade_duration_ms),
            None => false,
        }
    }

    /// The volume of the next write.
    pub open spec fn next_volume(self, ctrl: Option<ControlSnapshot>, now_ms: u64) -> int {
        match ctrl {
            Some(c) => if c.fading {
                fade_volume_spec(
                    elapsed_spec(self.fade_start_spec(ctrl, now_ms)->0, now_ms),
                    c.fade_duration_ms as int,
                )
            } else {
                self.volume as int
            },
            None => FULL_VOLUME as int,
        }
    }

    /// What `step` answers. The controller is heard first: a stop or a fade
    /// that has run out ends the session whether or not payload is left.
    pub open spec fn step_spec(self, ctrl: Option<ControlSnapshot>, now_ms: u64) -> PlayStep {
        if self.ends_early(ctrl, now_ms) {
            PlayStep::Stopped
        } else if self.offset >= self.payload_len {
            PlayStep::Finished
        } else {
            let vol = self.next_volume(ctrl, now_ms);
            PlayStep::Write {
                start: (self.payload_start + self.offset) as usize,
                end: (self.payload_start + min_len(
                    self.offset + self.chunk,
                    self.payload_len as int,
                )) as usize,
                volume: vol as u32,
                scaled: vol < FULL_VOLUME && self.bits_per_sample == 16,
            }
        }
    }

    /// The state that `step` leaves.
    pub open spec fn after_step(self, ctrl: Option<ControlSnapshot>, now_ms: u64) -> Playback {
        let started = self.fade_start_spec(ctrl, now_ms);
        if self.ends_early(ctrl, now_ms) {
            Playback { fade_started_ms: started, ..self }
        } else {
            Playback {
                offset: if self.offset >= self.payload_len {
                    self.offset
                } else {
                    min_len(self.offset + self.chunk, self.payload_len as int) as usize
                },
                fade_started_ms: started,
                volume: if ctrl is Some {
                    self.next_volume(ctrl, now_ms) as u32
                } else {
                    self.volume
                },
                ..self
            }
        }
    }

    /// Decides the next move of the session.
    ///
    /// `ctrl` is what the controller asked for, or `None` for a session that
    /// nobody controls; `now_ms` is a monotonic clock in milliseconds, one
    /// and the same for all passes of the session. A fade is timed from the
    /// first step that sees it, not from the request.
    pub fn step(&mut self, ctrl: Option<ControlSnapshot>, now_ms: u64) -> (next: PlayStep)
        requires
            old(self).wf(),
        ensures
            next == old(self).step_spec(ctrl, now_ms),
            *final(self) == old(self).after_step(ctrl, now_ms),
            final(self).wf(),
            next matches PlayStep::Write { start, end, volume, scaled } ==> {
                &&& start == old(self).payload_start + old(self).offset
                &&& old(self).payload_start <= start < end <= old(self).payload_start + old(
                    self,
                ).payload_len
                &&& end - start <= old(self).chunk
                &&& final(self).offset == end - old(self).payload_start
                &&& final(self).offset > old(self).offset
                &&& volume <= FULL_VOLUME
            },
            !(next is Write) ==> final(self).offset == old(self).offset,
    {
        let mut vol: u32 = FULL_VOLUME;
        if let Some(c) = ctrl {
            if c.stop {
                return PlayStep::Stopped;
            }
            vol = self.volume;
            if c.fading {
                let started: u64 = match self.fade_started_ms {
                    Some(t) => t,
                    None => {
                        self.fade_started_ms = Some(now_ms);
                        now_ms
                    },
                };
                let elapsed: u64 = if now_ms >= started {
                    now_ms - started
                } else {
                    0
                };
                match fade_volume(elapsed, c.fade_duration_ms) {
                    Some(v) => {
                        vol = v;
                    },
                    None => {
                        return PlayStep::Stopped;
                    },
                }
            }
            self.volume = vol;
        }
        if self.offset >= self.payload_len {
            return PlayStep::Finished;
        }
        let left: usize = self.payload_len - self.offset;
        let end: usize = if self.chunk >= left {
            self.payload_len
        } else {
            self.offset + self.chunk
        };
        let start: usize = self.offset;
        self.offset = end;
        PlayStep::Write {
            start: self.payload_start + start,
            end: self.payload_start + end,
            volume: vol,
            scaled: vol < FULL_VOLUME && self.bits_per_sample == 16,
        }
    }
}

/// A fade starts at full volume, never rises, and halfway through its
/// duration stands at half volume: exactly 500 for an even duration, and 500
/// or 501 for any duration of at least half a second.
pub proof fn lemma_fade_is_linear(duration: int, earlier: int, later: int)
    requires
        duration >= 1,
        0 <= earlier <= later,
    ensures
        fade_volume_spec(0, duration) == 1000,
        fade_volume_spec(later, duration) <= fade_volume_spec(earlier, duration),
        duration % 2 == 0 ==> fade_volume_spec(duration / 2, duration) == 500,
        duration >= 500 ==> 500 <= fade_volume_spec(duration / 2, duration) <= 501,
        500 <= fade_volume_spec(duration / 2, duration) <= 1000,
{
    assert(earlier * 1000 / duration <= later * 1000 / duration) by (nonlinear_arith)
        requires
            duration >= 1,
            0 <= earlier <= later,
    ;
    let half = duration / 2;
    assert(0 <= half * 1000 / duration <= 500) by (nonlinear_arith)
        requires
            duration >= 1,
            half == duration / 2,
    ;
    assert(duration % 2 == 0 ==> half * 1000 / duration == 500) by (nonlinear_arith)
        requires
            duration >= 1,
            half == duration / 2,
    ;
    assert(duration >= 500 ==> half * 1000 / duration >= 499) by (nonlinear_arith)
        requires
            duration >= 1,
            half == duration / 2,
    ;
}

/// Once a fade has run for its whole duration the session ends, whatever
/// else is pending; and a stop request ends it at the next step.
pub proof fn lemma_fade_and_stop_end_the_session(
    p: Playback,
    c: ControlSnapshot,
    started: u64,
    now_ms: u64,
)
    requires
        p.wf(),
        c.stop || (c.fading && p.fade_started_ms == Some(started) && now_ms - started
            >= c.fade_duration_ms),
    ensures
        p.step_spec(Some(c), now_ms) == PlayStep::Stopped,
        p.after_step(Some(c), now_ms).offset == p.offset,
{
}

/// A pass begins with what the session hands it: the volume and the start
/// of the fade are those of the pass before.
pub proof fn lemma_pass_keeps_the_fade(
    before: Playback,
    info: WavInfo,
    buffer_len: usize,
)
    ensures
        Playback::begin_spec(info, buffer_len, before.volume, before.fade_started_ms).fade_started_ms
            == before.fade_started_ms,
        Playback::begin_spec(info, buffer_len, before.volume, before.fade_started_ms).volume
            == before.volume,
{
}

/// The step that sees a fade for the first time takes the time of the
/// clock down as its start, and no later step, in this pass or another,
/// moves it.
pub proof fn lemma_fade_starts_once(p: Playback, c: ControlSnapshot, now_ms: u64)
    requires
        c.fading,
        !c.stop,
    ensures
        p.fade_started_ms is None ==> p.after_step(Some(c), now_ms).fade_started_ms == Some(
            now_ms,
        ),
        p.fade_started_ms is Some ==> p.after_step(Some(c), now_ms).fade_started_ms
            == p.fade_started_ms,
{
}

/// A fade runs once, from where it was first seen. With the fade first seen
/// at `t0`, a step at `now_ms` in whatever pass answers `Stopped` exactly
/// when the duration has run out, and never later; until then every write
/// has the volume `1000 - (now_ms - t0) * 1000 / duration`, and the volume
/// that the step leaves is that volume too.
pub proof fn lemma_fade_runs_from_its_first_sight(
    p: Playback,
    c: ControlSnapshot,
    t0: u64,
    now_ms: u64,
)
    requires
        p.fade_started_ms == Some(t0),
        c.fading,
        !c.stop,
        now_ms >= t0,
    ensures
        p.step_spec(Some(c), now_ms) == PlayStep::Stopped <==> now_ms - t0 >= c.fade_duration_ms,
        p.step_spec(Some(c), now_ms) matches PlayStep::Write { start, end, volume, scaled }
            ==> volume == 1000 - (now_ms - t0) * 1000 / (c.fade_duration_ms as int),
        now_ms - t0 < c.fade_duration_ms ==> p.after_step(Some(c), now_ms).volume == 1000 - (now_ms
            - t0) * 1000 / (c.fade_duration_ms as int),
        p.after_step(Some(c), now_ms).fade_started_ms == Some(t0),
{
    if now_ms - t0 < c.fade_duration_ms {
        let e = (now_ms - t0) as int;
        let d = c.fade_duration_ms as int;
        assert(0 <= e * 1000 / d < 1000) by (nonlinear_arith)
            requires
                0 <= e < d,
        ;
    }
}

/// During a fade the volume never rises, within a pass or from one pass to
/// the next: of two writes, the later one is no louder.
pub proof fn lemma_volume_never_rises(
    earlier: Playback,
    later: Playback,
    c: ControlSnapshot,
    t0: u64,
    first_ms: u64,
    second_ms: u64,
)
    requires
        earlier.fade_started_ms == Some(t0),
        later.fade_started_ms == Some(t0),
        c.fading,
        !c.stop,
        t0 <= first_ms <= second_ms,
        second_ms - t0 < c.fade_duration_ms,
    ensures
        later.next_volume(Some(c), second_ms) <= earlier.next_volume(Some(c), first_ms),
        later.after_step(Some(c), second_ms).volume <= earlier.after_step(Some(c), first_ms).volume,
{
    lemma_fade_is_linear(c.fade_duration_ms as int, first_ms - t0, second_ms - t0);
    lemma_fade_runs_from_its_first_sight(earlier, c, t0, first_ms);
    lemma_fade_runs_from_its_first_sight(later, c, t0, second_ms);
}

/// The state after `k` steps of a session that nobody controls.
pub open spec fn after_steps(p: Playback, k: nat) -> Playback
    decreases k,
{
    if k == 0 {
        p
    } else {
        after_steps(p, (k - 1) as nat).after_step(None, 0)
    }
}

/// A session that nobody controls hands out the payload chunk by chunk, in
/// order and without a gap: after `k` steps it stands `k` chunks into the
/// payload, or at its end, and from there on every step answers that the
/// payload is exhausted.
pub proof fn lemma_uncontrolled_session_plays_everything(p: Playback, k: nat)
    requires
        p.wf(),
        p.offset == 0,
    ensures
        after_steps(p, k).wf(),
        after_steps(p, k).offset == min_len(k * p.chunk, p.payload_len as int),
        after_steps(p, k).payload_start == p.payload_start,
        after_steps(p, k).payload_len == p.payload_len,
        after_steps(p, k).chunk == p.chunk,
        after_steps(p, k).step_spec(None, 0) == PlayStep::Finished <==> k * p.chunk
            >= p.payload_len,
        after_steps(p, k).step_spec(None, 0) matches PlayStep::Write { start, end, volume, scaled }
            ==> start == p.payload_start + k * p.chunk && end == p.payload_start + min_len(
            (k + 1) * p.chunk,
            p.payload_len as int,
        ) && volume == FULL_VOLUME && !scaled,
    decreases k,
{
    assert((k + 1) * p.chunk == k * p.chunk + p.chunk) by (nonlinear_arith);
    if k == 0 {
        assert(0 * p.chunk == 0) by (nonlinear_arith);
    } else {
        lemma_uncontrolled_session_plays_everything(p, (k - 1) as nat);
        assert(k * p.chunk == (k - 1) * p.chunk + p.chunk) by (nonlinear_arith);
        assert((k - 1) * p.chunk >= 0) by (nonlinear_arith)
            requires
                k >= 1,
                p.chunk >= 1,
        ;
    }
}

/// The signed 16-bit sample that the bytes `lo` and `hi` hold.
pub open spec fn sample_value(lo: u8, hi: u8) -> int {
    let raw = lo as int + 256 * (hi as int);
    if raw >= 32768 {
        raw - 65536
    } else {
        raw
    }
}

/// `sample * volume / 1000`, rounded towards zero.
pub open spec fn scale_value(sample: int, volume: int) -> int {
    if sample >= 0 {
        sample * volume / 1000
    } else {
        -((-sample) * volume / 1000)
    }
}

/// The low byte of a signed 16-bit value in two's complement.
pub open spec fn low_byte(v: int) -> u8 {
    (if v < 0 {
        v + 65536
    } else {
        v
    } % 256) as u8
}

/// The high byte of a signed 16-bit value in two's complement.
pub open spec fn high_byte(v: int) -> u8 {
    (if v < 0 {
        v + 65536
    } else {
        v
    } / 256) as u8
}

/// Byte `i` of a chunk whose 16-bit samples are scaled to `volume`. A last
/// byte without a partner stays as it is.
pub open spec fn scaled_byte(s: Seq<u8>, volume: int, i: int) -> u8 {
    let first = i - i % 2;
    if first + 1 < s.len() {
        let v = scale_value(sample_value(s[first], s[first + 1]), volume);
        if i % 2 == 0 {
            low_byte(v)
        } else {
            high_byte(v)
        }
    } else {
        s[i]
    }
}

/// A chunk with its 16-bit little-endian samples scaled to `volume`.
pub open spec fn scaled_chunk(s: Seq<u8>, volume: int) -> Seq<u8> {
    Seq::new(s.len(), |i: int| scaled_byte(s, volume, i))
}

/// Scaling never makes a sample louder, keeps its sign, is the identity at
/// full volume and silence at volume zero.
pub proof fn lemma_scale_value_bounds(sample: int, volume: int)
    requires
        0 <= volume <= 1000,
    ensures
        sample >= 0 ==> 0 <= scale_value(sample, volume) <= sample,
        sample <= 0 ==> sample <= scale_value(sample, volume) <= 0,
        scale_value(sample, 1000) == sample,
        scale_value(sample, 0) == 0,
{
    let m = if sample >= 0 {
        sample
    } else {
        -sample
    };
    assert(0 <= m * volume / 1000 <= m) by (nonlinear_arith)
        requires
            0 <= m,
            0 <= volume <= 1000,
    ;
    assert(m * 1000 / 1000 == m) by (nonlinear_arith);
    assert(m * 0 / 1000 == 0) by (nonlinear_arith);
}

/// One sample scaled: the two bytes in, the two bytes out.
fn scale_pair(lo: u8, hi: u8, volume: u32) -> (out: (u8, u8))
    requires
        volume <= FULL_VOLUME,
    ensures
        out.0 == low_byte(scale_value(sample_value(lo, hi), volume as int)),
        out.1 == high_byte(scale_value(sample_value(lo, hi), volume as int)),
{
    let raw: i32 = lo as i32 + 256 * (hi as i32);
    let sample: i32 = if raw >= 32768 {
        raw - 65536
    } else {
        raw
    };
    let vol: i32 = volume as i32;
    proof {
        lemma_scale_value_bounds(sample as int, volume as int);
    }
    let scaled: i32 = if sample >= 0 {
        assert(sample * vol <= 32767 * 1000) by (nonlinear_arith)
            requires
                0 <= sample <= 32767,
                0 <= vol <= 1000,
        ;
        assert(0 <= sample * vol) by (nonlinear_arith)
            requires
                0 <= sample,
                0 <= vol,
        ;
        sample * vol / 1000
    } else {
        let m: i32 = -sample;
        assert(m * vol <= 32768 * 1000) by (nonlinear_arith)
            requires
                0 <= m <= 32768,
                0 <= vol <= 1000,
        ;
        assert(0 <= m * vol) by (nonlinear_arith)
            requires
                0 <= m,
                0 <= vol,
        ;
        -(m * vol / 1000)
    };
    let wrapped: i32 = if scaled < 0 {
        scaled + 65536
    } else {
        scaled
    };
    ((wrapped % 256) as u8, (wrapped / 256) as u8)
}

/// Scales the 16-bit little-endian samples of a chunk to `volume` permille,
/// into a copy. Each sample becomes `sample * volume / 1000`, rounded
/// towards zero; an odd last byte is copied.
pub fn scale_samples(chunk: &[u8], volume: u32) -> (out: Vec<u8>)
    requires
        volume <= FULL_VOLUME,
    ensures
        out@ == scaled_chunk(chunk@, volume as int),
{
    let len: usize = chunk.len();
    let mut out: Vec<u8> = Vec::with_capacity(len);
    let mut i: usize = 0;
    while len - i >= 2
        invariant
            len == chunk@.len(),
            i <= len,
            i % 2 == 0,
            volume <= FULL_VOLUME,
            out@.len() == i,
            forall|k: int| 0 <= k < i ==> out@[k] == scaled_byte(chunk@, volume as int, k),
        decreases len - i,
    {
        let pair = scale_pair(chunk[i], chunk[i + 1], volume);
        out.push(pair.0);
        out.push(pair.1);
        i = i + 2;
    }
    if i < len {
        out.push(chunk[i]);
    }
    assert(out@ =~= scaled_chunk(chunk@, volume as int));
    out
}

/// How one pass over the payload ended.
#[derive(Clone, Copy, Debug, PartialEq, Eq, Structural)]
pub enum PassEnd {
    /// The payload was played to its end.
    Finished,
    /// A stop request or a finished fade cut the pass short.
    Stopped,
    /// The container did not decode or the device refused a write.
    Failed,
}

/// How a pass ends with a step, if it ends with it: after a write it goes
/// on.
pub open spec fn pass_end_spec(step: PlayStep) -> Option<PassEnd> {
    match step {
        PlayStep::Stopped => Some(PassEnd::Stopped),
        PlayStep::Finished => Some(PassEnd::Finished),
        PlayStep::Write { .. } => None,
    }
}

/// How a pass ends with a step, if it ends with it.
pub fn pass_end(step: PlayStep) -> (end: Option<PassEnd>)
    ensures
        end == pass_end_spec(step),
{
    match step {
        PlayStep::Stopped => Some(PassEnd::Stopped),
        PlayStep::Finished => Some(PassEnd::Finished),
        PlayStep::Write { .. } => None,
    }
}

/// A looping session starts another pass at its start and after a pass that
/// played to its end, unless a stop is requested.
pub open spec fn keep_looping_spec(stop_requested: bool, last_pass: Option<PassEnd>) -> bool {
    !stop_requested && (last_pass is None || last_pass == Some(PassEnd::Finished))
}

/// Whether a looping session starts another pass: not once a stop is
/// requested, and only at the start or after a pass played to its end.
pub fn keep_looping(stop_requested: bool, last_pass: Option<PassEnd>) -> (again: bool)
    ensures
        again == keep_looping_spec(stop_requested, last_pass),
{
    if stop_requested {
        return false;
    }
    match last_pass {
        None => true,
        Some(PassEnd::Finished) => true,
        Some(_) => false,
    }
}

/// A fade that has run out ends the session, looping or not: the first step
/// at or after the end of the ramp, in whatever pass, ends its pass as
/// stopped, and no pass follows a stopped one. So does a stop request.
pub proof fn lemma_finished_fade_ends_the_loop(
    p: Playback,
    c: ControlSnapshot,
    t0: u64,
    now_ms: u64,
    stop_requested: bool,
)
    requires
        c.stop || (c.fading && p.fade_started_ms == Some(t0) && now_ms - t0 >= c.fade_duration_ms),
    ensures
        pass_end_spec(p.step_spec(Some(c), now_ms)) == Some(PassEnd::Stopped),
        !keep_looping_spec(stop_requested, pass_end_spec(p.step_spec(Some(c), now_ms))),
{
}

/// While a fade runs, a pass that plays to its end is followed by another,
/// which takes over the volume and the start of the fade: the ramp goes on
/// where it stood.
pub proof fn lemma_fade_outlasts_a_pass(
    p: Playback,
    c: ControlSnapshot,
    t0: u64,
    now_ms: u64,
    info: WavInfo,
    buffer_len: usize,
)
    requires
        p.fade_started_ms == Some(t0),
        c.fading,
        !c.stop,
        t0 <= now_ms,
        now_ms - t0 < c.fade_duration_ms,
        p.offset >= p.payload_len,
    ensures
        pass_end_spec(p.step_spec(Some(c), now_ms)) == Some(PassEnd::Finished),
        keep_looping_spec(false, pass_end_spec(p.step_spec(Some(c), now_ms))),
        Playback::begin_spec(
            info,
            buffer_len,
            p.after_step(Some(c), now_ms).volume,
            p.after_step(Some(c), now_ms).fade_started_ms,
        ).fade_started_ms == Some(t0),
        Playback::begin_spec(
            info,
            buffer_len,
            p.after_step(Some(c), now_ms).volume,
            p.after_step(Some(c), now_ms).fade_started_ms,
        ).volume == 1000 - (now_ms - t0) * 1000 / (c.fade_duration_ms as int),
{
    lemma_fade_runs_from_its_first_sight(p, c, t0, now_ms);
}

} // verus!
