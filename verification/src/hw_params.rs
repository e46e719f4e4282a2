//! The hardware parameters that a PCM device is asked for: three capability
//! masks and twelve closed intervals, first opened to "any", then narrowed.
//!
//! The kernel accepts refinement only, never expansion, so every request is
//! built from `HardwareParameters::any()` by narrowing.

use vstd::prelude::*;

verus! {

/// Access mode bit: memory-mapped, interleaved.
pub const ACCESS_MMAP_INTERLEAVED: u32 = 0;

/// Access mode bit: read/write, interleaved.
pub const ACCESS_RW_INTERLEAVED: u32 = 3;

/// Sample format bit: signed 16-bit little-endian.
pub const FORMAT_S16_LE: u32 = 2;

/// Sample format bit: signed 24-bit little-endian.
pub const FORMAT_S24_LE: u32 = 6;

/// Sample format bit: signed 32-bit little-endian.
pub const FORMAT_S32_LE: u32 = 10;

/// Subformat bit: standard.
pub const SUBFORMAT_STD: u32 = 0;

/// Refine-everything request mask.
pub const REFINE_ALL: u32 = 0xFFFF_FFFF;

/// A 256-bit capability mask, as eight 32-bit words, lowest bits first.
#[derive(Clone, Copy, Debug)]
pub struct Mask {
    pub words: [u32; 8],
}

/// A closed numeric interval `[min, max]`.
#[derive(Clone, Copy, Debug, PartialEq, Eq, Structural)]
pub struct Interval {
    pub min: u32,
    pub max: u32,
}

/// Eight words, all zero but word `at`, which is `word`.
pub open spec fn one_word(at: int, word: u32) -> Seq<u32> {
    Seq::new(
        8,
        |k: int|
            if k == at {
                word
            } else {
                0u32
            },
    )
}

/// Eight words with every bit set.
pub open spec fn all_ones() -> Seq<u32> {
    Seq::new(8, |k: int| 0xFFFF_FFFFu32)
}

/// The sample format bit for a bit depth: 16, 24 and 32 bits have their own
/// little-endian linear format, anything else is taken as 16-bit.
pub open spec fn format_code_spec(bits: u16) -> u32 {
    if bits == 24 {
        FORMAT_S24_LE
    } else if bits == 32 {
        FORMAT_S32_LE
    } else {
        FORMAT_S16_LE
    }
}

pub fn format_code(bits: u16) -> (code: u32)
    ensures
        code == format_code_spec(bits),
        code < 256,
{
    if bits == 24 {
        FORMAT_S24_LE
    } else if bits == 32 {
        FORMAT_S32_LE
    } else {
        FORMAT_S16_LE
    }
}

impl View for Mask {
    type V = Seq<u32>;

    open spec fn view(&self) -> Seq<u32> {
        self.words@
    }
}

impl Mask {
    /// Bit `bit` of the mask is set.
    pub open spec fn has(self, bit: int) -> bool {
        (self@[bit / 32] >> ((bit % 32) as u32)) & 1 == 1
    }

    /// Every bit that `self` has, `other` has too.
    pub open spec fn within(self, other: Mask) -> bool {
        forall|k: int| 0 <= k < 8 ==> #[trigger] self@[k] & !other@[k] == 0
    }

    /// The mask that accepts everything.
    pub fn any() -> (m: Mask)
        ensures
            m@ == all_ones(),
    {
        let m = Mask { words: [0xFFFF_FFFFu32; 8] };
        assert(m@ =~= all_ones());
        m
    }

    /// The mask with exactly the bit `bit`.
    pub fn single(bit: u32) -> (m: Mask)
        requires
            bit < 256,
        ensures
            m@ == one_word(bit as int / 32, 1u32 << (bit % 32)),
    {
        let mut words = [0u32; 8];
        let at: usize = (bit / 32) as usize;
        words[at] = 1u32 << (bit % 32);
        let m = Mask { words };
        assert(m@ =~= one_word(bit as int / 32, 1u32 << (bit % 32)));
        m
    }

    /// The mask with the bits `a` and `b`, both in the lowest word.
    pub fn pair(a: u32, b: u32) -> (m: Mask)
        requires
            a < 32,
            b < 32,
        ensures
            m@ == one_word(0, (1u32 << a) | (1u32 << b)),
    {
        let mut words = [0u32; 8];
        words[0] = (1u32 << a) | (1u32 << b);
        let m = Mask { words };
        assert(m@ =~= one_word(0, (1u32 << a) | (1u32 << b)));
        m
    }
}

impl Interval {
    /// `v` lies in the interval.
    pub open spec fn contains(self, v: int) -> bool {
        self.min <= v <= self.max
    }

    /// Every value of `self` is a value of `other`.
    pub open spec fn within(self, other: Interval) -> bool {
        other.min <= self.min && self.max <= other.max
    }

    /// The interval that accepts everything.
    pub fn any() -> (i: Interval)
        ensures
            i == (Interval { min: 0, max: u32::MAX }),
    {
        Interval { min: 0, max: u32::MAX }
    }

    /// The interval that accepts `v` alone.
    pub fn exactly(v: u32) -> (i: Interval)
        ensures
            i == (Interval { min: v, max: v }),
    {
        Interval { min: v, max: v }
    }

    /// The interval from `min` to `max`.
    pub fn between(min: u32, max: u32) -> (i: Interval)
        ensures
            i == (Interval { min, max }),
    {
        Interval { min, max }
    }
}

/// A request for PCM hardware parameters.
#[derive(Clone, Copy, Debug)]
pub struct HardwareParameters {
    pub access: Mask,
    pub format: Mask,
    pub subformat: Mask,
    pub sample_bits: Interval,
    pub frame_bits: Interval,
    pub channels: Interval,
    pub rate: Interval,
    pub period_time: Interval,
    pub period_size: Interval,
    pub period_bytes: Interval,
    pub periods: Interval,
    pub buffer_time: Interval,
    pub buffer_size: Interval,
    pub buffer_bytes: Interval,
    pub tick_time: Interval,
    /// Which parameters the device is asked to refine.
    pub refine: u32,
}

impl HardwareParameters {
    /// Every mask is fully set and every interval is `[0, MAX]`.
    pub open spec fn is_any(self) -> bool {
        &&& self.access@ == all_ones()
        &&& self.format@ == all_ones()
        &&& self.subformat@ == all_ones()
        &&& self.sample_bits == (Interval { min: 0, max: u32::MAX })
        &&& self.frame_bits == (Interval { min: 0, max: u32::MAX })
        &&& self.channels == (Interval { min: 0, max: u32::MAX })
        &&& self.rate == (Interval { min: 0, max: u32::MAX })
        &&& self.period_time == (Interval { min: 0, max: u32::MAX })
        &&& self.period_size == (Interval { min: 0, max: u32::MAX })
        &&& self.period_bytes == (Interval { min: 0, max: u32::MAX })
        &&& self.periods == (Interval { min: 0, max: u32::MAX })
        &&& self.buffer_time == (Interval { min: 0, max: u32::MAX })
        &&& self.buffer_size == (Interval { min: 0, max: u32::MAX })
        &&& self.buffer_bytes == (Interval { min: 0, max: u32::MAX })
        &&& self.tick_time == (Interval { min: 0, max: u32::MAX })
        &&& self.refine == REFINE_ALL
    }

    /// `self` asks for nothing that `wider` does not allow.
    pub open spec fn refines(self, wider: HardwareParameters) -> bool {
        &&& self.access.within(wider.access)
        &&& self.format.within(wider.format)
        &&& self.subformat.within(wider.subformat)
        &&& self.sample_bits.within(wider.sample_bits)
        &&& self.frame_bits.within(wider.frame_bits)
        &&& self.channels.within(wider.channels)
        &&& self.rate.within(wider.rate)
        &&& self.period_time.within(wider.period_time)
        &&& self.period_size.within(wider.period_size)
        &&& self.period_bytes.within(wider.period_bytes)
        &&& self.periods.within(wider.periods)
        &&& self.buffer_time.within(wider.buffer_time)
        &&& self.buffer_size.within(wider.buffer_size)
        &&& self.buffer_bytes.within(wider.buffer_bytes)
        &&& self.tick_time.within(wider.tick_time)
    }

    /// The request for one stream: interleaved access, exactly the sample
    /// format of the bit depth, the standard subformat, exact sample bits,
    /// frame bits, channel count and rate, a period of 256 to 16384 frames,
    /// 2 to 8 periods, and everything else left open.
    pub open spec fn is_for_stream(self, sample_rate: u32, channels: u16, bits: u16) -> bool {
        let code = format_code_spec(bits);
        &&& self.access@ == one_word(0, 9)
        &&& self.format@ == one_word(code as int / 32, 1u32 << (code % 32))
        &&& self.subformat@ == one_word(0, 1)
        &&& self.sample_bits == (Interval { min: bits as u32, max: bits as u32 })
        &&& self.frame_bits == (Interval {
            min: (bits * channels) as u32,
            max: (bits * channels) as u32,
        })
        &&& self.channels == (Interval { min: channels as u32, max: channels as u32 })
        &&& self.rate == (Interval { min: sample_rate, max: sample_rate })
        &&& self.period_time == (Interval { min: 0, max: u32::MAX })
        &&& self.period_size == (Interval { min: 256, max: 16384 })
        &&& self.period_bytes == (Interval { min: 0, max: u32::MAX })
        &&& self.periods == (Interval { min: 2, max: 8 })
        &&& self.buffer_time == (Interval { min: 0, max: u32::MAX })
        &&& self.buffer_size == (Interval { min: 0, max: u32::MAX })
        &&& self.buffer_bytes == (Interval { min: 0, max: u32::MAX })
        &&& self.tick_time == (Interval { min: 0, max: u32::MAX })
        &&& self.refine == REFINE_ALL
    }

    /// The request that accepts everything: where narrowing starts.
    pub fn any() -> (p: HardwareParameters)
        ensures
            p.is_any(),
    {
        HardwareParameters {
            access: Mask::any(),
            format: Mask::any(),
            subformat: Mask::any(),
            sample_bits: Interval::any(),
            frame_bits: Interval::any(),
            channels: Interval::any(),
            rate: Interval::any(),
            period_time: Interval::any(),
            period_size: Interval::any(),
            period_bytes: Interval::any(),
            periods: Interval::any(),
            buffer_time: Interval::any(),
            buffer_size: Interval::any(),
            buffer_bytes: Interval::any(),
            tick_time: Interval::any(),
            refine: REFINE_ALL,
        }
    }

    /// Builds the request for a decoded stream by narrowing `any()`.
    pub fn for_stream(sample_rate: u32, channels: u16, bits: u16) -> (p: HardwareParameters)
        ensures
            p.is_for_stream(sample_rate, channels, bits),
    {
        let mut p = HardwareParameters::any();
        p.access = Mask::pair(ACCESS_MMAP_INTERLEAVED, ACCESS_RW_INTERLEAVED);
        assert((1u32 << 0u32) | (1u32 << 3u32) == 9u32) by (bit_vector);
        p.format = Mask::single(format_code(bits));
        p.subformat = Mask::single(SUBFORMAT_STD);
        assert(1u32 << 0u32 == 1u32) by (bit_vector);
        let sample_bits: u32 = bits as u32;
        assert(bits * channels <= 0xFFFF * 0xFFFF) by (nonlinear_arith)
            requires
                bits <= 0xFFFF,
                channels <= 0xFFFF,
        ;
        let frame_bits: u32 = sample_bits * (channels as u32);
        p.sample_bits = Interval::exactly(sample_bits);
        p.frame_bits = Interval::exactly(frame_bits);
        p.channels = Interval::exactly(channels as u32);
        p.rate = Interval::exactly(sample_rate);
        p.period_size = Interval::between(256, 16384);
        p.periods = Interval::between(2, 8);
        p
    }
}

/// The request that hands the kernel a record of hardware parameters and
/// takes it back refined.
pub const HW_PARAMS_REQUEST: u32 = 0xC260_4111;

/// The request that prepares the device for playback.
pub const PREPARE_REQUEST: u32 = 0x0000_4140;

/// A request number as Linux builds it: the direction of the transfer in the
/// top two bits, the size of the record below them, then the letter of the
/// subsystem and the number of the request.
pub open spec fn request_number(direction: int, size: int, letter: int, number: int) -> int {
    direction * 0x4000_0000 + size * 0x1_0000 + letter * 0x100 + number
}

/// The two requests are what Linux makes of them for the sound subsystem,
/// letter `A`: request 0x11 moves a record of 608 bytes both ways, request
/// 0x40 moves nothing.
pub proof fn lemma_request_numbers()
    ensures
        HW_PARAMS_REQUEST == request_number(3, KERNEL_RECORD_LEN as int, 0x41, 0x11),
        PREPARE_REQUEST == request_number(0, 0, 0x41, 0x40),
{
}

/// Size of the kernel's record of PCM hardware parameters, in bytes.
pub const KERNEL_RECORD_LEN: usize = 608;

/// Size of the same record in 32-bit words.
pub const KERNEL_RECORD_WORDS: usize = 152;

/// Word `k` of the kernel's record for a request, as laid out on 64-bit
/// Linux: the flags; three masks of eight words; five reserved masks, fully
/// set; twelve intervals of three words, which are the minimum, the
/// maximum and the interval's own flags; nine reserved intervals, fully
/// open; the refine mask; and 23 words that the kernel fills in or that are
/// reserved, all zero.
pub open spec fn kernel_word(p: HardwareParameters, k: int) -> u32 {
    if k == 0 {
        0
    } else if k < 9 {
        p.access@[k - 1]
    } else if k < 17 {
        p.format@[k - 9]
    } else if k < 25 {
        p.subformat@[k - 17]
    } else if k < 65 {
        0xFFFF_FFFF
    } else if k < 101 {
        let interval = p.interval((k - 65) / 3);
        if (k - 65) % 3 == 0 {
            interval.min
        } else if (k - 65) % 3 == 1 {
            interval.max
        } else {
            0
        }
    } else if k < 128 {
        if (k - 101) % 3 == 1 {
            0xFFFF_FFFF
        } else {
            0
        }
    } else if k == 128 {
        p.refine
    } else {
        0
    }
}

/// Byte `i` of a word, lowest first.
pub open spec fn word_byte(w: u32, i: int) -> u8 {
    if i == 0 {
        (w % 256) as u8
    } else if i == 1 {
        (w / 256 % 256) as u8
    } else if i == 2 {
        (w / 65536 % 256) as u8
    } else {
        (w / 16777216) as u8
    }
}

/// The kernel's record for a request, byte by byte.
pub open spec fn kernel_record(p: HardwareParameters) -> Seq<u8> {
    Seq::new(KERNEL_RECORD_LEN as nat, |i: int| word_byte(kernel_word(p, i / 4), i % 4))
}

impl HardwareParameters {
    /// Interval number `i` in the kernel's order: sample bits, frame bits,
    /// channels, rate, period time, period size, period bytes, periods,
    /// buffer time, buffer size, buffer bytes, tick time.
    pub open spec fn interval(self, i: int) -> Interval {
        if i == 0 {
            self.sample_bits
        } else if i == 1 {
            self.frame_bits
        } else if i == 2 {
            self.channels
        } else if i == 3 {
            self.rate
        } else if i == 4 {
            self.period_time
        } else if i == 5 {
            self.period_size
        } else if i == 6 {
            self.period_bytes
        } else if i == 7 {
            self.periods
        } else if i == 8 {
            self.buffer_time
        } else if i == 9 {
            self.buffer_size
        } else if i == 10 {
            self.buffer_bytes
        } else {
            self.tick_time
        }
    }

    fn interval_at(&self, i: usize) -> (interval: Interval)
        ensures
            interval == self.interval(i as int),
    {
        match i {
            0 => self.sample_bits,
            1 => self.frame_bits,
            2 => self.channels,
            3 => self.rate,
            4 => self.period_time,
            5 => self.period_size,
            6 => self.period_bytes,
            7 => self.periods,
            8 => self.buffer_time,
            9 => self.buffer_size,
            10 => self.buffer_bytes,
            _ => self.tick_time,
        }
    }

    fn word_at(&self, k: usize) -> (w: u32)
        requires
            k < KERNEL_RECORD_WORDS,
        ensures
            w == kernel_word(*self, k as int),
    {
        if k == 0 {
            0
        } else if k < 9 {
            self.access.words[k - 1]
        } else if k < 17 {
            self.format.words[k - 9]
        } else if k < 25 {
            self.subformat.words[k - 17]
        } else if k < 65 {
            0xFFFF_FFFF
        } else if k < 101 {
            let interval = self.interval_at((k - 65) / 3);
            let part: usize = (k - 65) % 3;
            if part == 0 {
                interval.min
            } else if part == 1 {
                interval.max
            } else {
                0
            }
        } else if k < 128 {
            if (k - 101) % 3 == 1 {
                0xFFFF_FFFF
            } else {
                0
            }
        } else if k == 128 {
            self.refine
        } else {
            0
        }
    }

    /// The request as the kernel takes it: 608 bytes, every field a
    /// little-endian word at its place.
    pub fn to_kernel_record(&self) -> (bytes: Vec<u8>)
        ensures
            bytes@ == kernel_record(*self),
            bytes@.len() == KERNEL_RECORD_LEN,
    {
        let mut bytes: Vec<u8> = Vec::with_capacity(KERNEL_RECORD_LEN);
        let mut k: usize = 0;
        while k < KERNEL_RECORD_WORDS
            invariant
                k <= KERNEL_RECORD_WORDS,
                bytes@.len() == 4 * k,
                forall|i: int|
                    0 <= i < 4 * k ==> bytes@[i] == word_byte(kernel_word(*self, i / 4), i % 4),
            decreases KERNEL_RECORD_WORDS - k,
        {
            let w: u32 = self.word_at(k);
            bytes.push((w % 256) as u8);
            bytes.push((w / 256 % 256) as u8);
            bytes.push((w / 65536 % 256) as u8);
            bytes.push((w / 16777216) as u8);
            k = k + 1;
        }
        assert(bytes@ =~= kernel_record(*self));
        bytes
    }
}

/// Where the masks of a request stand in the kernel's record: the flags at
/// byte 0, the access mask at byte 4, the format mask at 36, the subformat
/// mask at 68, and the refine mask at 512. Read back as little-endian
/// words, they are the request's own values.
pub proof fn lemma_kernel_masks(p: HardwareParameters, w: int)
    requires
        0 <= w < 8,
    ensures
        kernel_record(p).len() == 608,
        crate::bytes::le32(kernel_record(p), 0) == 0,
        crate::bytes::le32(kernel_record(p), 4 + 4 * w) == p.access@[w],
        crate::bytes::le32(kernel_record(p), 36 + 4 * w) == p.format@[w],
        crate::bytes::le32(kernel_record(p), 68 + 4 * w) == p.subformat@[w],
        crate::bytes::le32(kernel_record(p), 512) == p.refine,
{
    lemma_word_at(p, 0);
    lemma_word_at(p, 1 + w);
    lemma_word_at(p, 9 + w);
    lemma_word_at(p, 17 + w);
    lemma_word_at(p, 128);
}

/// Where the intervals of a request stand in the kernel's record: interval
/// `i` at byte `260 + 12 * i`, its minimum first, its maximum next, and a
/// word of zero behind them.
pub proof fn lemma_kernel_intervals(p: HardwareParameters, i: int)
    requires
        0 <= i < 12,
    ensures
        crate::bytes::le32(kernel_record(p), 260 + 12 * i) == p.interval(i).min,
        crate::bytes::le32(kernel_record(p), 264 + 12 * i) == p.interval(i).max,
        crate::bytes::le32(kernel_record(p), 268 + 12 * i) == 0,
{
    let k = 65 + 3 * i;
    assert((k - 65) / 3 == i && (k - 65) % 3 == 0);
    assert((k + 1 - 65) / 3 == i && (k + 1 - 65) % 3 == 1);
    assert((k + 2 - 65) / 3 == i && (k + 2 - 65) % 3 == 2);
    assert(kernel_word(p, k) == p.interval(i).min);
    assert(kernel_word(p, k + 1) == p.interval(i).max);
    assert(kernel_word(p, k + 2) == 0);
    lemma_word_at(p, k);
    lemma_word_at(p, k + 1);
    lemma_word_at(p, k + 2);
}

/// The four bytes of word `k` of the record read back as that word.
pub proof fn lemma_word_at(p: HardwareParameters, k: int)
    requires
        0 <= k < 152,
    ensures
        crate::bytes::le32(kernel_record(p), 4 * k) == kernel_word(p, k),
{
    let r = kernel_record(p);
    let w = kernel_word(p, k);
    assert(r[4 * k] == word_byte(w, 0));
    assert(r[4 * k + 1] == word_byte(w, 1));
    assert(r[4 * k + 2] == word_byte(w, 2));
    assert(r[4 * k + 3] == word_byte(w, 3));
    assert(w == (w % 256) + 256 * (w / 256 % 256) + 65536 * (w / 65536 % 256) + 16777216 * (w
        / 16777216));
}

/// A single-bit mask has that bit and no other.
pub proof fn lemma_single_bit(m: Mask, bit: int, other: int)
    requires
        0 <= bit < 256,
        0 <= other < 256,
        m@ == one_word(bit / 32, 1u32 << ((bit % 32) as u32)),
    ensures
        m.has(other) <==> other == bit,
{
    let s: u32 = (bit % 32) as u32;
    let t: u32 = (other % 32) as u32;
    assert(s < 32 && t < 32 ==> ((((1u32 << s) >> t) & 1 == 1) <==> s == t)) by (bit_vector);
    assert((0u32 >> t) & 1 == 0) by (bit_vector);
}

/// The request for a stream asks for nothing that the fully open request
/// does not allow: it is a refinement of `any()`.
pub proof fn lemma_stream_refines_any(
    p: HardwareParameters,
    open: HardwareParameters,
    sample_rate: u32,
    channels: u16,
    bits: u16,
)
    requires
        p.is_for_stream(sample_rate, channels, bits),
        open.is_any(),
    ensures
        p.refines(open),
{
    assert forall|w: u32| #[trigger] (w & !0xFFFF_FFFFu32) == 0 by {
        assert(w & !0xFFFF_FFFFu32 == 0) by (bit_vector);
    }
    assert(p.access.within(open.access));
    assert(p.format.within(open.format));
    assert(p.subformat.within(open.subformat));
}

} // verus!
