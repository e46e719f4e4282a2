//! The minimal RIFF/WAVE container: magic, a walk over the chunks, the `fmt `
//! fields and the place of the PCM payload.

use vstd::prelude::*;
use crate::bytes::{le16, le32, read_le16, read_le32};

verus! {

/// Shortest buffer that can hold the canonical header.
pub const MIN_HEADER_LEN: usize = 44;

/// Offset of the first chunk, right behind `RIFF`, the size and `WAVE`.
pub const FIRST_CHUNK: usize = 12;

/// What a WAV container says about its PCM payload.
#[derive(Clone, Copy, Debug, PartialEq, Eq, Structural)]
pub struct WavInfo {
    pub channels: u16,
    pub sample_rate: u32,
    pub bits_per_sample: u16,
    /// Offset of the first payload byte in the buffer.
    pub data_offset: usize,
    /// Payload length as the `data` chunk declares it; it may exceed what
    /// the buffer really holds.
    pub data_len: usize,
}

/// Why a buffer is not a playable WAV container.
#[derive(Clone, Copy, Debug, PartialEq, Eq, Structural)]
pub enum FormatError {
    /// Fewer than 44 bytes.
    TooShort,
    /// `RIFF` or `WAVE` is not where it belongs.
    BadMagic,
    /// A `fmt ` chunk announces 16 bytes or more but the buffer ends first.
    TruncatedFormat,
    /// The chunks end without a `data` chunk.
    MissingData,
    /// The `data` chunk comes before any `fmt ` chunk with a sample rate.
    MissingFormat,
}

impl FormatError {
    /// What is wrong, in words.
    pub open spec fn message_spec(self) -> Seq<char> {
        match self {
            FormatError::TooShort => "shorter than a WAV header"@,
            FormatError::BadMagic => "no RIFF/WAVE magic"@,
            FormatError::TruncatedFormat => "fmt chunk cut off"@,
            FormatError::MissingData => "no data chunk"@,
            FormatError::MissingFormat => "no fmt chunk before the data"@,
        }
    }

    /// What is wrong, in words.
    pub fn message(&self) -> (text: &'static str)
        ensures
            text@ == self.message_spec(),
    {
        match self {
            FormatError::TooShort => "shorter than a WAV header",
            FormatError::BadMagic => "no RIFF/WAVE magic",
            FormatError::TruncatedFormat => "fmt chunk cut off",
            FormatError::MissingData => "no data chunk",
            FormatError::MissingFormat => "no fmt chunk before the data",
        }
    }
}

/// The three `fmt ` fields that playback needs.
#[derive(Clone, Copy, Debug, PartialEq, Eq, Structural)]
pub struct FormatFields {
    pub channels: u16,
    pub sample_rate: u32,
    pub bits_per_sample: u16,
}

/// The four bytes at `at` are `a b c d`.
pub open spec fn tag_at(s: Seq<u8>, at: int, a: u8, b: u8, c: u8, d: u8) -> bool {
    s[at] == a && s[at + 1] == b && s[at + 2] == c && s[at + 3] == d
}

/// `RIFF` at 0 and `WAVE` at 8.
pub open spec fn has_magic(s: Seq<u8>) -> bool {
    tag_at(s, 0, 0x52, 0x49, 0x46, 0x46) && tag_at(s, 8, 0x57, 0x41, 0x56, 0x45)
}

/// The chunk at `pos` is tagged `data`.
pub open spec fn is_data_chunk(s: Seq<u8>, pos: int) -> bool {
    tag_at(s, pos, 0x64, 0x61, 0x74, 0x61)
}

/// The chunk at `pos` is tagged `fmt ` and announces at least 16 bytes.
pub open spec fn is_format_chunk(s: Seq<u8>, pos: int) -> bool {
    tag_at(s, pos, 0x66, 0x6d, 0x74, 0x20) && le32(s, pos + 4) >= 16
}

/// Where the chunk after the one at `pos` starts: behind the 8-byte chunk
/// header and the declared size, rounded up to an even offset.
pub open spec fn next_chunk(s: Seq<u8>, pos: int) -> int {
    let end = pos + 8 + le32(s, pos + 4);
    if end % 2 == 0 {
        end
    } else {
        end + 1
    }
}

/// The fields of the `fmt ` chunk at `pos`.
pub open spec fn format_at(s: Seq<u8>, pos: int) -> FormatFields {
    FormatFields {
        channels: le16(s, pos + 10) as u16,
        sample_rate: le32(s, pos + 12) as u32,
        bits_per_sample: le16(s, pos + 22) as u16,
    }
}

/// No `fmt ` chunk seen yet.
pub open spec fn no_format() -> FormatFields {
    FormatFields { channels: 0, sample_rate: 0, bits_per_sample: 0 }
}

/// How many bytes lie at or behind `pos`.
pub open spec fn bytes_left(s: Seq<u8>, pos: int) -> nat {
    if pos <= s.len() {
        (s.len() - pos) as nat
    } else {
        0
    }
}

/// The walk over the chunks from `pos` on, with `seen` the last `fmt ` fields
/// met so far. It stops at the first `data` chunk, at a `fmt ` chunk cut off
/// by the end of the buffer, or where no further chunk header fits.
pub open spec fn scan_chunks(s: Seq<u8>, pos: int, seen: FormatFields) -> Result<
    WavInfo,
    FormatError,
>
    decreases bytes_left(s, pos),
{
    if pos < 0 || pos + 8 > s.len() {
        Err(FormatError::MissingData)
    } else if is_data_chunk(s, pos) {
        if seen.sample_rate == 0 {
            Err(FormatError::MissingFormat)
        } else {
            Ok(
                WavInfo {
                    channels: seen.channels,
                    sample_rate: seen.sample_rate,
                    bits_per_sample: seen.bits_per_sample,
                    data_offset: #[verifier::truncate] ((pos + 8) as usize),
                    data_len: le32(s, pos + 4) as usize,
                },
            )
        }
    } else if is_format_chunk(s, pos) && pos + 24 > s.len() {
        Err(FormatError::TruncatedFormat)
    } else {
        scan_chunks(
            s,
            next_chunk(s, pos),
            if is_format_chunk(s, pos) {
                format_at(s, pos)
            } else {
                seen
            },
        )
    }
}

/// What a buffer decodes to.
pub open spec fn wav_spec(s: Seq<u8>) -> Result<WavInfo, FormatError> {
    if s.len() < 44 {
        Err(FormatError::TooShort)
    } else if !has_magic(s) {
        Err(FormatError::BadMagic)
    } else {
        scan_chunks(s, 12, no_format())
    }
}

/// The walk never answers `TooShort` or `BadMagic`: those are decided before
/// it starts.
pub proof fn lemma_scan_errors(s: Seq<u8>, pos: int, seen: FormatFields)
    ensures
        scan_chunks(s, pos, seen) != Err::<WavInfo, FormatError>(FormatError::TooShort),
        scan_chunks(s, pos, seen) != Err::<WavInfo, FormatError>(FormatError::BadMagic),
    decreases bytes_left(s, pos),
{
    if pos < 0 || pos + 8 > s.len() {
    } else if is_data_chunk(s, pos) {
    } else if is_format_chunk(s, pos) && pos + 24 > s.len() {
    } else {
        lemma_scan_errors(
            s,
            next_chunk(s, pos),
            if is_format_chunk(s, pos) {
                format_at(s, pos)
            } else {
                seen
            },
        );
    }
}

/// Where the walk succeeds, the payload offset lies right behind the header
/// of a `data` chunk inside the buffer, the payload length is the size that
/// header declares, and the sample rate is not zero.
pub proof fn lemma_scan_finds_data(s: Seq<u8>, pos: int, seen: FormatFields)
    requires
        0 <= pos,
        s.len() <= usize::MAX,
    ensures
        scan_chunks(s, pos, seen) matches Ok(info) ==> {
            &&& pos + 8 <= info.data_offset <= s.len()
            &&& is_data_chunk(s, info.data_offset - 8)
            &&& info.data_len == le32(s, info.data_offset - 4)
            &&& info.sample_rate != 0
        },
    decreases bytes_left(s, pos),
{
    if pos + 8 > s.len() {
    } else if is_data_chunk(s, pos) {
    } else if is_format_chunk(s, pos) && pos + 24 > s.len() {
    } else {
        lemma_scan_finds_data(
            s,
            next_chunk(s, pos),
            if is_format_chunk(s, pos) {
                format_at(s, pos)
            } else {
                seen
            },
        );
    }
}

/// The canonical 44-byte header decodes to its own fields: with the magic in
/// place, a 16-byte `fmt ` chunk at offset 12 and the `data` chunk at offset
/// 36, the channel count, sample rate and bit depth are those at offsets 22,
/// 24 and 34, and the payload starts at offset 44.
pub proof fn lemma_canonical_header(s: Seq<u8>)
    requires
        44 <= s.len() <= usize::MAX,
        has_magic(s),
        tag_at(s, 12, 0x66, 0x6d, 0x74, 0x20),
        le32(s, 16) == 16,
        is_data_chunk(s, 36),
        le32(s, 24) != 0,
    ensures
        wav_spec(s) == Ok::<WavInfo, FormatError>(
            WavInfo {
                channels: le16(s, 22) as u16,
                sample_rate: le32(s, 24) as u32,
                bits_per_sample: le16(s, 34) as u16,
                data_offset: 44,
                data_len: le32(s, 40) as usize,
            },
        ),
{
    assert(!is_data_chunk(s, 12));
    assert(is_format_chunk(s, 12));
    assert(next_chunk(s, 12) == 36);
    assert(scan_chunks(s, 12, no_format()) == scan_chunks(s, 36, format_at(s, 12)));
}

fn has_tag(data: &[u8], at: usize, a: u8, b: u8, c: u8, d: u8) -> (yes: bool)
    requires
        at + 4 <= data@.len(),
    ensures
        yes == tag_at(data@, at as int, a, b, c, d),
{
    data[at] == a && data[at + 1] == b && data[at + 2] == c && data[at + 3] == d
}

/// Decodes the header of a WAV container.
///
/// Never panics: every buffer gets an answer, and the answer is the one
/// `wav_spec` gives. A buffer under 44 bytes is `TooShort`, a longer one
/// without `RIFF` and `WAVE` is `BadMagic`, and a payload offset that comes
/// back lies inside the buffer.
pub fn parse_wav_header(data: &[u8]) -> (res: Result<WavInfo, FormatError>)
    ensures
        res == wav_spec(data@),
        res == Err::<WavInfo, FormatError>(FormatError::TooShort) <==> data@.len() < 44,
        res == Err::<WavInfo, FormatError>(FormatError::BadMagic) <==> data@.len() >= 44
            && !has_magic(data@),
        res matches Ok(info) ==> 20 <= info.data_offset <= data@.len() && info.sample_rate != 0,
{
    proof {
        lemma_scan_errors(data@, 12, no_format());
    }
    let len: usize = data.len();
    if len < MIN_HEADER_LEN {
        return Err(FormatError::TooShort);
    }
    if !(has_tag(data, 0, 0x52, 0x49, 0x46, 0x46) && has_tag(data, 8, 0x57, 0x41, 0x56, 0x45)) {
        return Err(FormatError::BadMagic);
    }
    let mut pos: usize = FIRST_CHUNK;
    let mut seen = FormatFields { channels: 0, sample_rate: 0, bits_per_sample: 0 };
    while len - pos >= 8
        invariant
            len == data@.len(),
            12 <= pos <= len,
            wav_spec(data@) == scan_chunks(data@, pos as int, seen),
        decreases len - pos,
    {
        let size: u32 = read_le32(data, pos + 4);
        if has_tag(data, pos, 0x64, 0x61, 0x74, 0x61) {
            if seen.sample_rate == 0 {
                return Err(FormatError::MissingFormat);
            }
            return Ok(
                WavInfo {
                    channels: seen.channels,
                    sample_rate: seen.sample_rate,
                    bits_per_sample: seen.bits_per_sample,
                    data_offset: pos + 8,
                    data_len: size as usize,
                },
            );
        }
        if has_tag(data, pos, 0x66, 0x6d, 0x74, 0x20) && size >= 16 {
            if len - pos < 24 {
                return Err(FormatError::TruncatedFormat);
            }
            seen =
            FormatFields {
                channels: read_le16(data, pos + 10),
                sample_rate: read_le32(data, pos + 12),
                bits_per_sample: read_le16(data, pos + 22),
            };
        }
        let ghost after = next_chunk(data@, pos as int);
        assert(wav_spec(data@) == scan_chunks(data@, after, seen));
        let room: usize = len - pos - 8;
        if size as usize > room {
            assert(after + 8 > len);
            return Err(FormatError::MissingData);
        }
        let end: usize = pos + 8 + size as usize;
        if end % 2 != 0 {
            if end == len {
                assert(after + 8 > len);
                return Err(FormatError::MissingData);
            }
            pos = end + 1;
        } else {
            pos = end;
        }
    }
    Err(FormatError::MissingData)
}

} // verus!
