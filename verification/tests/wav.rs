use nebula::wav::{parse_wav_header, FormatError, WavInfo};

fn canonical(channels: u16, rate: u32, bits: u16, payload: &[u8]) -> Vec<u8> {
    let mut v: Vec<u8> = Vec::new();
    v.extend_from_slice(b"RIFF");
    v.extend_from_slice(&((36 + payload.len()) as u32).to_le_bytes());
    v.extend_from_slice(b"WAVE");
    v.extend_from_slice(b"fmt ");
    v.extend_from_slice(&16u32.to_le_bytes());
    v.extend_from_slice(&1u16.to_le_bytes());
    v.extend_from_slice(&channels.to_le_bytes());
    v.extend_from_slice(&rate.to_le_bytes());
    let block = channels * (bits / 8);
    v.extend_from_slice(&(rate * block as u32).to_le_bytes());
    v.extend_from_slice(&block.to_le_bytes());
    v.extend_from_slice(&bits.to_le_bytes());
    v.extend_from_slice(b"data");
    v.extend_from_slice(&(payload.len() as u32).to_le_bytes());
    v.extend_from_slice(payload);
    v
}

#[test]
fn minimal_header_round_trips() {
    let wav = canonical(2, 44100, 16, &[0u8; 8]);
    assert_eq!(wav.len(), 52);
    let info = parse_wav_header(&wav).unwrap();
    assert_eq!(
        (info.channels, info.sample_rate, info.bits_per_sample),
        (2, 44100, 16)
    );
    assert_eq!(info.data_offset, 44);
    assert_eq!(info.data_len, 8);
}

#[test]
fn header_of_exactly_44_bytes_is_accepted() {
    let wav = canonical(1, 8000, 8, &[]);
    assert_eq!(wav.len(), 44);
    assert_eq!(
        parse_wav_header(&wav),
        Ok(WavInfo {
            channels: 1,
            sample_rate: 8000,
            bits_per_sample: 8,
            data_offset: 44,
            data_len: 0,
        })
    );
}

#[test]
fn short_buffer_is_rejected() {
    let wav = canonical(2, 44100, 16, &[]);
    assert_eq!(parse_wav_header(&wav[..43]), Err(FormatError::TooShort));
    assert_eq!(parse_wav_header(&[]), Err(FormatError::TooShort));
    assert_eq!(parse_wav_header(b"RIFF"), Err(FormatError::TooShort));
}

#[test]
fn missing_magic_is_rejected() {
    let mut wav = canonical(2, 44100, 16, &[0u8; 4]);
    wav[0] = b'X';
    assert_eq!(parse_wav_header(&wav), Err(FormatError::BadMagic));
    let mut wav = canonical(2, 44100, 16, &[0u8; 4]);
    wav[11] = b'F';
    assert_eq!(parse_wav_header(&wav), Err(FormatError::BadMagic));
    assert_eq!(parse_wav_header(&[0u8; 64]), Err(FormatError::BadMagic));
}

#[test]
fn unknown_chunks_are_skipped_with_padding() {
    let mut v: Vec<u8> = Vec::new();
    v.extend_from_slice(b"RIFF");
    v.extend_from_slice(&0u32.to_le_bytes());
    v.extend_from_slice(b"WAVE");
    v.extend_from_slice(b"fmt ");
    v.extend_from_slice(&16u32.to_le_bytes());
    v.extend_from_slice(&[1, 0, 1, 0]);
    v.extend_from_slice(&22050u32.to_le_bytes());
    v.extend_from_slice(&[0, 0, 0, 0, 3, 0, 24, 0]);
    // An odd-sized chunk: three bytes and one byte of padding.
    v.extend_from_slice(b"LIST");
    v.extend_from_slice(&3u32.to_le_bytes());
    v.extend_from_slice(&[7, 7, 7, 0]);
    v.extend_from_slice(b"data");
    v.extend_from_slice(&6u32.to_le_bytes());
    v.extend_from_slice(&[1, 2, 3, 4, 5, 6]);
    let info = parse_wav_header(&v).unwrap();
    assert_eq!(info.channels, 1);
    assert_eq!(info.sample_rate, 22050);
    assert_eq!(info.bits_per_sample, 24);
    assert_eq!(info.data_offset, 36 + 12 + 8);
    assert_eq!(info.data_len, 6);
    assert_eq!(&v[info.data_offset..], &[1, 2, 3, 4, 5, 6]);
}

#[test]
fn data_before_format_is_rejected() {
    let mut v: Vec<u8> = Vec::new();
    v.extend_from_slice(b"RIFF");
    v.extend_from_slice(&0u32.to_le_bytes());
    v.extend_from_slice(b"WAVE");
    v.extend_from_slice(b"data");
    v.extend_from_slice(&24u32.to_le_bytes());
    v.extend_from_slice(&[0u8; 24]);
    assert_eq!(v.len(), 44);
    assert_eq!(parse_wav_header(&v), Err(FormatError::MissingFormat));
}

#[test]
fn zero_sample_rate_is_rejected() {
    let wav = canonical(2, 0, 16, &[]);
    assert_eq!(parse_wav_header(&wav), Err(FormatError::MissingFormat));
}

#[test]
fn missing_data_chunk_is_rejected() {
    let mut wav = canonical(2, 44100, 16, &[0u8; 4]);
    wav[36..40].copy_from_slice(b"junk");
    assert_eq!(parse_wav_header(&wav), Err(FormatError::MissingData));
}

#[test]
fn oversized_chunk_ends_the_walk() {
    let mut wav = canonical(2, 44100, 16, &[0u8; 4]);
    wav[36..40].copy_from_slice(b"junk");
    wav[40..44].copy_from_slice(&u32::MAX.to_le_bytes());
    assert_eq!(parse_wav_header(&wav), Err(FormatError::MissingData));
}

#[test]
fn truncated_format_chunk_is_rejected() {
    let mut v: Vec<u8> = Vec::new();
    v.extend_from_slice(b"RIFF");
    v.extend_from_slice(&0u32.to_le_bytes());
    v.extend_from_slice(b"WAVE");
    v.extend_from_slice(b"LIST");
    v.extend_from_slice(&12u32.to_le_bytes());
    v.extend_from_slice(&[0u8; 12]);
    v.extend_from_slice(b"fmt ");
    v.extend_from_slice(&16u32.to_le_bytes());
    v.extend_from_slice(&[0u8; 4]);
    assert_eq!(v.len(), 44);
    assert_eq!(parse_wav_header(&v), Err(FormatError::TruncatedFormat));
}

#[test]
fn short_format_chunk_is_no_format() {
    let mut v: Vec<u8> = Vec::new();
    v.extend_from_slice(b"RIFF");
    v.extend_from_slice(&0u32.to_le_bytes());
    v.extend_from_slice(b"WAVE");
    v.extend_from_slice(b"fmt ");
    v.extend_from_slice(&14u32.to_le_bytes());
    v.extend_from_slice(&[1, 0, 2, 0, 0x44, 0xAC, 0, 0, 0, 0, 0, 0, 4, 0]);
    v.extend_from_slice(b"data");
    v.extend_from_slice(&2u32.to_le_bytes());
    v.extend_from_slice(&[0u8; 2]);
    assert_eq!(v.len(), 44);
    assert_eq!(parse_wav_header(&v), Err(FormatError::MissingFormat));
}

#[test]
fn declared_length_may_exceed_the_buffer() {
    let mut wav = canonical(2, 44100, 16, &[9u8; 4]);
    wav[40..44].copy_from_slice(&1000u32.to_le_bytes());
    let info = parse_wav_header(&wav).unwrap();
    assert_eq!(info.data_offset, 44);
    assert_eq!(info.data_len, 1000);
}

#[test]
fn later_format_chunk_wins() {
    let mut v: Vec<u8> = Vec::new();
    v.extend_from_slice(b"RIFF");
    v.extend_from_slice(&0u32.to_le_bytes());
    v.extend_from_slice(b"WAVE");
    for (ch, rate, bits) in [(1u16, 8000u32, 8u16), (2, 48000, 32)] {
        v.extend_from_slice(b"fmt ");
        v.extend_from_slice(&16u32.to_le_bytes());
        v.extend_from_slice(&1u16.to_le_bytes());
        v.extend_from_slice(&ch.to_le_bytes());
        v.extend_from_slice(&rate.to_le_bytes());
        v.extend_from_slice(&[0u8; 6]);
        v.extend_from_slice(&bits.to_le_bytes());
    }
    v.extend_from_slice(b"data");
    v.extend_from_slice(&0u32.to_le_bytes());
    let info = parse_wav_header(&v).unwrap();
    assert_eq!(
        (info.channels, info.sample_rate, info.bits_per_sample),
        (2, 48000, 32)
    );
    assert_eq!(info.data_offset, 12 + 24 + 24 + 8);
}

#[test]
fn errors_have_messages() {
    assert_eq!(FormatError::TooShort.message(), "shorter than a WAV header");
    assert_eq!(FormatError::BadMagic.message(), "no RIFF/WAVE magic");
    assert_eq!(FormatError::TruncatedFormat.message(), "fmt chunk cut off");
    assert_eq!(FormatError::MissingData.message(), "no data chunk");
    assert_eq!(FormatError::MissingFormat.message(), "no fmt chunk before the data");
}
