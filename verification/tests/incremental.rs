// The incremental-decoding contract: truncated prefixes of a valid tag
// report exactly the missing byte count, re-decoding is lossless and
// repeatable, and a zero-size audio or video payload is a hard failure.

use flavors::parser::{
    complete_tag, tag_header, audio_data, video_data, Tag, TagHeader, TagData, TagType,
    AudioData, SoundFormat, SoundRate, SoundSize, SoundType, ParseResult, ParseError,
};

fn audio_tag_bytes() -> Vec<u8> {
    // An audio tag with a 5-byte payload: 11 + 5 = 16 bytes in all.
    let mut out: Vec<u8> = vec![8, 0, 0, 5, 0, 0, 0, 0, 0, 0, 0];
    out.extend([0x1a, 10, 20, 30, 40]);
    out
}

fn expected_audio_tag() -> Tag {
    Tag {
        header: TagHeader { tag_type: TagType::Audio, data_size: 5, timestamp: 0, stream_id: 0 },
        data: TagData::Audio(AudioData {
            sound_format: SoundFormat::ADPCM,
            sound_rate: SoundRate::_22KHZ,
            sound_size: SoundSize::Snd16bit,
            sound_type: SoundType::SndMono,
            sound_data: vec![10, 20, 30, 40],
        }),
    }
}

#[test]
fn truncated_tag_reports_missing_bytes() {
    let bytes = audio_tag_bytes();
    let required: usize = bytes.len();
    for n in 0..required {
        let expected = if n < 11 { 11 - n } else { required - n };
        assert_eq!(complete_tag(&bytes[..n]), ParseResult::Incomplete(expected));
    }
    assert_eq!(complete_tag(&bytes), ParseResult::Complete(expected_audio_tag(), 16));
}

#[test]
fn redecoding_full_bytes_succeeds_identically() {
    // Decoding after a partial attempt sees the same bytes and returns
    // the same tag; trailing garbage past the declared size changes
    // nothing.
    let bytes = audio_tag_bytes();
    assert_eq!(complete_tag(&bytes[..7]), ParseResult::Incomplete(4));
    assert_eq!(complete_tag(&bytes), ParseResult::Complete(expected_audio_tag(), 16));
    let mut longer = bytes.clone();
    longer.extend([0xde, 0xad, 0xbe, 0xef]);
    assert_eq!(complete_tag(&longer), ParseResult::Complete(expected_audio_tag(), 16));
}

#[test]
fn decoding_twice_gives_equal_results() {
    let bytes = audio_tag_bytes();
    assert_eq!(complete_tag(&bytes), complete_tag(&bytes));
    let truncated = &bytes[..9];
    assert_eq!(complete_tag(truncated), complete_tag(truncated));
    assert_eq!(tag_header(&bytes), tag_header(&bytes));
}

#[test]
fn truncated_script_tag_reports_missing_bytes() {
    // A script tag consumes 11 + data_size bytes even though the
    // payload is not decoded here.
    let mut bytes: Vec<u8> = vec![18, 0, 0, 3, 0, 0, 0, 0, 0, 0, 0];
    bytes.extend([7, 7, 7]);
    for n in 11..14 {
        assert_eq!(complete_tag(&bytes[..n]), ParseResult::Incomplete(14 - n));
    }
    match complete_tag(&bytes) {
        ParseResult::Complete(tag, consumed) => {
            assert_eq!(consumed, 14);
            assert_eq!(tag.data, TagData::Script);
        },
        _ => unreachable!(),
    }
}

#[test]
fn zero_size_payload_fails_hard() {
    // data_size 0 cannot hold the mandatory leading byte: failure, not
    // an incomplete read.
    let audio_tag: Vec<u8> = vec![8, 0, 0, 0, 0, 0, 0, 0, 0, 0, 0];
    assert_eq!(complete_tag(&audio_tag), ParseResult::Failure(ParseError::ShortPayload));
    let video_tag: Vec<u8> = vec![9, 0, 0, 0, 0, 0, 0, 0, 0, 0, 0];
    assert_eq!(complete_tag(&video_tag), ParseResult::Failure(ParseError::ShortPayload));
    assert_eq!(audio_data(&[], 0), ParseResult::Failure(ParseError::ShortPayload));
    assert_eq!(video_data(&[], 0), ParseResult::Failure(ParseError::ShortPayload));
}

#[test]
fn arbitrary_bytes_always_return() {
    // Every entry point is total: whatever the bytes, the outcome is a
    // value, a byte count still needed, or a typed failure.
    let mut noise: Vec<u8> = Vec::new();
    let mut x: u8 = 3;
    for _ in 0..512 {
        noise.push(x);
        x = x.wrapping_mul(197).wrapping_add(41);
    }
    for n in 0..noise.len() {
        let slice = &noise[..n];
        let _ = flavors::parser::header(slice);
        let _ = tag_header(slice);
        let _ = complete_tag(slice);
        let _ = audio_data(slice, n);
        let _ = video_data(slice, n);
        let _ = flavors::parser::script_data(slice);
        let _ = flavors::parser::script_data_value(slice);
        let _ = flavors::parser::script_data_objects(slice);
    }
}

#[test]
fn tag_header_fields_and_failures() {
    // Timestamp reassembly: the extension byte holds bits 24 to 31.
    let bytes: Vec<u8> = vec![8, 0, 0, 1, 0xab, 0xcd, 0xef, 0x01, 0, 0, 2];
    assert_eq!(
        tag_header(&bytes),
        ParseResult::Complete(
            TagHeader {
                tag_type: TagType::Audio,
                data_size: 1,
                timestamp: 0x01abcdef,
                stream_id: 2,
            },
            11,
        )
    );
    // The format defines only type codes 8, 9 and 18.
    let bad: Vec<u8> = vec![7, 0, 0, 1, 0, 0, 0, 0, 0, 0, 0];
    assert_eq!(tag_header(&bad), ParseResult::Failure(ParseError::UnknownTagType));
    assert_eq!(complete_tag(&bad), ParseResult::Failure(ParseError::UnknownTagType));
    assert_eq!(tag_header(&bad[..4]), ParseResult::Incomplete(7));
}
