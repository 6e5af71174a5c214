// Tag decoding on reconstructions of well-known sample streams: the
// envelope bytes are fixed by the asserted field values, and compressed
// payload bodies are stood in for by filler, which the decoder hands
// back untouched.

use flavors::parser::{
    tag_header, audio_data, video_data, complete_tag, TagHeader, TagType, Tag, TagData,
    AudioData, VideoData, SoundFormat, SoundRate, SoundSize, SoundType, FrameType, CodecId,
    ScriptData, ScriptDataValue, ScriptDataObject, ParseResult, script_data,
};

fn tag_header_bytes(tag_type: u8, data_size: u32, timestamp: u32, stream_id: u32) -> Vec<u8> {
    let mut out: Vec<u8> = Vec::new();
    out.push(tag_type);
    out.push((data_size >> 16) as u8);
    out.push((data_size >> 8) as u8);
    out.push(data_size as u8);
    out.push((timestamp >> 16) as u8);
    out.push((timestamp >> 8) as u8);
    out.push(timestamp as u8);
    out.push((timestamp >> 24) as u8);
    out.push((stream_id >> 16) as u8);
    out.push((stream_id >> 8) as u8);
    out.push(stream_id as u8);
    out
}

fn filler(len: usize) -> Vec<u8> {
    let mut out: Vec<u8> = Vec::new();
    let mut x: u8 = 17;
    for _ in 0..len {
        out.push(x);
        x = x.wrapping_mul(31).wrapping_add(7);
    }
    out
}

#[test]
fn first_tag_headers() {
    // First tags of the three samples: two video tags of 537 and 2984
    // bytes, one script tag of 273 bytes, all at timestamp 0, stream 0.
    assert_eq!(
        tag_header(&tag_header_bytes(9, 537, 0, 0)),
        ParseResult::Complete(
            TagHeader { tag_type: TagType::Video, data_size: 537, timestamp: 0, stream_id: 0 },
            11,
        )
    );
    assert_eq!(
        tag_header(&tag_header_bytes(9, 2984, 0, 0)),
        ParseResult::Complete(
            TagHeader { tag_type: TagType::Video, data_size: 2984, timestamp: 0, stream_id: 0 },
            11,
        )
    );
    assert_eq!(
        tag_header(&tag_header_bytes(18, 273, 0, 0)),
        ParseResult::Complete(
            TagHeader { tag_type: TagType::Script, data_size: 273, timestamp: 0, stream_id: 0 },
            11,
        )
    );
}

#[test]
fn audio_tags() {
    assert_eq!(
        tag_header(&tag_header_bytes(8, 642, 0, 0)),
        ParseResult::Complete(
            TagHeader { tag_type: TagType::Audio, data_size: 642, timestamp: 0, stream_id: 0 },
            11,
        )
    );

    // ADPCM, 22 kHz, 16-bit, mono: format 1, rate 2, size 1, type 0,
    // packed most significant bit first.
    let mut payload: Vec<u8> = vec![0x1a];
    payload.extend(filler(641));
    assert_eq!(
        audio_data(&payload, 642),
        ParseResult::Complete(
            AudioData {
                sound_format: SoundFormat::ADPCM,
                sound_rate: SoundRate::_22KHZ,
                sound_size: SoundSize::Snd16bit,
                sound_type: SoundType::SndMono,
                sound_data: payload[1..642].to_vec(),
            },
            642,
        )
    );
}

#[test]
fn video_tags() {
    // Key frame, Sorenson H.263: frame type 1, codec 2.
    let mut payload: Vec<u8> = vec![0x12];
    payload.extend(filler(536));
    assert_eq!(
        video_data(&payload, 537),
        ParseResult::Complete(
            VideoData {
                frame_type: FrameType::Key,
                codec_id: CodecId::SORENSON_H263,
                video_data: payload[1..537].to_vec(),
            },
            537,
        )
    );

    let mut payload2: Vec<u8> = vec![0x12];
    payload2.extend(filler(2983));
    assert_eq!(
        video_data(&payload2, 2984),
        ParseResult::Complete(
            VideoData {
                frame_type: FrameType::Key,
                codec_id: CodecId::SORENSON_H263,
                video_data: payload2[1..2984].to_vec(),
            },
            2984,
        )
    );
}

fn push_short_string(out: &mut Vec<u8>, s: &str) {
    out.push((s.len() >> 8) as u8);
    out.push(s.len() as u8);
    out.extend(s.as_bytes());
}

fn push_number_entry(out: &mut Vec<u8>, name: &str, value: f64) {
    push_short_string(out, name);
    out.push(0);
    out.extend(value.to_be_bytes());
}

fn number(value: f64) -> ScriptDataValue {
    ScriptDataValue::Number(value.to_bits())
}

fn entry(name: &str, data: ScriptDataValue) -> ScriptDataObject {
    ScriptDataObject { name: name.as_bytes().to_vec(), data }
}

#[test]
fn script_tags() {
    // The 273-byte metadata payload of a sample stream: an
    // "onMetaData" record holding an ECMA array of ten numbers and one
    // string, terminated by the end marker.
    let mut bytes: Vec<u8> = vec![2];
    push_short_string(&mut bytes, "onMetaData");
    bytes.push(8);
    bytes.extend(11u32.to_be_bytes());
    push_number_entry(&mut bytes, "duration", 28.133);
    push_number_entry(&mut bytes, "width", 464.0);
    push_number_entry(&mut bytes, "height", 348.0);
    push_number_entry(&mut bytes, "videodatarate", 368.0);
    push_number_entry(&mut bytes, "framerate", 30.0);
    push_number_entry(&mut bytes, "videocodecid", 4.0);
    push_number_entry(&mut bytes, "audiodatarate", 56.0);
    push_number_entry(&mut bytes, "audiodelay", 0.0);
    push_number_entry(&mut bytes, "audiocodecid", 2.0);
    push_number_entry(&mut bytes, "canSeekToEnd", 1.0);
    push_short_string(&mut bytes, "creationdate");
    bytes.push(2);
    push_short_string(&mut bytes, "Thu Oct 04 18:37:42 2007\n");
    bytes.extend([0, 0, 9]);
    assert_eq!(bytes.len(), 273);

    match script_data(&bytes) {
        ParseResult::Complete(decoded, consumed) => {
            assert_eq!(consumed, 273);
            assert_eq!(
                decoded,
                ScriptData {
                    name: b"onMetaData".to_vec(),
                    arguments: ScriptDataValue::ECMAArray(vec![
                        entry("duration", number(28.133)),
                        entry("width", number(464.0)),
                        entry("height", number(348.0)),
                        entry("videodatarate", number(368.0)),
                        entry("framerate", number(30.0)),
                        entry("videocodecid", number(4.0)),
                        entry("audiodatarate", number(56.0)),
                        entry("audiodelay", number(0.0)),
                        entry("audiocodecid", number(2.0)),
                        entry("canSeekToEnd", number(1.0)),
                        entry(
                            "creationdate",
                            ScriptDataValue::String(
                                b"Thu Oct 04 18:37:42 2007\n".to_vec(),
                            ),
                        ),
                    ]),
                }
            );
        },
        _ => unreachable!(),
    }
}

#[test]
fn complete_video_tags() {
    let mut bytes = tag_header_bytes(9, 537, 0, 0);
    let mut payload: Vec<u8> = vec![0x12];
    payload.extend(filler(536));
    bytes.extend(&payload);
    assert_eq!(
        complete_tag(&bytes),
        ParseResult::Complete(
            Tag {
                header: TagHeader {
                    tag_type: TagType::Video,
                    data_size: 537,
                    timestamp: 0,
                    stream_id: 0,
                },
                data: TagData::Video(VideoData {
                    frame_type: FrameType::Key,
                    codec_id: CodecId::SORENSON_H263,
                    video_data: payload[1..537].to_vec(),
                }),
            },
            548,
        )
    );

    let mut bytes2 = tag_header_bytes(9, 2984, 0, 0);
    let mut payload2: Vec<u8> = vec![0x12];
    payload2.extend(filler(2983));
    bytes2.extend(&payload2);
    assert_eq!(
        complete_tag(&bytes2),
        ParseResult::Complete(
            Tag {
                header: TagHeader {
                    tag_type: TagType::Video,
                    data_size: 2984,
                    timestamp: 0,
                    stream_id: 0,
                },
                data: TagData::Video(VideoData {
                    frame_type: FrameType::Key,
                    codec_id: CodecId::SORENSON_H263,
                    video_data: payload2[1..2984].to_vec(),
                }),
            },
            2995,
        )
    );
}
