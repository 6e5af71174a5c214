// Audio, video, AAC and AVC payload decoding: exact field values,
// packed-bit unpacking, sign extension, and size handling.

use flavors::parser::{
    audio_data, audio_data_header, video_data, video_data_header, aac_audio_packet,
    aac_audio_packet_header, avc_video_packet, avc_video_packet_header, tag_data, AudioData,
    AudioDataHeader, VideoData, VideoDataHeader, AACAudioPacket, AACAudioPacketHeader,
    AVCVideoPacket, AVCVideoPacketHeader, AACPacketType, AVCPacketType, SoundFormat, SoundRate,
    SoundSize, SoundType, FrameType, CodecId, TagType, TagData, ParseResult, ParseError,
};

#[test]
fn audio_header_bit_unpacking() {
    // AAC (10), 44 kHz (3), 16-bit (1), stereo (1): 1010 11 1 1.
    assert_eq!(
        audio_data_header(&[0xaf]),
        ParseResult::Complete(
            AudioDataHeader {
                sound_format: SoundFormat::AAC,
                sound_rate: SoundRate::_44KHZ,
                sound_size: SoundSize::Snd16bit,
                sound_type: SoundType::SndStereo,
            },
            1,
        )
    );
    // PCM native (0), 5.5 kHz (0), 8-bit (0), mono (0).
    assert_eq!(
        audio_data_header(&[0x00]),
        ParseResult::Complete(
            AudioDataHeader {
                sound_format: SoundFormat::PCM_NE,
                sound_rate: SoundRate::_5_5KHZ,
                sound_size: SoundSize::Snd8bit,
                sound_type: SoundType::SndMono,
            },
            1,
        )
    );
    assert_eq!(audio_data_header(&[]), ParseResult::Incomplete(1));
    // Format code 9 is undefined.
    assert_eq!(
        audio_data_header(&[0x90]),
        ParseResult::Failure(ParseError::UnknownSoundFormat)
    );
}

#[test]
fn audio_data_bounds() {
    let payload = [0x1a, 1, 2, 3];
    // Only the declared size is consumed; trailing bytes are not read.
    assert_eq!(
        audio_data(&payload, 3),
        ParseResult::Complete(
            AudioData {
                sound_format: SoundFormat::ADPCM,
                sound_rate: SoundRate::_22KHZ,
                sound_size: SoundSize::Snd16bit,
                sound_type: SoundType::SndMono,
                sound_data: vec![1, 2],
            },
            3,
        )
    );
    // Fewer bytes than declared: incomplete by the difference.
    assert_eq!(audio_data(&payload, 6), ParseResult::Incomplete(2));
}

#[test]
fn video_header_bit_unpacking() {
    // Inter frame (2), H.264 (7): 0010 0111.
    assert_eq!(
        video_data_header(&[0x27]),
        ParseResult::Complete(
            VideoDataHeader { frame_type: FrameType::Inter, codec_id: CodecId::H264 },
            1,
        )
    );
    assert_eq!(video_data_header(&[]), ParseResult::Incomplete(1));
    // Frame type 0 is undefined.
    assert_eq!(
        video_data_header(&[0x07]),
        ParseResult::Failure(ParseError::UnknownFrameType)
    );
    // Codec 0 is undefined; the frame type is judged first.
    assert_eq!(
        video_data_header(&[0x10]),
        ParseResult::Failure(ParseError::UnknownCodecId)
    );
}

#[test]
fn video_data_bounds() {
    let payload = [0x12, 9, 8, 7];
    assert_eq!(
        video_data(&payload, 4),
        ParseResult::Complete(
            VideoData {
                frame_type: FrameType::Key,
                codec_id: CodecId::SORENSON_H263,
                video_data: vec![9, 8, 7],
            },
            4,
        )
    );
    assert_eq!(video_data(&payload, 10), ParseResult::Incomplete(6));
}

#[test]
fn aac_packets() {
    assert_eq!(
        aac_audio_packet_header(&[0]),
        ParseResult::Complete(
            AACAudioPacketHeader { packet_type: AACPacketType::SequenceHeader },
            1,
        )
    );
    assert_eq!(
        aac_audio_packet_header(&[1]),
        ParseResult::Complete(AACAudioPacketHeader { packet_type: AACPacketType::Raw }, 1)
    );
    assert_eq!(aac_audio_packet_header(&[]), ParseResult::Incomplete(1));
    assert_eq!(
        aac_audio_packet_header(&[2]),
        ParseResult::Failure(ParseError::UnknownAacPacketType)
    );

    assert_eq!(
        aac_audio_packet(&[1, 0xde, 0xad], 3),
        ParseResult::Complete(
            AACAudioPacket { packet_type: AACPacketType::Raw, aac_data: vec![0xde, 0xad] },
            3,
        )
    );
    assert_eq!(aac_audio_packet(&[1], 3), ParseResult::Incomplete(2));
    assert_eq!(aac_audio_packet(&[], 0), ParseResult::Failure(ParseError::ShortPayload));
}

#[test]
fn avc_packets() {
    // Composition time 0x000001 is +1.
    assert_eq!(
        avc_video_packet_header(&[1, 0, 0, 1]),
        ParseResult::Complete(
            AVCVideoPacketHeader { packet_type: AVCPacketType::NALU, composition_time: 1 },
            4,
        )
    );
    // Composition time 0xffffff sign-extends to -1.
    assert_eq!(
        avc_video_packet_header(&[0, 0xff, 0xff, 0xff]),
        ParseResult::Complete(
            AVCVideoPacketHeader {
                packet_type: AVCPacketType::SequenceHeader,
                composition_time: -1,
            },
            4,
        )
    );
    // Composition time 0x800000 is the most negative value.
    assert_eq!(
        avc_video_packet_header(&[2, 0x80, 0x00, 0x00]),
        ParseResult::Complete(
            AVCVideoPacketHeader {
                packet_type: AVCPacketType::EndOfSequence,
                composition_time: -8388608,
            },
            4,
        )
    );
    assert_eq!(avc_video_packet_header(&[1, 0]), ParseResult::Incomplete(2));
    assert_eq!(
        avc_video_packet_header(&[3, 0, 0, 0]),
        ParseResult::Failure(ParseError::UnknownAvcPacketType)
    );

    assert_eq!(
        avc_video_packet(&[1, 0, 0, 2, 0xaa, 0xbb], 6),
        ParseResult::Complete(
            AVCVideoPacket {
                packet_type: AVCPacketType::NALU,
                composition_time: 2,
                avc_data: vec![0xaa, 0xbb],
            },
            6,
        )
    );
    // A declared size under the 4-byte sub-header is a hard failure.
    assert_eq!(avc_video_packet(&[1, 0, 0], 3), ParseResult::Failure(ParseError::ShortPayload));
    assert_eq!(avc_video_packet(&[1, 0], 6), ParseResult::Incomplete(4));
}

#[test]
fn script_tag_data_consumes_declared_size() {
    // A script payload is not decoded further by the tag assembler, but
    // exactly the declared size is consumed.
    let payload = [1, 2, 3, 4, 5];
    assert_eq!(
        tag_data(TagType::Script, 5, &payload),
        ParseResult::Complete(TagData::Script, 5)
    );
    assert_eq!(tag_data(TagType::Script, 8, &payload), ParseResult::Incomplete(3));
}
