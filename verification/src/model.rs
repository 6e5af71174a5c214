//! The byte-level grammar, written as specification functions.
//!
//! Every decoder outcome is a [`SpecParse`]: a decoded value together with
//! the exact number of bytes consumed, a minimum count of further bytes
//! needed, or a typed failure.  The executable decoders in
//! [`crate::parser`] each ensure that their result is precisely what the
//! specification function here returns on the same bytes, so these
//! definitions are the single source of truth for the wire format.

use vstd::prelude::*;
use vstd::utf8::valid_utf8;
use crate::fields::{be_u16, be_u24, be_u32, be_u64, be_i16, be_i24};
use crate::parser::{
    Header, TagType, TagHeader, ParseError, SoundFormat, SoundRate, SoundSize, SoundType,
    AACPacketType, AACAudioPacketHeader, AudioDataHeader, FrameType, CodecId, AVCPacketType,
    AVCVideoPacketHeader, VideoDataHeader, ScriptDataDate, ScriptDataValue, ScriptDataObject,
    MAX_NESTING_DEPTH,
};

verus! {

/// Outcome of decoding at the specification level: a value and the exact
/// byte count consumed, a minimum count of additional bytes needed, or a
/// typed failure.
pub enum SpecParse<T> {
    Complete(T, nat),
    Incomplete(nat),
    Failure(ParseError),
}

/// Mathematical shape of a decoded audio payload.
pub struct SpecAudioData {
    pub sound_format: SoundFormat,
    pub sound_rate: SoundRate,
    pub sound_size: SoundSize,
    pub sound_type: SoundType,
    pub sound_data: Seq<u8>,
}

/// Mathematical shape of a decoded video payload.
pub struct SpecVideoData {
    pub frame_type: FrameType,
    pub codec_id: CodecId,
    pub video_data: Seq<u8>,
}

/// Mathematical shape of a decoded AAC packet.
pub struct SpecAACAudioPacket {
    pub packet_type: AACPacketType,
    pub aac_data: Seq<u8>,
}

/// Mathematical shape of a decoded AVC packet.
pub struct SpecAVCVideoPacket {
    pub packet_type: AVCPacketType,
    pub composition_time: i32,
    pub avc_data: Seq<u8>,
}

/// Mathematical shape of a decoded tag payload.
pub enum SpecTagData {
    Audio(SpecAudioData),
    Video(SpecVideoData),
    Script,
}

/// Mathematical shape of a complete decoded tag.
pub struct SpecTag {
    pub header: TagHeader,
    pub data: SpecTagData,
}

/// Mathematical shape of a decoded metadata value.
pub enum SpecScriptDataValue {
    Number(u64),
    Boolean(bool),
    String(Seq<u8>),
    Object(Seq<SpecScriptDataObject>),
    MovieClip(Seq<u8>),
    Null,
    Undefined,
    Reference(u16),
    ECMAArray(Seq<SpecScriptDataObject>),
    StrictArray(Seq<SpecScriptDataValue>),
    Date(ScriptDataDate),
    LongString(Seq<u8>),
}

/// Mathematical shape of a named metadata entry.
pub struct SpecScriptDataObject {
    pub name: Seq<u8>,
    pub data: SpecScriptDataValue,
}

/// Mathematical shape of a decoded metadata record.
pub struct SpecScriptData {
    pub name: Seq<u8>,
    pub arguments: SpecScriptDataValue,
}

// ------------------------------------------------------------------
// Views of the executable metadata values.
// ------------------------------------------------------------------

/// The mathematical value held by an executable metadata value.
pub open spec fn view_script_data_value(v: ScriptDataValue) -> SpecScriptDataValue
    decreases v,
{
    match v {
        ScriptDataValue::Number(n) => SpecScriptDataValue::Number(n),
        ScriptDataValue::Boolean(b) => SpecScriptDataValue::Boolean(b),
        ScriptDataValue::String(s) => SpecScriptDataValue::String(s@),
        ScriptDataValue::Object(objs) => SpecScriptDataValue::Object(view_script_data_objects(objs@)),
        ScriptDataValue::MovieClip(s) => SpecScriptDataValue::MovieClip(s@),
        ScriptDataValue::Null => SpecScriptDataValue::Null,
        ScriptDataValue::Undefined => SpecScriptDataValue::Undefined,
        ScriptDataValue::Reference(r) => SpecScriptDataValue::Reference(r),
        ScriptDataValue::ECMAArray(objs) => SpecScriptDataValue::ECMAArray(view_script_data_objects(objs@)),
        ScriptDataValue::StrictArray(vals) => SpecScriptDataValue::StrictArray(view_script_data_values(vals@)),
        ScriptDataValue::Date(d) => SpecScriptDataValue::Date(d),
        ScriptDataValue::LongString(s) => SpecScriptDataValue::LongString(s@),
    }
}

/// The mathematical values held by a sequence of executable entries.
pub open spec fn view_script_data_objects(s: Seq<ScriptDataObject>) -> Seq<SpecScriptDataObject>
    decreases s,
{
    if s.len() == 0 {
        Seq::empty()
    } else {
        seq![view_script_data_object(s[0])] + view_script_data_objects(s.drop_first())
    }
}

/// The mathematical value held by an executable named entry.
pub open spec fn view_script_data_object(o: ScriptDataObject) -> SpecScriptDataObject
    decreases o,
{
    SpecScriptDataObject { name: o.name@, data: view_script_data_value(o.data) }
}

/// The mathematical values held by a sequence of executable bare values.
pub open spec fn view_script_data_values(s: Seq<ScriptDataValue>) -> Seq<SpecScriptDataValue>
    decreases s,
{
    if s.len() == 0 {
        Seq::empty()
    } else {
        seq![view_script_data_value(s[0])] + view_script_data_values(s.drop_first())
    }
}

/// The entry list view agrees with viewing each entry in place.
pub proof fn lemma_view_objects_pointwise(s: Seq<ScriptDataObject>)
    ensures
        view_script_data_objects(s).len() == s.len(),
        forall|i: int|
            0 <= i < s.len() ==> #[trigger] view_script_data_objects(s)[i]
                == view_script_data_object(s[i]),
    decreases s.len(),
{
    if s.len() != 0 {
        lemma_view_objects_pointwise(s.drop_first());
        assert forall|i: int|
            0 <= i < s.len() implies #[trigger] view_script_data_objects(s)[i]
            == view_script_data_object(s[i]) by {
            if i > 0 {
                assert(s.drop_first()[i - 1] == s[i]);
            }
        };
    }
}

/// The bare value list view agrees with viewing each value in place.
pub proof fn lemma_view_values_pointwise(s: Seq<ScriptDataValue>)
    ensures
        view_script_data_values(s).len() == s.len(),
        forall|i: int|
            0 <= i < s.len() ==> #[trigger] view_script_data_values(s)[i]
                == view_script_data_value(s[i]),
    decreases s.len(),
{
    if s.len() != 0 {
        lemma_view_values_pointwise(s.drop_first());
        assert forall|i: int|
            0 <= i < s.len() implies #[trigger] view_script_data_values(s)[i]
            == view_script_data_value(s[i]) by {
            if i > 0 {
                assert(s.drop_first()[i - 1] == s[i]);
            }
        };
    }
}

// ------------------------------------------------------------------
// Fixed-layout decoders.
// ------------------------------------------------------------------

/// Decodes the 9-byte file header: the 3-byte signature `"FLV"`, a
/// version byte, a flags byte (bit 2: audio present, bit 0: video
/// present), and the 4-byte offset of the tag stream.
pub open spec fn spec_header(s: Seq<u8>) -> SpecParse<Header> {
    if s.len() < 9 {
        SpecParse::Incomplete((9 - s.len()) as nat)
    } else if !(s[0] == 0x46 && s[1] == 0x4c && s[2] == 0x56) {
        SpecParse::Failure(ParseError::SignatureMismatch)
    } else {
        SpecParse::Complete(
            Header {
                version: s[3],
                audio: s[4] & 0x04 == 0x04,
                video: s[4] & 0x01 == 0x01,
                offset: be_u32(s.subrange(5, 9)),
            },
            9,
        )
    }
}

/// The tag type named by a type code, if the code is one of the three
/// the format defines.
pub open spec fn spec_tag_type(code: u8) -> Option<TagType> {
    if code == 8 {
        Some(TagType::Audio)
    } else if code == 9 {
        Some(TagType::Video)
    } else if code == 18 {
        Some(TagType::Script)
    } else {
        None
    }
}

/// Decodes the 11-byte tag envelope: type code, 24-bit payload size,
/// 24-bit timestamp base plus 8-bit timestamp extension (bits 24-31),
/// and 24-bit stream id.
pub open spec fn spec_tag_header(s: Seq<u8>) -> SpecParse<TagHeader> {
    if s.len() < 11 {
        SpecParse::Incomplete((11 - s.len()) as nat)
    } else {
        match spec_tag_type(s[0]) {
            None => SpecParse::Failure(ParseError::UnknownTagType),
            Some(tag_type) => SpecParse::Complete(
                TagHeader {
                    tag_type,
                    data_size: be_u24(s.subrange(1, 4)),
                    timestamp: (s[7] * 0x100_0000 + be_u24(s.subrange(4, 7))) as u32,
                    stream_id: be_u24(s.subrange(8, 11)),
                },
                11,
            ),
        }
    }
}

/// The sound format named by a 4-bit code, if the code is defined.
pub open spec fn spec_sound_format(code: u8) -> Option<SoundFormat> {
    if code == 0 {
        Some(SoundFormat::PCM_NE)
    } else if code == 1 {
        Some(SoundFormat::ADPCM)
    } else if code == 2 {
        Some(SoundFormat::MP3)
    } else if code == 3 {
        Some(SoundFormat::PCM_LE)
    } else if code == 4 {
        Some(SoundFormat::NELLYMOSER_16KHZ_MONO)
    } else if code == 5 {
        Some(SoundFormat::NELLYMOSER_8KHZ_MONO)
    } else if code == 6 {
        Some(SoundFormat::NELLYMOSER)
    } else if code == 7 {
        Some(SoundFormat::PCM_ALAW)
    } else if code == 8 {
        Some(SoundFormat::PCM_ULAW)
    } else if code == 10 {
        Some(SoundFormat::AAC)
    } else if code == 11 {
        Some(SoundFormat::SPEEX)
    } else if code == 14 {
        Some(SoundFormat::MP3_8KHZ)
    } else if code == 15 {
        Some(SoundFormat::DEVICE_SPECIFIC)
    } else {
        None
    }
}

/// The sound rate named by a 2-bit code.
pub open spec fn spec_sound_rate(code: u8) -> SoundRate
    recommends
        code < 4,
{
    if code == 0 {
        SoundRate::_5_5KHZ
    } else if code == 1 {
        SoundRate::_11KHZ
    } else if code == 2 {
        SoundRate::_22KHZ
    } else {
        SoundRate::_44KHZ
    }
}

/// The fields packed into the leading audio byte: format (4 bits), rate
/// (2 bits), sample size (1 bit), channel count (1 bit), most
/// significant bit first.
pub open spec fn spec_audio_data_header(s: Seq<u8>) -> SpecParse<AudioDataHeader> {
    if s.len() < 1 {
        SpecParse::Incomplete(1)
    } else {
        match spec_sound_format(s[0] >> 4) {
            None => SpecParse::Failure(ParseError::UnknownSoundFormat),
            Some(sound_format) => SpecParse::Complete(
                AudioDataHeader {
                    sound_format,
                    sound_rate: spec_sound_rate((s[0] >> 2) & 0x03),
                    sound_size: if (s[0] >> 1) & 0x01 == 0 {
                        SoundSize::Snd8bit
                    } else {
                        SoundSize::Snd16bit
                    },
                    sound_type: if s[0] & 0x01 == 0 {
                        SoundType::SndMono
                    } else {
                        SoundType::SndStereo
                    },
                },
                1,
            ),
        }
    }
}

/// Decodes an audio payload of the declared size: the packed leading
/// byte, then the remaining `size - 1` bytes as the sound data.  A
/// declared size of zero cannot hold the mandatory leading byte and is a
/// hard failure, not an incomplete read.
pub open spec fn spec_audio_data(s: Seq<u8>, size: nat) -> SpecParse<SpecAudioData> {
    if s.len() < size {
        SpecParse::Incomplete((size - s.len()) as nat)
    } else if size < 1 {
        SpecParse::Failure(ParseError::ShortPayload)
    } else {
        match spec_audio_data_header(s) {
            SpecParse::Complete(h, _) => SpecParse::Complete(
                SpecAudioData {
                    sound_format: h.sound_format,
                    sound_rate: h.sound_rate,
                    sound_size: h.sound_size,
                    sound_type: h.sound_type,
                    sound_data: s.subrange(1, size as int),
                },
                size,
            ),
            SpecParse::Incomplete(k) => SpecParse::Incomplete(k),
            SpecParse::Failure(e) => SpecParse::Failure(e),
        }
    }
}

/// The frame type named by a 4-bit code, if the code is defined.
pub open spec fn spec_frame_type(code: u8) -> Option<FrameType> {
    if code == 1 {
        Some(FrameType::Key)
    } else if code == 2 {
        Some(FrameType::Inter)
    } else if code == 3 {
        Some(FrameType::DisposableInter)
    } else if code == 4 {
        Some(FrameType::Generated)
    } else if code == 5 {
        Some(FrameType::Command)
    } else {
        None
    }
}

/// The video codec named by a 4-bit code, if the code is defined.
pub open spec fn spec_codec_id(code: u8) -> Option<CodecId> {
    if code == 1 {
        Some(CodecId::JPEG)
    } else if code == 2 {
        Some(CodecId::SORENSON_H263)
    } else if code == 3 {
        Some(CodecId::SCREEN)
    } else if code == 4 {
        Some(CodecId::VP6)
    } else if code == 5 {
        Some(CodecId::VP6A)
    } else if code == 6 {
        Some(CodecId::SCREEN2)
    } else if code == 7 {
        Some(CodecId::H264)
    } else if code == 8 {
        Some(CodecId::H263)
    } else if code == 9 {
        Some(CodecId::MPEG4Part2)
    } else {
        None
    }
}

/// The fields packed into the leading video byte: frame type (4 bits)
/// then codec id (4 bits), most significant bit first.
pub open spec fn spec_video_data_header(s: Seq<u8>) -> SpecParse<VideoDataHeader> {
    if s.len() < 1 {
        SpecParse::Incomplete(1)
    } else {
        match spec_frame_type(s[0] >> 4) {
            None => SpecParse::Failure(ParseError::UnknownFrameType),
            Some(frame_type) => match spec_codec_id(s[0] & 0x0f) {
                None => SpecParse::Failure(ParseError::UnknownCodecId),
                Some(codec_id) => SpecParse::Complete(
                    VideoDataHeader { frame_type, codec_id },
                    1,
                ),
            },
        }
    }
}

/// Decodes a video payload of the declared size: the packed leading
/// byte, then the remaining `size - 1` bytes as the video data.  A
/// declared size of zero is a hard failure.
pub open spec fn spec_video_data(s: Seq<u8>, size: nat) -> SpecParse<SpecVideoData> {
    if s.len() < size {
        SpecParse::Incomplete((size - s.len()) as nat)
    } else if size < 1 {
        SpecParse::Failure(ParseError::ShortPayload)
    } else {
        match spec_video_data_header(s) {
            SpecParse::Complete(h, _) => SpecParse::Complete(
                SpecVideoData {
                    frame_type: h.frame_type,
                    codec_id: h.codec_id,
                    video_data: s.subrange(1, size as int),
                },
                size,
            ),
            SpecParse::Incomplete(k) => SpecParse::Incomplete(k),
            SpecParse::Failure(e) => SpecParse::Failure(e),
        }
    }
}

/// The AAC packet type named by a code, if the code is defined.
pub open spec fn spec_aac_packet_type(code: u8) -> Option<AACPacketType> {
    if code == 0 {
        Some(AACPacketType::SequenceHeader)
    } else if code == 1 {
        Some(AACPacketType::Raw)
    } else {
        None
    }
}

/// Decodes the 1-byte AAC packet header.
pub open spec fn spec_aac_audio_packet_header(s: Seq<u8>) -> SpecParse<AACAudioPacketHeader> {
    if s.len() < 1 {
        SpecParse::Incomplete(1)
    } else {
        match spec_aac_packet_type(s[0]) {
            None => SpecParse::Failure(ParseError::UnknownAacPacketType),
            Some(packet_type) => SpecParse::Complete(AACAudioPacketHeader { packet_type }, 1),
        }
    }
}

/// Decodes an AAC packet of the declared size: the 1-byte packet type,
/// then the remaining `size - 1` bytes as the AAC data.
pub open spec fn spec_aac_audio_packet(s: Seq<u8>, size: nat) -> SpecParse<SpecAACAudioPacket> {
    if s.len() < size {
        SpecParse::Incomplete((size - s.len()) as nat)
    } else if size < 1 {
        SpecParse::Failure(ParseError::ShortPayload)
    } else {
        match spec_aac_packet_type(s[0]) {
            None => SpecParse::Failure(ParseError::UnknownAacPacketType),
            Some(packet_type) => SpecParse::Complete(
                SpecAACAudioPacket { packet_type, aac_data: s.subrange(1, size as int) },
                size,
            ),
        }
    }
}

/// The AVC packet type named by a code, if the code is defined.
pub open spec fn spec_avc_packet_type(code: u8) -> Option<AVCPacketType> {
    if code == 0 {
        Some(AVCPacketType::SequenceHeader)
    } else if code == 1 {
        Some(AVCPacketType::NALU)
    } else if code == 2 {
        Some(AVCPacketType::EndOfSequence)
    } else {
        None
    }
}

/// Decodes the 4-byte AVC packet header: packet type, then a signed
/// 24-bit composition time offset.
pub open spec fn spec_avc_video_packet_header(s: Seq<u8>) -> SpecParse<AVCVideoPacketHeader> {
    if s.len() < 4 {
        SpecParse::Incomplete((4 - s.len()) as nat)
    } else {
        match spec_avc_packet_type(s[0]) {
            None => SpecParse::Failure(ParseError::UnknownAvcPacketType),
            Some(packet_type) => SpecParse::Complete(
                AVCVideoPacketHeader { packet_type, composition_time: be_i24(s.subrange(1, 4)) },
                4,
            ),
        }
    }
}

/// Decodes an AVC packet of the declared size: the 4-byte packet
/// header, then the remaining `size - 4` bytes as the AVC data.  A
/// declared size under 4 cannot hold the header and is a hard failure.
pub open spec fn spec_avc_video_packet(s: Seq<u8>, size: nat) -> SpecParse<SpecAVCVideoPacket> {
    if s.len() < size {
        SpecParse::Incomplete((size - s.len()) as nat)
    } else if size < 4 {
        SpecParse::Failure(ParseError::ShortPayload)
    } else {
        match spec_avc_packet_type(s[0]) {
            None => SpecParse::Failure(ParseError::UnknownAvcPacketType),
            Some(packet_type) => SpecParse::Complete(
                SpecAVCVideoPacket {
                    packet_type,
                    composition_time: be_i24(s.subrange(1, 4)),
                    avc_data: s.subrange(4, size as int),
                },
                size,
            ),
        }
    }
}

/// Dispatches a tag payload of the declared size on the tag type.  The
/// declared size is authoritative: fewer available bytes are reported as
/// incomplete before any field parse, and a successful decode consumes
/// exactly `size` bytes whatever the payload kind.  Script payloads are
/// not decoded further here.
pub open spec fn spec_tag_data(tag_type: TagType, size: nat, s: Seq<u8>) -> SpecParse<SpecTagData> {
    if s.len() < size {
        SpecParse::Incomplete((size - s.len()) as nat)
    } else {
        match tag_type {
            TagType::Audio => match spec_audio_data(s, size) {
                SpecParse::Complete(a, c) => SpecParse::Complete(SpecTagData::Audio(a), c),
                SpecParse::Incomplete(k) => SpecParse::Incomplete(k),
                SpecParse::Failure(e) => SpecParse::Failure(e),
            },
            TagType::Video => match spec_video_data(s, size) {
                SpecParse::Complete(v, c) => SpecParse::Complete(SpecTagData::Video(v), c),
                SpecParse::Incomplete(k) => SpecParse::Incomplete(k),
                SpecParse::Failure(e) => SpecParse::Failure(e),
            },
            TagType::Script => SpecParse::Complete(SpecTagData::Script, size),
        }
    }
}

/// Decodes one whole tag: the 11-byte envelope, then the payload, whose
/// declared size bounds the read.  A successful decode consumes exactly
/// `11 + data_size` bytes.
pub open spec fn spec_complete_tag(s: Seq<u8>) -> SpecParse<SpecTag> {
    if s.len() < 11 {
        SpecParse::Incomplete((11 - s.len()) as nat)
    } else {
        match spec_tag_header(s) {
            SpecParse::Complete(h, _) => match spec_tag_data(
                h.tag_type,
                h.data_size as nat,
                s.skip(11),
            ) {
                SpecParse::Complete(d, c) => SpecParse::Complete(
                    SpecTag { header: h, data: d },
                    11 + c,
                ),
                SpecParse::Incomplete(k) => SpecParse::Incomplete(k),
                SpecParse::Failure(e) => SpecParse::Failure(e),
            },
            SpecParse::Incomplete(k) => SpecParse::Incomplete(k),
            SpecParse::Failure(e) => SpecParse::Failure(e),
        }
    }
}

// ------------------------------------------------------------------
// The recursive metadata value grammar.
// ------------------------------------------------------------------
//
// In the list decoders below, the recursion advances by the byte count
// the preceding element consumed.  That count always lies between 1 and
// the input length (the consumption lemmas further down prove it), but
// the termination measure is checked before those lemmas exist, so the
// recursion sits under an explicit range test whose other branch no
// decodable input reaches.

/// Decodes a short string: a 16-bit length prefix, then that many bytes
/// which must be valid UTF-8.
pub open spec fn spec_script_data_string(s: Seq<u8>) -> SpecParse<Seq<u8>> {
    if s.len() < 2 {
        SpecParse::Incomplete((2 - s.len()) as nat)
    } else {
        let n = be_u16(s.subrange(0, 2)) as int;
        if s.len() < 2 + n {
            SpecParse::Incomplete((2 + n - s.len()) as nat)
        } else if valid_utf8(s.subrange(2, 2 + n)) {
            SpecParse::Complete(s.subrange(2, 2 + n), (2 + n) as nat)
        } else {
            SpecParse::Failure(ParseError::InvalidUtf8)
        }
    }
}

/// Decodes a long string: a 32-bit length prefix, then that many bytes
/// which must be valid UTF-8.
pub open spec fn spec_script_data_long_string(s: Seq<u8>) -> SpecParse<Seq<u8>> {
    if s.len() < 4 {
        SpecParse::Incomplete((4 - s.len()) as nat)
    } else {
        let n = be_u32(s.subrange(0, 4)) as int;
        if s.len() < 4 + n {
            SpecParse::Incomplete((4 + n - s.len()) as nat)
        } else if valid_utf8(s.subrange(4, 4 + n)) {
            SpecParse::Complete(s.subrange(4, 4 + n), (4 + n) as nat)
        } else {
            SpecParse::Failure(ParseError::InvalidUtf8)
        }
    }
}

/// Decodes a date: the 8 raw bits-of-double bytes, then a signed 16-bit
/// local time offset.
pub open spec fn spec_script_data_date(s: Seq<u8>) -> SpecParse<ScriptDataDate> {
    if s.len() < 10 {
        SpecParse::Incomplete((10 - s.len()) as nat)
    } else {
        SpecParse::Complete(
            ScriptDataDate {
                date_time: be_u64(s.subrange(0, 8)),
                local_date_time_offset: be_i16(s.subrange(8, 10)),
            },
            10,
        )
    }
}

/// True when `s` begins with the 3-byte object list terminator.
pub open spec fn spec_is_object_end(s: Seq<u8>) -> bool {
    s.len() >= 3 && s[0] == 0 && s[1] == 0 && s[2] == 9
}

/// Decodes the 3-byte object list terminator.
pub open spec fn spec_script_data_object_end(s: Seq<u8>) -> SpecParse<()> {
    if s.len() < 3 {
        SpecParse::Incomplete((3 - s.len()) as nat)
    } else if spec_is_object_end(s) {
        SpecParse::Complete((), 3)
    } else {
        SpecParse::Failure(ParseError::NotObjectEnd)
    }
}

/// Decodes one metadata value: a 1-byte type marker, then the payload
/// that marker calls for.  `depth` counts the nesting levels above this
/// value; at [`MAX_NESTING_DEPTH`] decoding fails rather than recurse
/// further.
pub open spec fn spec_script_data_value(s: Seq<u8>, depth: nat) -> SpecParse<SpecScriptDataValue>
    decreases s.len(), 0int,
{
    if s.len() < 1 {
        SpecParse::Incomplete(1)
    } else if depth >= MAX_NESTING_DEPTH {
        SpecParse::Failure(ParseError::NestingTooDeep)
    } else if s[0] == 0 {
        if s.len() < 9 {
            SpecParse::Incomplete((9 - s.len()) as nat)
        } else {
            SpecParse::Complete(SpecScriptDataValue::Number(be_u64(s.subrange(1, 9))), 9)
        }
    } else if s[0] == 1 {
        if s.len() < 2 {
            SpecParse::Incomplete(1)
        } else {
            SpecParse::Complete(SpecScriptDataValue::Boolean(s[1] != 0), 2)
        }
    } else if s[0] == 2 {
        match spec_script_data_string(s.skip(1)) {
            SpecParse::Complete(b, c) => SpecParse::Complete(
                SpecScriptDataValue::String(b),
                1 + c,
            ),
            SpecParse::Incomplete(k) => SpecParse::Incomplete(k),
            SpecParse::Failure(e) => SpecParse::Failure(e),
        }
    } else if s[0] == 3 {
        match spec_script_data_objects(s.skip(1), depth + 1) {
            SpecParse::Complete(objs, c) => SpecParse::Complete(
                SpecScriptDataValue::Object(objs),
                1 + c,
            ),
            SpecParse::Incomplete(k) => SpecParse::Incomplete(k),
            SpecParse::Failure(e) => SpecParse::Failure(e),
        }
    } else if s[0] == 4 {
        match spec_script_data_string(s.skip(1)) {
            SpecParse::Complete(b, c) => SpecParse::Complete(
                SpecScriptDataValue::MovieClip(b),
                1 + c,
            ),
            SpecParse::Incomplete(k) => SpecParse::Incomplete(k),
            SpecParse::Failure(e) => SpecParse::Failure(e),
        }
    } else if s[0] == 5 {
        SpecParse::Complete(SpecScriptDataValue::Null, 1)
    } else if s[0] == 6 {
        SpecParse::Complete(SpecScriptDataValue::Undefined, 1)
    } else if s[0] == 7 {
        if s.len() < 3 {
            SpecParse::Incomplete((3 - s.len()) as nat)
        } else {
            SpecParse::Complete(SpecScriptDataValue::Reference(be_u16(s.subrange(1, 3))), 3)
        }
    } else if s[0] == 8 {
        match spec_script_data_ecma_array(s.skip(1), depth + 1) {
            SpecParse::Complete(objs, c) => SpecParse::Complete(
                SpecScriptDataValue::ECMAArray(objs),
                1 + c,
            ),
            SpecParse::Incomplete(k) => SpecParse::Incomplete(k),
            SpecParse::Failure(e) => SpecParse::Failure(e),
        }
    } else if s[0] == 10 {
        match spec_script_data_strict_array(s.skip(1), depth + 1) {
            SpecParse::Complete(vals, c) => SpecParse::Complete(
                SpecScriptDataValue::StrictArray(vals),
                1 + c,
            ),
            SpecParse::Incomplete(k) => SpecParse::Incomplete(k),
            SpecParse::Failure(e) => SpecParse::Failure(e),
        }
    } else if s[0] == 11 {
        match spec_script_data_date(s.skip(1)) {
            SpecParse::Complete(d, c) => SpecParse::Complete(SpecScriptDataValue::Date(d), 1 + c),
            SpecParse::Incomplete(k) => SpecParse::Incomplete(k),
            SpecParse::Failure(e) => SpecParse::Failure(e),
        }
    } else if s[0] == 12 {
        match spec_script_data_long_string(s.skip(1)) {
            SpecParse::Complete(b, c) => SpecParse::Complete(
                SpecScriptDataValue::LongString(b),
                1 + c,
            ),
            SpecParse::Incomplete(k) => SpecParse::Incomplete(k),
            SpecParse::Failure(e) => SpecParse::Failure(e),
        }
    } else {
        SpecParse::Failure(ParseError::UnknownValueMarker)
    }
}

/// Decodes one named entry: a length-prefixed name, then the value
/// bound to it.
pub open spec fn spec_script_data_object(s: Seq<u8>, depth: nat) -> SpecParse<SpecScriptDataObject>
    decreases s.len(), 1int,
{
    match spec_script_data_string(s) {
        SpecParse::Complete(name, c1) => match spec_script_data_value(s.skip(c1 as int), depth) {
            SpecParse::Complete(v, c2) => SpecParse::Complete(
                SpecScriptDataObject { name, data: v },
                c1 + c2,
            ),
            SpecParse::Incomplete(k) => SpecParse::Incomplete(k),
            SpecParse::Failure(e) => SpecParse::Failure(e),
        },
        SpecParse::Incomplete(k) => SpecParse::Incomplete(k),
        SpecParse::Failure(e) => SpecParse::Failure(e),
    }
}

/// Decodes a named entry list: entries repeat until the 3 bytes at the
/// front are the literal terminator, which is consumed and excluded
/// from the result.  Input exhausted before the terminator appears is
/// an incomplete read, never a failure: the terminator may simply not
/// have arrived yet.
pub open spec fn spec_script_data_objects(s: Seq<u8>, depth: nat) -> SpecParse<
    Seq<SpecScriptDataObject>,
>
    decreases s.len(), 2int,
{
    if spec_is_object_end(s) {
        SpecParse::Complete(Seq::empty(), 3)
    } else {
        match spec_script_data_object(s, depth) {
            SpecParse::Complete(o, c) => if 1 <= c <= s.len() {
                match spec_script_data_objects(s.skip(c as int), depth) {
                    SpecParse::Complete(rest, c2) => SpecParse::Complete(seq![o] + rest, c + c2),
                    SpecParse::Incomplete(k) => SpecParse::Incomplete(k),
                    SpecParse::Failure(e) => SpecParse::Failure(e),
                }
            } else {
                // Unreachable: a complete entry consumes between 3 bytes
                // and the whole input.
                SpecParse::Incomplete(1)
            },
            SpecParse::Incomplete(k) => SpecParse::Incomplete(k),
            SpecParse::Failure(e) => SpecParse::Failure(e),
        }
    }
}

/// Decodes exactly `n` bare values, one after another, with no
/// terminator.  Input exhausted before the count is met is an
/// incomplete read.
pub open spec fn spec_strict_values(s: Seq<u8>, n: nat, depth: nat) -> SpecParse<
    Seq<SpecScriptDataValue>,
>
    decreases s.len(), 1int,
{
    if n == 0 {
        SpecParse::Complete(Seq::empty(), 0)
    } else {
        match spec_script_data_value(s, depth) {
            SpecParse::Complete(v, c) => if 1 <= c <= s.len() {
                match spec_strict_values(s.skip(c as int), (n - 1) as nat, depth) {
                    SpecParse::Complete(rest, c2) => SpecParse::Complete(seq![v] + rest, c + c2),
                    SpecParse::Incomplete(k) => SpecParse::Incomplete(k),
                    SpecParse::Failure(e) => SpecParse::Failure(e),
                }
            } else {
                // Unreachable: a complete value consumes between 1 byte
                // and the whole input.
                SpecParse::Incomplete(1)
            },
            SpecParse::Incomplete(k) => SpecParse::Incomplete(k),
            SpecParse::Failure(e) => SpecParse::Failure(e),
        }
    }
}

/// Decodes an ECMA array payload: a 32-bit entry count that the format
/// leaves advisory and the decoder ignores, then a terminated entry
/// list.
pub open spec fn spec_script_data_ecma_array(s: Seq<u8>, depth: nat) -> SpecParse<
    Seq<SpecScriptDataObject>,
>
    decreases s.len(), 1int,
{
    if s.len() < 4 {
        SpecParse::Incomplete((4 - s.len()) as nat)
    } else {
        match spec_script_data_objects(s.skip(4), depth) {
            SpecParse::Complete(objs, c) => SpecParse::Complete(objs, 4 + c),
            SpecParse::Incomplete(k) => SpecParse::Incomplete(k),
            SpecParse::Failure(e) => SpecParse::Failure(e),
        }
    }
}

/// Decodes a strict array payload: a 32-bit count, then exactly that
/// many bare values.
pub open spec fn spec_script_data_strict_array(s: Seq<u8>, depth: nat) -> SpecParse<
    Seq<SpecScriptDataValue>,
>
    decreases s.len(), 1int,
{
    if s.len() < 4 {
        SpecParse::Incomplete((4 - s.len()) as nat)
    } else {
        match spec_strict_values(s.skip(4), be_u32(s.subrange(0, 4)) as nat, depth) {
            SpecParse::Complete(vals, c) => SpecParse::Complete(vals, 4 + c),
            SpecParse::Incomplete(k) => SpecParse::Incomplete(k),
            SpecParse::Failure(e) => SpecParse::Failure(e),
        }
    }
}

/// Decodes a whole metadata record: the top-level value must be a
/// string (its marker byte comes first), giving the record's name, and
/// is followed by one argument value.
pub open spec fn spec_script_data(s: Seq<u8>) -> SpecParse<SpecScriptData> {
    if s.len() < 1 {
        SpecParse::Incomplete(1)
    } else if s[0] != 2 {
        SpecParse::Failure(ParseError::NameNotString)
    } else {
        match spec_script_data_string(s.skip(1)) {
            SpecParse::Complete(name, c1) => match spec_script_data_value(
                s.skip(1 + c1 as int),
                0,
            ) {
                SpecParse::Complete(v, c2) => SpecParse::Complete(
                    SpecScriptData { name, arguments: v },
                    1 + c1 + c2,
                ),
                SpecParse::Incomplete(k) => SpecParse::Incomplete(k),
                SpecParse::Failure(e) => SpecParse::Failure(e),
            },
            SpecParse::Incomplete(k) => SpecParse::Incomplete(k),
            SpecParse::Failure(e) => SpecParse::Failure(e),
        }
    }
}

// ------------------------------------------------------------------
// Consumption bounds.
// ------------------------------------------------------------------

/// A complete value decode consumes between 1 byte and the whole input.
pub proof fn lemma_script_data_value_len(s: Seq<u8>, depth: nat)
    ensures
        match spec_script_data_value(s, depth) {
            SpecParse::Complete(_, c) => 1 <= c <= s.len(),
            _ => true,
        },
    decreases s.len(), 0int,
{
    if depth >= MAX_NESTING_DEPTH || s.len() < 1 {
    } else if s[0] == 3 {
        lemma_script_data_objects_len(s.skip(1), depth + 1);
    } else if s[0] == 8 {
        lemma_script_data_ecma_array_len(s.skip(1), depth + 1);
    } else if s[0] == 10 {
        lemma_script_data_strict_array_len(s.skip(1), depth + 1);
    }
}

/// A complete entry decode consumes between 3 bytes and the whole
/// input: at least a 2-byte name prefix and a 1-byte value marker.
pub proof fn lemma_script_data_object_len(s: Seq<u8>, depth: nat)
    ensures
        match spec_script_data_object(s, depth) {
            SpecParse::Complete(_, c) => 3 <= c <= s.len(),
            _ => true,
        },
    decreases s.len(), 1int,
{
    if let SpecParse::Complete(name, c1) = spec_script_data_string(s) {
        lemma_script_data_value_len(s.skip(c1 as int), depth);
    }
}

/// A complete entry list decode consumes between 3 bytes (the bare
/// terminator) and the whole input.
pub proof fn lemma_script_data_objects_len(s: Seq<u8>, depth: nat)
    ensures
        match spec_script_data_objects(s, depth) {
            SpecParse::Complete(_, c) => 3 <= c <= s.len(),
            _ => true,
        },
    decreases s.len(), 2int,
{
    if spec_is_object_end(s) {
    } else {
        lemma_script_data_object_len(s, depth);
        if let SpecParse::Complete(o, c) = spec_script_data_object(s, depth) {
            lemma_script_data_objects_len(s.skip(c as int), depth);
        }
    }
}

/// A complete run of `n` bare values consumes at most the whole input.
pub proof fn lemma_strict_values_len(s: Seq<u8>, n: nat, depth: nat)
    ensures
        match spec_strict_values(s, n, depth) {
            SpecParse::Complete(_, c) => c <= s.len(),
            _ => true,
        },
    decreases s.len(), 1int,
{
    if n == 0 {
    } else {
        lemma_script_data_value_len(s, depth);
        if let SpecParse::Complete(v, c) = spec_script_data_value(s, depth) {
            lemma_strict_values_len(s.skip(c as int), (n - 1) as nat, depth);
        }
    }
}

/// A complete ECMA array decode consumes between 7 bytes and the whole
/// input.
pub proof fn lemma_script_data_ecma_array_len(s: Seq<u8>, depth: nat)
    ensures
        match spec_script_data_ecma_array(s, depth) {
            SpecParse::Complete(_, c) => 7 <= c <= s.len(),
            _ => true,
        },
    decreases s.len(), 1int,
{
    if s.len() >= 4 {
        lemma_script_data_objects_len(s.skip(4), depth);
    }
}

/// A complete strict array decode consumes between 4 bytes and the
/// whole input.
pub proof fn lemma_script_data_strict_array_len(s: Seq<u8>, depth: nat)
    ensures
        match spec_script_data_strict_array(s, depth) {
            SpecParse::Complete(_, c) => 4 <= c <= s.len(),
            _ => true,
        },
    decreases s.len(), 1int,
{
    if s.len() >= 4 {
        lemma_strict_values_len(s.skip(4), be_u32(s.subrange(0, 4)) as nat, depth);
    }
}

} // verus!
