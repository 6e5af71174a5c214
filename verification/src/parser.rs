//! Executable decoders for the FLV container format.
//!
//! Each public decoder takes a byte slice and returns a [`ParseResult`]:
//! the decoded record together with the number of bytes consumed, the
//! minimum number of further bytes needed, or a typed [`ParseError`].
//! Every decoder is proved to return exactly what the corresponding
//! specification function in [`crate::model`] says about its input
//! bytes, so its outcome is a function of the bytes alone.
//!
//! Variable-length fields (sound data, video data, string contents) are
//! copied out of the input into owned buffers, so no decoded record
//! borrows the caller's buffer.  Floating-point wire fields (metadata
//! numbers and dates) are kept as their raw 64 big-endian bits.

use vstd::prelude::*;
use vstd::slice::{slice_subrange, slice_to_vec};
use crate::fields::{read_be_u16, read_be_u24, read_be_u32, read_be_u64, read_be_i16, read_be_i24};
use crate::model::{
    SpecParse, SpecAudioData, SpecVideoData, SpecAACAudioPacket, SpecAVCVideoPacket, SpecTagData,
    SpecTag, SpecScriptDataValue, SpecScriptDataObject, SpecScriptData, spec_header,
    spec_tag_type, spec_tag_header, spec_sound_format, spec_sound_rate, spec_audio_data_header,
    spec_audio_data, spec_frame_type, spec_codec_id, spec_video_data_header, spec_video_data,
    spec_aac_packet_type, spec_aac_audio_packet_header, spec_aac_audio_packet,
    spec_avc_packet_type, spec_avc_video_packet_header, spec_avc_video_packet, spec_tag_data,
    spec_complete_tag, view_script_data_value, view_script_data_object, spec_script_data_string,
    spec_script_data_long_string, spec_script_data_date, spec_is_object_end,
    spec_script_data_object_end, spec_script_data_value, spec_script_data_object,
    spec_script_data_objects, spec_strict_values, spec_script_data_ecma_array,
    spec_script_data_strict_array, spec_script_data, lemma_script_data_value_len,
    lemma_script_data_object_len, lemma_script_data_objects_len, lemma_strict_values_len,
    lemma_script_data_ecma_array_len, lemma_script_data_strict_array_len,
    lemma_view_objects_pointwise, lemma_view_values_pointwise, view_script_data_objects,
    view_script_data_values,
};
use crate::text::utf8_valid;

verus! {

/// Nesting levels of metadata values beyond which decoding fails with
/// [`ParseError::NestingTooDeep`] instead of recursing further.  The
/// wire format itself puts no bound on nesting; this bound hardens the
/// decoder against stack exhaustion on adversarial input.
pub const MAX_NESTING_DEPTH: u32 = 1000;

/// Why a decode attempt failed.  Failures are terminal for the attempt;
/// only an incomplete outcome is worth retrying with more bytes.
#[derive(Clone, Copy, Debug, PartialEq, Eq)]
pub enum ParseError {
    /// The first three header bytes are present but are not the file
    /// signature.
    SignatureMismatch,
    /// A tag type code other than audio, video, or script.
    UnknownTagType,
    /// An undefined 4-bit sound format code.
    UnknownSoundFormat,
    /// An undefined 4-bit frame type code.
    UnknownFrameType,
    /// An undefined 4-bit video codec code.
    UnknownCodecId,
    /// An undefined AAC packet type code.
    UnknownAacPacketType,
    /// An undefined AVC packet type code.
    UnknownAvcPacketType,
    /// An undefined metadata value type marker.
    UnknownValueMarker,
    /// String bytes that are not valid UTF-8.
    InvalidUtf8,
    /// A metadata record whose top-level name is not a string value.
    NameNotString,
    /// Bytes that are not the 3-byte object list terminator.
    NotObjectEnd,
    /// A declared payload size too small for the payload's mandatory
    /// leading fields.
    ShortPayload,
    /// Metadata values nested deeper than [`MAX_NESTING_DEPTH`].
    NestingTooDeep,
}

/// Outcome of a decode attempt: a value and the exact number of bytes
/// consumed from the front of the input, a minimum number of additional
/// bytes needed, or a failure.
#[derive(Debug, PartialEq, Eq)]
pub enum ParseResult<T> {
    Complete(T, usize),
    Incomplete(usize),
    Failure(ParseError),
}

impl<T: DeepView> View for ParseResult<T> {
    type V = SpecParse<T::V>;

    open spec fn view(&self) -> SpecParse<T::V> {
        match self {
            ParseResult::Complete(v, n) => SpecParse::Complete(v.deep_view(), *n as nat),
            ParseResult::Incomplete(k) => SpecParse::Incomplete(*k as nat),
            ParseResult::Failure(e) => SpecParse::Failure(*e),
        }
    }
}

/// The decoded file header.
#[derive(Clone, Debug, PartialEq, Eq)]
pub struct Header {
    pub version: u8,
    pub audio: bool,
    pub video: bool,
    pub offset: u32,
}

impl DeepView for Header {
    type V = Header;

    open spec fn deep_view(&self) -> Header {
        *self
    }
}

/// The three payload kinds a tag can carry.
#[derive(Clone, Copy, Debug, PartialEq, Eq)]
pub enum TagType {
    Audio,
    Video,
    Script,
}

impl DeepView for TagType {
    type V = TagType;

    open spec fn deep_view(&self) -> TagType {
        *self
    }
}

/// The decoded 11-byte tag envelope.
#[derive(Clone, Debug, PartialEq, Eq)]
pub struct TagHeader {
    pub tag_type: TagType,
    pub data_size: u32,
    pub timestamp: u32,
    pub stream_id: u32,
}

impl DeepView for TagHeader {
    type V = TagHeader;

    open spec fn deep_view(&self) -> TagHeader {
        *self
    }
}

/// The decoded payload of one tag.
#[derive(Clone, Debug, PartialEq, Eq)]
pub enum TagData {
    Audio(AudioData),
    Video(VideoData),
    Script,
}

impl DeepView for TagData {
    type V = SpecTagData;

    open spec fn deep_view(&self) -> SpecTagData {
        match self {
            TagData::Audio(a) => SpecTagData::Audio(a.deep_view()),
            TagData::Video(v) => SpecTagData::Video(v.deep_view()),
            TagData::Script => SpecTagData::Script,
        }
    }
}

/// One complete decoded tag: envelope plus payload.
#[derive(Debug, PartialEq, Eq)]
pub struct Tag {
    pub header: TagHeader,
    pub data: TagData,
}

impl DeepView for Tag {
    type V = SpecTag;

    open spec fn deep_view(&self) -> SpecTag {
        SpecTag { header: self.header, data: self.data.deep_view() }
    }
}

/// The defined sound formats.
#[allow(non_camel_case_types)]
#[derive(Clone, Copy, Debug, PartialEq, Eq)]
pub enum SoundFormat {
    PCM_NE,
    ADPCM,
    MP3,
    PCM_LE,
    NELLYMOSER_16KHZ_MONO,
    NELLYMOSER_8KHZ_MONO,
    NELLYMOSER,
    PCM_ALAW,
    PCM_ULAW,
    AAC,
    SPEEX,
    MP3_8KHZ,
    DEVICE_SPECIFIC,
}

impl DeepView for SoundFormat {
    type V = SoundFormat;

    open spec fn deep_view(&self) -> SoundFormat {
        *self
    }
}

/// The defined sound sampling rates.
#[allow(non_camel_case_types)]
#[derive(Clone, Copy, Debug, PartialEq, Eq)]
pub enum SoundRate {
    _5_5KHZ,
    _11KHZ,
    _22KHZ,
    _44KHZ,
}

impl DeepView for SoundRate {
    type V = SoundRate;

    open spec fn deep_view(&self) -> SoundRate {
        *self
    }
}

/// The defined sound sample sizes.
#[derive(Clone, Copy, Debug, PartialEq, Eq)]
pub enum SoundSize {
    Snd8bit,
    Snd16bit,
}

impl DeepView for SoundSize {
    type V = SoundSize;

    open spec fn deep_view(&self) -> SoundSize {
        *self
    }
}

/// The defined channel layouts.
#[derive(Clone, Copy, Debug, PartialEq, Eq)]
pub enum SoundType {
    SndMono,
    SndStereo,
}

impl DeepView for SoundType {
    type V = SoundType;

    open spec fn deep_view(&self) -> SoundType {
        *self
    }
}

/// The defined AAC packet kinds.
#[derive(Clone, Copy, Debug, PartialEq, Eq)]
pub enum AACPacketType {
    SequenceHeader,
    Raw,
}

impl DeepView for AACPacketType {
    type V = AACPacketType;

    open spec fn deep_view(&self) -> AACPacketType {
        *self
    }
}

/// The decoded 1-byte AAC packet header.
#[derive(Clone, Debug, PartialEq, Eq)]
pub struct AACAudioPacketHeader {
    pub packet_type: AACPacketType,
}

impl DeepView for AACAudioPacketHeader {
    type V = AACAudioPacketHeader;

    open spec fn deep_view(&self) -> AACAudioPacketHeader {
        *self
    }
}

/// A decoded AAC packet: packet type plus the remaining packet bytes.
#[derive(Debug, PartialEq, Eq)]
pub struct AACAudioPacket {
    pub packet_type: AACPacketType,
    pub aac_data: Vec<u8>,
}

impl DeepView for AACAudioPacket {
    type V = SpecAACAudioPacket;

    open spec fn deep_view(&self) -> SpecAACAudioPacket {
        SpecAACAudioPacket { packet_type: self.packet_type, aac_data: self.aac_data@ }
    }
}

/// A decoded audio payload: the unpacked leading byte plus the sound
/// data bytes.
#[derive(Clone, Debug, PartialEq, Eq)]
pub struct AudioData {
    pub sound_format: SoundFormat,
    pub sound_rate: SoundRate,
    pub sound_size: SoundSize,
    pub sound_type: SoundType,
    pub sound_data: Vec<u8>,
}

impl DeepView for AudioData {
    type V = SpecAudioData;

    open spec fn deep_view(&self) -> SpecAudioData {
        SpecAudioData {
            sound_format: self.sound_format,
            sound_rate: self.sound_rate,
            sound_size: self.sound_size,
            sound_type: self.sound_type,
            sound_data: self.sound_data@,
        }
    }
}

/// The unpacked leading audio byte alone.
#[derive(Debug, PartialEq, Eq)]
pub struct AudioDataHeader {
    pub sound_format: SoundFormat,
    pub sound_rate: SoundRate,
    pub sound_size: SoundSize,
    pub sound_type: SoundType,
}

impl DeepView for AudioDataHeader {
    type V = AudioDataHeader;

    open spec fn deep_view(&self) -> AudioDataHeader {
        *self
    }
}

/// The defined video frame kinds.
#[derive(Clone, Copy, Debug, PartialEq, Eq)]
pub enum FrameType {
    Key,
    Inter,
    DisposableInter,
    Generated,
    Command,
}

impl DeepView for FrameType {
    type V = FrameType;

    open spec fn deep_view(&self) -> FrameType {
        *self
    }
}

/// The defined video codecs.
#[allow(non_camel_case_types)]
#[derive(Clone, Copy, Debug, PartialEq, Eq)]
pub enum CodecId {
    JPEG,
    SORENSON_H263,
    SCREEN,
    VP6,
    VP6A,
    SCREEN2,
    H264,
    H263,
    MPEG4Part2,
}

impl DeepView for CodecId {
    type V = CodecId;

    open spec fn deep_view(&self) -> CodecId {
        *self
    }
}

/// The defined AVC packet kinds.
#[derive(Clone, Copy, Debug, PartialEq, Eq)]
pub enum AVCPacketType {
    SequenceHeader,
    NALU,
    EndOfSequence,
}

impl DeepView for AVCPacketType {
    type V = AVCPacketType;

    open spec fn deep_view(&self) -> AVCPacketType {
        *self
    }
}

/// The decoded 4-byte AVC packet header.
#[derive(Clone, Debug, PartialEq, Eq)]
pub struct AVCVideoPacketHeader {
    pub packet_type: AVCPacketType,
    pub composition_time: i32,
}

impl DeepView for AVCVideoPacketHeader {
    type V = AVCVideoPacketHeader;

    open spec fn deep_view(&self) -> AVCVideoPacketHeader {
        *self
    }
}

/// A decoded AVC packet: packet header fields plus the remaining packet
/// bytes.
#[derive(Debug, PartialEq, Eq)]
pub struct AVCVideoPacket {
    pub packet_type: AVCPacketType,
    pub composition_time: i32,
    pub avc_data: Vec<u8>,
}

impl DeepView for AVCVideoPacket {
    type V = SpecAVCVideoPacket;

    open spec fn deep_view(&self) -> SpecAVCVideoPacket {
        SpecAVCVideoPacket {
            packet_type: self.packet_type,
            composition_time: self.composition_time,
            avc_data: self.avc_data@,
        }
    }
}

/// A decoded video payload: the unpacked leading byte plus the video
/// data bytes.
#[derive(Clone, Debug, PartialEq, Eq)]
pub struct VideoData {
    pub frame_type: FrameType,
    pub codec_id: CodecId,
    pub video_data: Vec<u8>,
}

impl DeepView for VideoData {
    type V = SpecVideoData;

    open spec fn deep_view(&self) -> SpecVideoData {
        SpecVideoData {
            frame_type: self.frame_type,
            codec_id: self.codec_id,
            video_data: self.video_data@,
        }
    }
}

/// The unpacked leading video byte alone.
#[derive(Clone, Debug, PartialEq, Eq)]
pub struct VideoDataHeader {
    pub frame_type: FrameType,
    pub codec_id: CodecId,
}

impl DeepView for VideoDataHeader {
    type V = VideoDataHeader;

    open spec fn deep_view(&self) -> VideoDataHeader {
        *self
    }
}

/// A decoded metadata record: its name and its argument value.
#[derive(Debug, PartialEq)]
pub struct ScriptData {
    pub name: Vec<u8>,
    pub arguments: ScriptDataValue,
}

impl DeepView for ScriptData {
    type V = SpecScriptData;

    open spec fn deep_view(&self) -> SpecScriptData {
        SpecScriptData { name: self.name@, arguments: view_script_data_value(self.arguments) }
    }
}

/// A decoded metadata value.  String payloads are UTF-8 bytes; number
/// and date-time payloads are the raw 64 bits of the wire's big-endian
/// IEEE-754 double.
#[derive(Debug, PartialEq)]
pub enum ScriptDataValue {
    Number(u64),
    Boolean(bool),
    String(Vec<u8>),
    Object(Vec<ScriptDataObject>),
    MovieClip(Vec<u8>),
    Null,
    Undefined,
    Reference(u16),
    ECMAArray(Vec<ScriptDataObject>),
    StrictArray(Vec<ScriptDataValue>),
    Date(ScriptDataDate),
    LongString(Vec<u8>),
}

impl DeepView for ScriptDataValue {
    type V = SpecScriptDataValue;

    open spec fn deep_view(&self) -> SpecScriptDataValue {
        view_script_data_value(*self)
    }
}

/// A named metadata entry: a name and the value bound to it.
#[derive(Debug, PartialEq)]
pub struct ScriptDataObject {
    pub name: Vec<u8>,
    pub data: ScriptDataValue,
}

impl DeepView for ScriptDataObject {
    type V = SpecScriptDataObject;

    open spec fn deep_view(&self) -> SpecScriptDataObject {
        view_script_data_object(*self)
    }
}

/// A decoded metadata date: the raw bits of its IEEE-754 timestamp and
/// a signed local time offset.
#[derive(Clone, Debug, PartialEq)]
pub struct ScriptDataDate {
    pub date_time: u64,
    pub local_date_time_offset: i16,
}

impl DeepView for ScriptDataDate {
    type V = ScriptDataDate;

    open spec fn deep_view(&self) -> ScriptDataDate {
        *self
    }
}

// ------------------------------------------------------------------
// Fixed-layout decoders.
// ------------------------------------------------------------------

/// Decodes the 9-byte file header from the front of `input`.
pub fn header(input: &[u8]) -> (res: ParseResult<Header>)
    ensures
        res@ == spec_header(input@),
{
    if input.len() < 9 {
        return ParseResult::Incomplete(9 - input.len());
    }
    if !(input[0] == 0x46 && input[1] == 0x4c && input[2] == 0x56) {
        return ParseResult::Failure(ParseError::SignatureMismatch);
    }
    let flags: u8 = input[4];
    ParseResult::Complete(
        Header {
            version: input[3],
            audio: flags & 0x04 == 0x04,
            video: flags & 0x01 == 0x01,
            offset: read_be_u32(input, 5),
        },
        9,
    )
}

/// The tag type named by a type code, if defined.
fn tag_type_of(code: u8) -> (r: Option<TagType>)
    ensures
        r == spec_tag_type(code),
{
    if code == 8 {
        Some(TagType::Audio)
    } else if code == 9 {
        Some(TagType::Video)
    } else if code == 18 {
        Some(TagType::Script)
    } else {
        None
    }
}

/// Decodes the 11-byte tag envelope from the front of `input`.
pub fn tag_header(input: &[u8]) -> (res: ParseResult<TagHeader>)
    ensures
        res@ == spec_tag_header(input@),
{
    if input.len() < 11 {
        return ParseResult::Incomplete(11 - input.len());
    }
    match tag_type_of(input[0]) {
        None => ParseResult::Failure(ParseError::UnknownTagType),
        Some(tag_type) => {
            let data_size: u32 = read_be_u24(input, 1);
            let timestamp_base: u32 = read_be_u24(input, 4);
            let timestamp_ext: u8 = input[7];
            let stream_id: u32 = read_be_u24(input, 8);
            ParseResult::Complete(
                TagHeader {
                    tag_type,
                    data_size,
                    timestamp: timestamp_ext as u32 * 0x100_0000 + timestamp_base,
                    stream_id,
                },
                11,
            )
        },
    }
}

/// The sound format named by a 4-bit code, if defined.
fn sound_format_of(code: u8) -> (r: Option<SoundFormat>)
    ensures
        r == spec_sound_format(code),
{
    if code == 0 {
        Some(SoundFormat::PCM_NE)
    } else if code == 1 {
        Some(SoundFormat::ADPCM)
    } else if code == 2 {
        Some(SoundFormat::MP3)
    } else if code == 3 {
        Some(SoundFormat::PCM_LE)
    } else if code == 4 {
        Some(SoundFormat::NELLYMOSER_16KHZ_MONO)
    } else if code == 5 {
        Some(SoundFormat::NELLYMOSER_8KHZ_MONO)
    } else if code == 6 {
        Some(SoundFormat::NELLYMOSER)
    } else if code == 7 {
        Some(SoundFormat::PCM_ALAW)
    } else if code == 8 {
        Some(SoundFormat::PCM_ULAW)
    } else if code == 10 {
        Some(SoundFormat::AAC)
    } else if code == 11 {
        Some(SoundFormat::SPEEX)
    } else if code == 14 {
        Some(SoundFormat::MP3_8KHZ)
    } else if code == 15 {
        Some(SoundFormat::DEVICE_SPECIFIC)
    } else {
        None
    }
}

/// The sound rate named by a 2-bit code.
fn sound_rate_of(code: u8) -> (r: SoundRate)
    ensures
        r == spec_sound_rate(code),
{
    if code == 0 {
        SoundRate::_5_5KHZ
    } else if code == 1 {
        SoundRate::_11KHZ
    } else if code == 2 {
        SoundRate::_22KHZ
    } else {
        SoundRate::_44KHZ
    }
}

/// Decodes the packed leading audio byte from the front of `input`,
/// consuming one byte.
pub fn audio_data_header(input: &[u8]) -> (res: ParseResult<AudioDataHeader>)
    ensures
        res@ == spec_audio_data_header(input@),
{
    if input.len() < 1 {
        return ParseResult::Incomplete(1);
    }
    let b: u8 = input[0];
    match sound_format_of(b >> 4) {
        None => ParseResult::Failure(ParseError::UnknownSoundFormat),
        Some(sound_format) => ParseResult::Complete(
            AudioDataHeader {
                sound_format,
                sound_rate: sound_rate_of((b >> 2) & 0x03),
                sound_size: if (b >> 1) & 0x01 == 0 {
                    SoundSize::Snd8bit
                } else {
                    SoundSize::Snd16bit
                },
                sound_type: if b & 0x01 == 0 {
                    SoundType::SndMono
                } else {
                    SoundType::SndStereo
                },
            },
            1,
        ),
    }
}

/// Decodes an audio payload whose declared size is `size`: the packed
/// leading byte, then the remaining bytes as the sound data.  Consumes
/// exactly `size` bytes on success.
pub fn audio_data(input: &[u8], size: usize) -> (res: ParseResult<AudioData>)
    ensures
        res@ == spec_audio_data(input@, size as nat),
{
    if input.len() < size {
        return ParseResult::Incomplete(size - input.len());
    }
    if size < 1 {
        return ParseResult::Failure(ParseError::ShortPayload);
    }
    match audio_data_header(input) {
        ParseResult::Complete(h, _) => ParseResult::Complete(
            AudioData {
                sound_format: h.sound_format,
                sound_rate: h.sound_rate,
                sound_size: h.sound_size,
                sound_type: h.sound_type,
                sound_data: slice_to_vec(slice_subrange(input, 1, size)),
            },
            size,
        ),
        ParseResult::Incomplete(k) => ParseResult::Incomplete(k),
        ParseResult::Failure(e) => ParseResult::Failure(e),
    }
}

/// The frame type named by a 4-bit code, if defined.
fn frame_type_of(code: u8) -> (r: Option<FrameType>)
    ensures
        r == spec_frame_type(code),
{
    if code == 1 {
        Some(FrameType::Key)
    } else if code == 2 {
        Some(FrameType::Inter)
    } else if code == 3 {
        Some(FrameType::DisposableInter)
    } else if code == 4 {
        Some(FrameType::Generated)
    } else if code == 5 {
        Some(FrameType::Command)
    } else {
        None
    }
}

/// The video codec named by a 4-bit code, if defined.
fn codec_id_of(code: u8) -> (r: Option<CodecId>)
    ensures
        r == spec_codec_id(code),
{
    if code == 1 {
        Some(CodecId::JPEG)
    } else if code == 2 {
        Some(CodecId::SORENSON_H263)
    } else if code == 3 {
        Some(CodecId::SCREEN)
    } else if code == 4 {
        Some(CodecId::VP6)
    } else if code == 5 {
        Some(CodecId::VP6A)
    } else if code == 6 {
        Some(CodecId::SCREEN2)
    } else if code == 7 {
        Some(CodecId::H264)
    } else if code == 8 {
        Some(CodecId::H263)
    } else if code == 9 {
        Some(CodecId::MPEG4Part2)
    } else {
        None
    }
}

/// Decodes the packed leading video byte from the front of `input`,
/// consuming one byte.
pub fn video_data_header(input: &[u8]) -> (res: ParseResult<VideoDataHeader>)
    ensures
        res@ == spec_video_data_header(input@),
{
    if input.len() < 1 {
        return ParseResult::Incomplete(1);
    }
    let b: u8 = input[0];
    match frame_type_of(b >> 4) {
        None => ParseResult::Failure(ParseError::UnknownFrameType),
        Some(frame_type) => match codec_id_of(b & 0x0f) {
            None => ParseResult::Failure(ParseError::UnknownCodecId),
            Some(codec_id) => ParseResult::Complete(VideoDataHeader { frame_type, codec_id }, 1),
        },
    }
}

/// Decodes a video payload whose declared size is `size`: the packed
/// leading byte, then the remaining bytes as the video data.  Consumes
/// exactly `size` bytes on success.
pub fn video_data(input: &[u8], size: usize) -> (res: ParseResult<VideoData>)
    ensures
        res@ == spec_video_data(input@, size as nat),
{
    if input.len() < size {
        return ParseResult::Incomplete(size - input.len());
    }
    if size < 1 {
        return ParseResult::Failure(ParseError::ShortPayload);
    }
    match video_data_header(input) {
        ParseResult::Complete(h, _) => ParseResult::Complete(
            VideoData {
                frame_type: h.frame_type,
                codec_id: h.codec_id,
                video_data: slice_to_vec(slice_subrange(input, 1, size)),
            },
            size,
        ),
        ParseResult::Incomplete(k) => ParseResult::Incomplete(k),
        ParseResult::Failure(e) => ParseResult::Failure(e),
    }
}

/// The AAC packet type named by a code, if defined.
fn aac_packet_type_of(code: u8) -> (r: Option<AACPacketType>)
    ensures
        r == spec_aac_packet_type(code),
{
    if code == 0 {
        Some(AACPacketType::SequenceHeader)
    } else if code == 1 {
        Some(AACPacketType::Raw)
    } else {
        None
    }
}

/// Decodes the 1-byte AAC packet header from the front of `input`.
pub fn aac_audio_packet_header(input: &[u8]) -> (res: ParseResult<AACAudioPacketHeader>)
    ensures
        res@ == spec_aac_audio_packet_header(input@),
{
    if input.len() < 1 {
        return ParseResult::Incomplete(1);
    }
    match aac_packet_type_of(input[0]) {
        None => ParseResult::Failure(ParseError::UnknownAacPacketType),
        Some(packet_type) => ParseResult::Complete(AACAudioPacketHeader { packet_type }, 1),
    }
}

/// Decodes an AAC packet whose declared size is `size`: the 1-byte
/// packet type, then the remaining bytes as the AAC data.  Consumes
/// exactly `size` bytes on success.
pub fn aac_audio_packet(input: &[u8], size: usize) -> (res: ParseResult<AACAudioPacket>)
    ensures
        res@ == spec_aac_audio_packet(input@, size as nat),
{
    if input.len() < size {
        return ParseResult::Incomplete(size - input.len());
    }
    if size < 1 {
        return ParseResult::Failure(ParseError::ShortPayload);
    }
    match aac_packet_type_of(input[0]) {
        None => ParseResult::Failure(ParseError::UnknownAacPacketType),
        Some(packet_type) => ParseResult::Complete(
            AACAudioPacket { packet_type, aac_data: slice_to_vec(slice_subrange(input, 1, size)) },
            size,
        ),
    }
}

/// The AVC packet type named by a code, if defined.
fn avc_packet_type_of(code: u8) -> (r: Option<AVCPacketType>)
    ensures
        r == spec_avc_packet_type(code),
{
    if code == 0 {
        Some(AVCPacketType::SequenceHeader)
    } else if code == 1 {
        Some(AVCPacketType::NALU)
    } else if code == 2 {
        Some(AVCPacketType::EndOfSequence)
    } else {
        None
    }
}

/// Decodes the 4-byte AVC packet header from the front of `input`.
pub fn avc_video_packet_header(input: &[u8]) -> (res: ParseResult<AVCVideoPacketHeader>)
    ensures
        res@ == spec_avc_video_packet_header(input@),
{
    if input.len() < 4 {
        return ParseResult::Incomplete(4 - input.len());
    }
    match avc_packet_type_of(input[0]) {
        None => ParseResult::Failure(ParseError::UnknownAvcPacketType),
        Some(packet_type) => ParseResult::Complete(
            AVCVideoPacketHeader { packet_type, composition_time: read_be_i24(input, 1) },
            4,
        ),
    }
}

/// Decodes an AVC packet whose declared size is `size`: the 4-byte
/// packet header, then the remaining bytes as the AVC data.  Consumes
/// exactly `size` bytes on success.
pub fn avc_video_packet(input: &[u8], size: usize) -> (res: ParseResult<AVCVideoPacket>)
    ensures
        res@ == spec_avc_video_packet(input@, size as nat),
{
    if input.len() < size {
        return ParseResult::Incomplete(size - input.len());
    }
    if size < 4 {
        return ParseResult::Failure(ParseError::ShortPayload);
    }
    match avc_packet_type_of(input[0]) {
        None => ParseResult::Failure(ParseError::UnknownAvcPacketType),
        Some(packet_type) => ParseResult::Complete(
            AVCVideoPacket {
                packet_type,
                composition_time: read_be_i24(input, 1),
                avc_data: slice_to_vec(slice_subrange(input, 4, size)),
            },
            size,
        ),
    }
}

/// Decodes a tag payload of declared size `size`, dispatching on the
/// tag type.  The declared size is authoritative: fewer available bytes
/// are reported as incomplete before any field parse, and success
/// consumes exactly `size` bytes.  Script payloads are not decoded
/// further here; [`script_data`] decodes them on demand.
pub fn tag_data(tag_type: TagType, size: usize, input: &[u8]) -> (res: ParseResult<TagData>)
    ensures
        res@ == spec_tag_data(tag_type, size as nat, input@),
{
    if input.len() < size {
        return ParseResult::Incomplete(size - input.len());
    }
    match tag_type {
        TagType::Audio => match audio_data(input, size) {
            ParseResult::Complete(a, c) => ParseResult::Complete(TagData::Audio(a), c),
            ParseResult::Incomplete(k) => ParseResult::Incomplete(k),
            ParseResult::Failure(e) => ParseResult::Failure(e),
        },
        TagType::Video => match video_data(input, size) {
            ParseResult::Complete(v, c) => ParseResult::Complete(TagData::Video(v), c),
            ParseResult::Incomplete(k) => ParseResult::Incomplete(k),
            ParseResult::Failure(e) => ParseResult::Failure(e),
        },
        TagType::Script => ParseResult::Complete(TagData::Script, size),
    }
}

/// Decodes one whole tag from the front of `input`: the 11-byte
/// envelope, then the payload bounded by the declared size.  Consumes
/// exactly `11 + data_size` bytes on success.
pub fn complete_tag(input: &[u8]) -> (res: ParseResult<Tag>)
    ensures
        res@ == spec_complete_tag(input@),
{
    if input.len() < 11 {
        return ParseResult::Incomplete(11 - input.len());
    }
    match tag_header(input) {
        ParseResult::Complete(h, _) => {
            let size: usize = h.data_size as usize;
            let payload: &[u8] = slice_subrange(input, 11, input.len());
            match tag_data(h.tag_type, size, payload) {
                ParseResult::Complete(d, c) => {
                    proof {
                        assert(c as nat <= payload@.len());
                    }
                    ParseResult::Complete(Tag { header: h, data: d }, 11 + c)
                },
                ParseResult::Incomplete(k) => ParseResult::Incomplete(k),
                ParseResult::Failure(e) => ParseResult::Failure(e),
            }
        },
        ParseResult::Incomplete(k) => ParseResult::Incomplete(k),
        ParseResult::Failure(e) => ParseResult::Failure(e),
    }
}

// ------------------------------------------------------------------
// The recursive metadata value decoders.
// ------------------------------------------------------------------

/// A byte vector holds, element for element, the sequence it views.
proof fn lemma_vec_u8_deep_view(v: Vec<u8>)
    ensures
        v.deep_view() == v@,
{
    assert(v.deep_view() =~= v@);
}

/// A vector assembled as head plus tail views as head plus tail.
proof fn lemma_vec_cons_deep_view<T: DeepView>(out: Vec<T>, head: T, tail: Vec<T>)
    requires
        out@ == seq![head] + tail@,
    ensures
        out.deep_view() == seq![head.deep_view()] + tail.deep_view(),
{
    let lhs = out.deep_view();
    let rhs = seq![head.deep_view()] + tail.deep_view();
    assert forall|i: int| 0 <= i < lhs.len() implies lhs[i] == rhs[i] by {
        if i == 0 {
            assert(out@[0] == head);
        } else {
            assert(out@[i] == tail@[i - 1]);
        }
    };
    assert(lhs =~= rhs);
}

/// Decodes a short metadata string: a 16-bit length prefix, then that
/// many bytes, which must be valid UTF-8.
pub fn script_data_string(input: &[u8]) -> (res: ParseResult<Vec<u8>>)
    ensures
        res@ == spec_script_data_string(input@),
{
    if input.len() < 2 {
        return ParseResult::Incomplete(2 - input.len());
    }
    let n: usize = read_be_u16(input, 0) as usize;
    if input.len() - 2 < n {
        return ParseResult::Incomplete(n - (input.len() - 2));
    }
    let bytes: &[u8] = slice_subrange(input, 2, 2 + n);
    if utf8_valid(bytes) {
        let out: Vec<u8> = slice_to_vec(bytes);
        proof {
            lemma_vec_u8_deep_view(out);
        }
        ParseResult::Complete(out, 2 + n)
    } else {
        ParseResult::Failure(ParseError::InvalidUtf8)
    }
}

/// Decodes a long metadata string: a 32-bit length prefix, then that
/// many bytes, which must be valid UTF-8.
pub fn script_data_long_string(input: &[u8]) -> (res: ParseResult<Vec<u8>>)
    ensures
        res@ == spec_script_data_long_string(input@),
{
    if input.len() < 4 {
        return ParseResult::Incomplete(4 - input.len());
    }
    let n: usize = read_be_u32(input, 0) as usize;
    if input.len() - 4 < n {
        return ParseResult::Incomplete(n - (input.len() - 4));
    }
    let bytes: &[u8] = slice_subrange(input, 4, 4 + n);
    if utf8_valid(bytes) {
        let out: Vec<u8> = slice_to_vec(bytes);
        proof {
            lemma_vec_u8_deep_view(out);
        }
        ParseResult::Complete(out, 4 + n)
    } else {
        ParseResult::Failure(ParseError::InvalidUtf8)
    }
}

/// Decodes a metadata date: the 8 raw bits-of-double bytes, then a
/// signed 16-bit local time offset.
pub fn script_data_date(input: &[u8]) -> (res: ParseResult<ScriptDataDate>)
    ensures
        res@ == spec_script_data_date(input@),
{
    if input.len() < 10 {
        return ParseResult::Incomplete(10 - input.len());
    }
    ParseResult::Complete(
        ScriptDataDate {
            date_time: read_be_u64(input, 0),
            local_date_time_offset: read_be_i16(input, 8),
        },
        10,
    )
}

/// Decodes the 3-byte entry list terminator.
pub fn script_data_object_end(input: &[u8]) -> (res: ParseResult<()>)
    ensures
        res@ == spec_script_data_object_end(input@),
{
    if input.len() < 3 {
        return ParseResult::Incomplete(3 - input.len());
    }
    if input[0] == 0 && input[1] == 0 && input[2] == 9 {
        ParseResult::Complete((), 3)
    } else {
        ParseResult::Failure(ParseError::NotObjectEnd)
    }
}

/// Decodes one metadata value nested `depth` levels deep.
fn script_data_value_at(input: &[u8], depth: u32) -> (res: ParseResult<ScriptDataValue>)
    ensures
        res@ == spec_script_data_value(input@, depth as nat),
    decreases input@.len(), 0int,
{
    if input.len() < 1 {
        return ParseResult::Incomplete(1);
    }
    if depth >= MAX_NESTING_DEPTH {
        return ParseResult::Failure(ParseError::NestingTooDeep);
    }
    let marker: u8 = input[0];
    if marker == 0 {
        if input.len() < 9 {
            return ParseResult::Incomplete(9 - input.len());
        }
        ParseResult::Complete(ScriptDataValue::Number(read_be_u64(input, 1)), 9)
    } else if marker == 1 {
        if input.len() < 2 {
            return ParseResult::Incomplete(1);
        }
        ParseResult::Complete(ScriptDataValue::Boolean(input[1] != 0), 2)
    } else if marker == 2 {
        let rest: &[u8] = slice_subrange(input, 1, input.len());
        match script_data_string(rest) {
            ParseResult::Complete(b, c) => {
                proof {
                    assert(c <= rest@.len());
                    lemma_vec_u8_deep_view(b);
                }
                ParseResult::Complete(ScriptDataValue::String(b), 1 + c)
            },
            ParseResult::Incomplete(k) => ParseResult::Incomplete(k),
            ParseResult::Failure(e) => ParseResult::Failure(e),
        }
    } else if marker == 3 {
        let rest: &[u8] = slice_subrange(input, 1, input.len());
        match script_data_objects_at(rest, depth + 1) {
            ParseResult::Complete(objs, c) => {
                proof {
                    lemma_script_data_objects_len(rest@, depth as nat + 1);
                    lemma_view_objects_pointwise(objs@);
                    assert(view_script_data_objects(objs@) =~= objs.deep_view());
                }
                ParseResult::Complete(ScriptDataValue::Object(objs), 1 + c)
            },
            ParseResult::Incomplete(k) => ParseResult::Incomplete(k),
            ParseResult::Failure(e) => ParseResult::Failure(e),
        }
    } else if marker == 4 {
        let rest: &[u8] = slice_subrange(input, 1, input.len());
        match script_data_string(rest) {
            ParseResult::Complete(b, c) => {
                proof {
                    assert(c <= rest@.len());
                    lemma_vec_u8_deep_view(b);
                }
                ParseResult::Complete(ScriptDataValue::MovieClip(b), 1 + c)
            },
            ParseResult::Incomplete(k) => ParseResult::Incomplete(k),
            ParseResult::Failure(e) => ParseResult::Failure(e),
        }
    } else if marker == 5 {
        ParseResult::Complete(ScriptDataValue::Null, 1)
    } else if marker == 6 {
        ParseResult::Complete(ScriptDataValue::Undefined, 1)
    } else if marker == 7 {
        if input.len() < 3 {
            return ParseResult::Incomplete(3 - input.len());
        }
        ParseResult::Complete(ScriptDataValue::Reference(read_be_u16(input, 1)), 3)
    } else if marker == 8 {
        let rest: &[u8] = slice_subrange(input, 1, input.len());
        match script_data_ecma_array_at(rest, depth + 1) {
            ParseResult::Complete(objs, c) => {
                proof {
                    lemma_script_data_ecma_array_len(rest@, depth as nat + 1);
                    lemma_view_objects_pointwise(objs@);
                    assert(view_script_data_objects(objs@) =~= objs.deep_view());
                }
                ParseResult::Complete(ScriptDataValue::ECMAArray(objs), 1 + c)
            },
            ParseResult::Incomplete(k) => ParseResult::Incomplete(k),
            ParseResult::Failure(e) => ParseResult::Failure(e),
        }
    } else if marker == 10 {
        let rest: &[u8] = slice_subrange(input, 1, input.len());
        match script_data_strict_array_at(rest, depth + 1) {
            ParseResult::Complete(vals, c) => {
                proof {
                    lemma_script_data_strict_array_len(rest@, depth as nat + 1);
                    lemma_view_values_pointwise(vals@);
                    assert(view_script_data_values(vals@) =~= vals.deep_view());
                }
                ParseResult::Complete(ScriptDataValue::StrictArray(vals), 1 + c)
            },
            ParseResult::Incomplete(k) => ParseResult::Incomplete(k),
            ParseResult::Failure(e) => ParseResult::Failure(e),
        }
    } else if marker == 11 {
        let rest: &[u8] = slice_subrange(input, 1, input.len());
        match script_data_date(rest) {
            ParseResult::Complete(d, c) => ParseResult::Complete(
                ScriptDataValue::Date(d),
                1 + c,
            ),
            ParseResult::Incomplete(k) => ParseResult::Incomplete(k),
            ParseResult::Failure(e) => ParseResult::Failure(e),
        }
    } else if marker == 12 {
        let rest: &[u8] = slice_subrange(input, 1, input.len());
        match script_data_long_string(rest) {
            ParseResult::Complete(b, c) => {
                proof {
                    assert(c <= rest@.len());
                    lemma_vec_u8_deep_view(b);
                }
                ParseResult::Complete(ScriptDataValue::LongString(b), 1 + c)
            },
            ParseResult::Incomplete(k) => ParseResult::Incomplete(k),
            ParseResult::Failure(e) => ParseResult::Failure(e),
        }
    } else {
        ParseResult::Failure(ParseError::UnknownValueMarker)
    }
}

/// Decodes one named entry nested `depth` levels deep.
fn script_data_object_at(input: &[u8], depth: u32) -> (res: ParseResult<ScriptDataObject>)
    ensures
        res@ == spec_script_data_object(input@, depth as nat),
    decreases input@.len(), 1int,
{
    match script_data_string(input) {
        ParseResult::Complete(name, c1) => {
            proof {
                assert(c1 <= input@.len());
                lemma_vec_u8_deep_view(name);
            }
            let rest: &[u8] = slice_subrange(input, c1, input.len());
            match script_data_value_at(rest, depth) {
                ParseResult::Complete(v, c2) => {
                    proof {
                        lemma_script_data_value_len(rest@, depth as nat);
                    }
                    ParseResult::Complete(ScriptDataObject { name, data: v }, c1 + c2)
                },
                ParseResult::Incomplete(k) => ParseResult::Incomplete(k),
                ParseResult::Failure(e) => ParseResult::Failure(e),
            }
        },
        ParseResult::Incomplete(k) => ParseResult::Incomplete(k),
        ParseResult::Failure(e) => ParseResult::Failure(e),
    }
}

/// Decodes a terminated entry list nested `depth` levels deep.
fn script_data_objects_at(input: &[u8], depth: u32) -> (res: ParseResult<Vec<ScriptDataObject>>)
    ensures
        res@ == spec_script_data_objects(input@, depth as nat),
    decreases input@.len(), 2int,
{
    if input.len() >= 3 && input[0] == 0 && input[1] == 0 && input[2] == 9 {
        let out: Vec<ScriptDataObject> = Vec::new();
        proof {
            assert(spec_is_object_end(input@));
            assert(out.deep_view() =~= Seq::<SpecScriptDataObject>::empty());
        }
        return ParseResult::Complete(out, 3);
    }
    match script_data_object_at(input, depth) {
        ParseResult::Complete(o, c) => {
            proof {
                lemma_script_data_object_len(input@, depth as nat);
            }
            let rest: &[u8] = slice_subrange(input, c, input.len());
            match script_data_objects_at(rest, depth) {
                ParseResult::Complete(tail, c2) => {
                    proof {
                        lemma_script_data_objects_len(rest@, depth as nat);
                    }
                    let ghost o0 = o;
                    let ghost tail0 = tail;
                    let mut out: Vec<ScriptDataObject> = Vec::new();
                    out.push(o);
                    let mut tail_rest = tail;
                    out.append(&mut tail_rest);
                    proof {
                        assert(out@ =~= seq![o0] + tail0@);
                        lemma_vec_cons_deep_view(out, o0, tail0);
                    }
                    ParseResult::Complete(out, c + c2)
                },
                ParseResult::Incomplete(k) => ParseResult::Incomplete(k),
                ParseResult::Failure(e) => ParseResult::Failure(e),
            }
        },
        ParseResult::Incomplete(k) => ParseResult::Incomplete(k),
        ParseResult::Failure(e) => ParseResult::Failure(e),
    }
}

/// Decodes exactly `n` bare values nested `depth` levels deep.
fn strict_values_at(input: &[u8], n: u32, depth: u32) -> (res: ParseResult<Vec<ScriptDataValue>>)
    ensures
        res@ == spec_strict_values(input@, n as nat, depth as nat),
    decreases input@.len(), 1int,
{
    if n == 0 {
        let out: Vec<ScriptDataValue> = Vec::new();
        proof {
            assert(out.deep_view() =~= Seq::<SpecScriptDataValue>::empty());
        }
        return ParseResult::Complete(out, 0);
    }
    match script_data_value_at(input, depth) {
        ParseResult::Complete(v, c) => {
            proof {
                lemma_script_data_value_len(input@, depth as nat);
            }
            let rest: &[u8] = slice_subrange(input, c, input.len());
            match strict_values_at(rest, n - 1, depth) {
                ParseResult::Complete(tail, c2) => {
                    proof {
                        lemma_strict_values_len(rest@, (n - 1) as nat, depth as nat);
                    }
                    let ghost v0 = v;
                    let ghost tail0 = tail;
                    let mut out: Vec<ScriptDataValue> = Vec::new();
                    out.push(v);
                    let mut tail_rest = tail;
                    out.append(&mut tail_rest);
                    proof {
                        assert(out@ =~= seq![v0] + tail0@);
                        lemma_vec_cons_deep_view(out, v0, tail0);
                    }
                    ParseResult::Complete(out, c + c2)
                },
                ParseResult::Incomplete(k) => ParseResult::Incomplete(k),
                ParseResult::Failure(e) => ParseResult::Failure(e),
            }
        },
        ParseResult::Incomplete(k) => ParseResult::Incomplete(k),
        ParseResult::Failure(e) => ParseResult::Failure(e),
    }
}

/// Decodes an ECMA array payload nested `depth` levels deep.
fn script_data_ecma_array_at(input: &[u8], depth: u32) -> (res: ParseResult<
    Vec<ScriptDataObject>,
>)
    ensures
        res@ == spec_script_data_ecma_array(input@, depth as nat),
    decreases input@.len(), 1int,
{
    if input.len() < 4 {
        return ParseResult::Incomplete(4 - input.len());
    }
    let rest: &[u8] = slice_subrange(input, 4, input.len());
    match script_data_objects_at(rest, depth) {
        ParseResult::Complete(objs, c) => {
            proof {
                lemma_script_data_objects_len(rest@, depth as nat);
            }
            ParseResult::Complete(objs, 4 + c)
        },
        ParseResult::Incomplete(k) => ParseResult::Incomplete(k),
        ParseResult::Failure(e) => ParseResult::Failure(e),
    }
}

/// Decodes a strict array payload nested `depth` levels deep.
fn script_data_strict_array_at(input: &[u8], depth: u32) -> (res: ParseResult<
    Vec<ScriptDataValue>,
>)
    ensures
        res@ == spec_script_data_strict_array(input@, depth as nat),
    decreases input@.len(), 1int,
{
    if input.len() < 4 {
        return ParseResult::Incomplete(4 - input.len());
    }
    let count: u32 = read_be_u32(input, 0);
    let rest: &[u8] = slice_subrange(input, 4, input.len());
    match strict_values_at(rest, count, depth) {
        ParseResult::Complete(vals, c) => {
            proof {
                lemma_strict_values_len(rest@, count as nat, depth as nat);
            }
            ParseResult::Complete(vals, 4 + c)
        },
        ParseResult::Incomplete(k) => ParseResult::Incomplete(k),
        ParseResult::Failure(e) => ParseResult::Failure(e),
    }
}

/// Decodes one metadata value: a 1-byte type marker, then the payload
/// that marker calls for.  Nesting is bounded by
/// [`MAX_NESTING_DEPTH`].
pub fn script_data_value(input: &[u8]) -> (res: ParseResult<ScriptDataValue>)
    ensures
        res@ == spec_script_data_value(input@, 0),
{
    script_data_value_at(input, 0)
}

/// Decodes one named entry: a length-prefixed name, then the value
/// bound to it.
pub fn script_data_object(input: &[u8]) -> (res: ParseResult<ScriptDataObject>)
    ensures
        res@ == spec_script_data_object(input@, 0),
{
    script_data_object_at(input, 0)
}

/// Decodes a named entry list terminated by the 3-byte end marker,
/// which is consumed and excluded from the result.  Exhausting the
/// input before the terminator appears is an incomplete read, never a
/// failure.
pub fn script_data_objects(input: &[u8]) -> (res: ParseResult<Vec<ScriptDataObject>>)
    ensures
        res@ == spec_script_data_objects(input@, 0),
{
    script_data_objects_at(input, 0)
}

/// Decodes an ECMA array payload: a 32-bit advisory entry count, which
/// is ignored, then a terminated entry list.
pub fn script_data_ecma_array(input: &[u8]) -> (res: ParseResult<Vec<ScriptDataObject>>)
    ensures
        res@ == spec_script_data_ecma_array(input@, 0),
{
    script_data_ecma_array_at(input, 0)
}

/// Decodes a strict array payload: a 32-bit count, then exactly that
/// many bare values.
pub fn script_data_strict_array(input: &[u8]) -> (res: ParseResult<Vec<ScriptDataValue>>)
    ensures
        res@ == spec_script_data_strict_array(input@, 0),
{
    script_data_strict_array_at(input, 0)
}

/// Decodes a whole metadata record: the top-level value must be a
/// string, giving the record's name, followed by one argument value.
pub fn script_data(input: &[u8]) -> (res: ParseResult<ScriptData>)
    ensures
        res@ == spec_script_data(input@),
{
    if input.len() < 1 {
        return ParseResult::Incomplete(1);
    }
    if input[0] != 2 {
        return ParseResult::Failure(ParseError::NameNotString);
    }
    let rest: &[u8] = slice_subrange(input, 1, input.len());
    match script_data_string(rest) {
        ParseResult::Complete(name, c1) => {
            proof {
                assert(c1 <= rest@.len());
                lemma_vec_u8_deep_view(name);
            }
            let rest2: &[u8] = slice_subrange(input, 1 + c1, input.len());
            match script_data_value_at(rest2, 0) {
                ParseResult::Complete(v, c2) => {
                    proof {
                        lemma_script_data_value_len(rest2@, 0);
                        assert(rest2@ == input@.skip(1 + c1 as int));
                    }
                    ParseResult::Complete(
                        ScriptData { name, arguments: v },
                        1 + c1 + c2,
                    )
                },
                ParseResult::Incomplete(k) => ParseResult::Incomplete(k),
                ParseResult::Failure(e) => ParseResult::Failure(e),
            }
        },
        ParseResult::Incomplete(k) => ParseResult::Incomplete(k),
        ParseResult::Failure(e) => ParseResult::Failure(e),
    }
}

} // verus!
