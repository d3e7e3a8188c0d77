//! The typed events decoded from single diagnostic lines, and the
//! descriptors they carry.

use vstd::prelude::*;
use crate::decimal::Decimal;

verus! {

/// Severity of a generic log line, taken from its bracketed marker.
#[derive(Clone, Copy, Debug, PartialEq, Eq, Structural)]
pub enum LogLevel {
    Info,
    Warning,
    Error,
    Fatal,
    Unknown,
}

#[derive(Clone, Debug, PartialEq)]
pub struct FfmpegVersion {
    pub version: String,
    pub raw_log_message: String,
}

#[derive(Clone, Debug, PartialEq)]
pub struct FfmpegConfiguration {
    pub configuration: Vec<String>,
    pub raw_log_message: String,
}

#[derive(Debug, PartialEq)]
pub struct FfmpegInput {
    pub index: u32,
    pub duration: Option<Decimal>,
    pub raw_log_message: String,
}

#[derive(Debug, PartialEq)]
pub struct FfmpegOutput {
    pub index: u32,
    pub to: String,
    pub raw_log_message: String,
}

#[derive(Clone, Debug, PartialEq)]
pub struct FfmpegDuration {
    pub input_index: u32,
    pub duration: Decimal,
    pub raw_log_message: String,
}

#[derive(Debug, PartialEq)]
pub struct AudioStream {
    /// Sample rate in Hz.
    pub sample_rate: u32,
    /// The channel descriptor, kept as free text (`stereo`, `7.1`, `mono`).
    pub channels: String,
}

#[derive(Debug, PartialEq)]
pub struct VideoStream {
    pub pix_fmt: String,
    pub width: u32,
    pub height: u32,
    pub fps: Decimal,
}

#[derive(Debug, PartialEq)]
pub enum StreamTypeSpecificData {
    Audio(AudioStream),
    Video(VideoStream),
    Subtitle,
    Other,
}

/// One elementary track of an input or output container.
#[derive(Debug, PartialEq)]
pub struct FfmpegStream {
    pub format: String,
    /// Empty when the line carries no trailing parenthetical language tag.
    pub language: String,
    pub parent_index: u32,
    pub stream_index: u32,
    pub raw_log_message: String,
    pub type_specific_data: StreamTypeSpecificData,
}

impl FfmpegStream {
    pub fn is_video(&self) -> (b: bool)
        ensures
            b == (self.type_specific_data is Video),
    {
        matches!(self.type_specific_data, StreamTypeSpecificData::Video(_))
    }

    pub fn is_audio(&self) -> (b: bool)
        ensures
            b == (self.type_specific_data is Audio),
    {
        matches!(self.type_specific_data, StreamTypeSpecificData::Audio(_))
    }

    pub fn is_subtitle(&self) -> (b: bool)
        ensures
            b == (self.type_specific_data is Subtitle),
    {
        matches!(self.type_specific_data, StreamTypeSpecificData::Subtitle)
    }

    pub fn is_other(&self) -> (b: bool)
        ensures
            b == (self.type_specific_data is Other),
    {
        matches!(self.type_specific_data, StreamTypeSpecificData::Other)
    }

    pub fn video_data(&self) -> (r: Option<&VideoStream>)
        ensures
            match self.type_specific_data {
                StreamTypeSpecificData::Video(v) => r == Some(&v),
                _ => r is None,
            },
    {
        match &self.type_specific_data {
            StreamTypeSpecificData::Video(v) => Some(v),
            _ => None,
        }
    }

    pub fn audio_data(&self) -> (r: Option<&AudioStream>)
        ensures
            match self.type_specific_data {
                StreamTypeSpecificData::Audio(a) => r == Some(&a),
                _ => r is None,
            },
    {
        match &self.type_specific_data {
            StreamTypeSpecificData::Audio(a) => Some(a),
            _ => None,
        }
    }
}

impl Clone for FfmpegInput {
    fn clone(&self) -> (r: Self)
        ensures
            r == *self,
    {
        FfmpegInput {
            index: self.index,
            duration: self.duration,
            raw_log_message: self.raw_log_message.clone(),
        }
    }
}

impl Clone for FfmpegOutput {
    fn clone(&self) -> (r: Self)
        ensures
            r == *self,
    {
        FfmpegOutput {
            index: self.index,
            to: self.to.clone(),
            raw_log_message: self.raw_log_message.clone(),
        }
    }
}

impl Clone for AudioStream {
    fn clone(&self) -> (r: Self)
        ensures
            r == *self,
    {
        AudioStream { sample_rate: self.sample_rate, channels: self.channels.clone() }
    }
}

impl Clone for VideoStream {
    fn clone(&self) -> (r: Self)
        ensures
            r == *self,
    {
        VideoStream {
            pix_fmt: self.pix_fmt.clone(),
            width: self.width,
            height: self.height,
            fps: self.fps,
        }
    }
}

impl Clone for StreamTypeSpecificData {
    fn clone(&self) -> (r: Self)
        ensures
            r == *self,
    {
        match self {
            StreamTypeSpecificData::Audio(a) => StreamTypeSpecificData::Audio(a.clone()),
            StreamTypeSpecificData::Video(v) => StreamTypeSpecificData::Video(v.clone()),
            StreamTypeSpecificData::Subtitle => StreamTypeSpecificData::Subtitle,
            StreamTypeSpecificData::Other => StreamTypeSpecificData::Other,
        }
    }
}

impl Clone for FfmpegStream {
    fn clone(&self) -> (r: Self)
        ensures
            r == *self,
    {
        FfmpegStream {
            format: self.format.clone(),
            language: self.language.clone(),
            parent_index: self.parent_index,
            stream_index: self.stream_index,
            raw_log_message: self.raw_log_message.clone(),
            type_specific_data: self.type_specific_data.clone(),
        }
    }
}

/// A transient throughput/position report from a repeatedly-overwritten
/// status line.
#[derive(Clone, Debug, PartialEq)]
pub struct FfmpegProgress {
    pub frame: u32,
    pub fps: Decimal,
    pub q: Decimal,
    pub size_kb: u32,
    /// Kept verbatim, not converted to seconds.
    pub time: String,
    pub bitrate_kbps: Decimal,
    pub speed: Decimal,
    pub raw_log_message: String,
}

/// One unit of typed information decoded from a single diagnostic line.
#[derive(Clone, Debug, PartialEq)]
pub enum FfmpegEvent {
    ParsedVersion(FfmpegVersion),
    ParsedConfiguration(FfmpegConfiguration),
    ParsedStreamMapping(String),
    ParsedInput(FfmpegInput),
    ParsedOutput(FfmpegOutput),
    ParsedDuration(FfmpegDuration),
    ParsedInputStream(FfmpegStream),
    ParsedOutputStream(FfmpegStream),
    Progress(FfmpegProgress),
    Log(LogLevel, String),
    Error(String),
    LogEOF,
}

impl FfmpegEvent {
    /// The text of an error: the payload of an `Error` event or of an
    /// error-level log line, nothing otherwise.
    pub fn error_text(&self) -> (r: Option<&String>)
        ensures
            match self {
                FfmpegEvent::Error(e) => r == Some(e),
                FfmpegEvent::Log(LogLevel::Error, e) => r == Some(e),
                _ => r is None,
            },
    {
        match self {
            FfmpegEvent::Error(e) => Some(e),
            FfmpegEvent::Log(LogLevel::Error, e) => Some(e),
            _ => None,
        }
    }

    pub fn is_eof(&self) -> (b: bool)
        ensures
            b == (*self is LogEOF),
    {
        matches!(self, FfmpegEvent::LogEOF)
    }
}

/// Mathematical image of an input descriptor.
pub ghost struct InputModel {
    pub index: u32,
    pub duration: Option<Decimal>,
    pub raw: Seq<char>,
}

/// Mathematical image of an output descriptor.
pub ghost struct OutputModel {
    pub index: u32,
    pub to: Seq<char>,
    pub raw: Seq<char>,
}

pub ghost struct VideoModel {
    pub pix_fmt: Seq<char>,
    pub width: u32,
    pub height: u32,
    pub fps: Decimal,
}

pub ghost struct AudioModel {
    pub sample_rate: u32,
    pub channels: Seq<char>,
}

pub ghost enum PayloadModel {
    Audio(AudioModel),
    Video(VideoModel),
    Subtitle,
    Other,
}

/// Mathematical image of a stream descriptor.
pub ghost struct StreamModel {
    pub format: Seq<char>,
    pub language: Seq<char>,
    pub parent_index: u32,
    pub stream_index: u32,
    pub raw: Seq<char>,
    pub payload: PayloadModel,
}

/// Mathematical image of a progress snapshot.
pub ghost struct ProgressModel {
    pub frame: u32,
    pub fps: Decimal,
    pub q: Decimal,
    pub size_kb: u32,
    pub time: Seq<char>,
    pub bitrate_kbps: Decimal,
    pub speed: Decimal,
    pub raw: Seq<char>,
}

/// Mathematical image of an event. `UnexpectedStream` stands for the one
/// classification outcome that is reported as an error rather than an event:
/// a stream specification outside an input or output section.
pub ghost enum EventModel {
    Version(Seq<char>, Seq<char>),
    Configuration(Seq<Seq<char>>, Seq<char>),
    StreamMappingEntry(Seq<char>),
    Input(InputModel),
    Output(OutputModel),
    Duration(u32, Decimal, Seq<char>),
    InputStream(StreamModel),
    OutputStream(StreamModel),
    Progress(ProgressModel),
    Log(LogLevel, Seq<char>),
    Error(Seq<char>),
    UnexpectedStream(Seq<char>),
    Eof,
}

pub open spec fn payload_model(d: StreamTypeSpecificData) -> PayloadModel {
    match d {
        StreamTypeSpecificData::Audio(a) => PayloadModel::Audio(
            AudioModel { sample_rate: a.sample_rate, channels: a.channels@ },
        ),
        StreamTypeSpecificData::Video(v) => PayloadModel::Video(
            VideoModel { pix_fmt: v.pix_fmt@, width: v.width, height: v.height, fps: v.fps },
        ),
        StreamTypeSpecificData::Subtitle => PayloadModel::Subtitle,
        StreamTypeSpecificData::Other => PayloadModel::Other,
    }
}

pub open spec fn stream_model(st: FfmpegStream) -> StreamModel {
    StreamModel {
        format: st.format@,
        language: st.language@,
        parent_index: st.parent_index,
        stream_index: st.stream_index,
        raw: st.raw_log_message@,
        payload: payload_model(st.type_specific_data),
    }
}

pub open spec fn input_model(i: FfmpegInput) -> InputModel {
    InputModel { index: i.index, duration: i.duration, raw: i.raw_log_message@ }
}

pub open spec fn output_model(o: FfmpegOutput) -> OutputModel {
    OutputModel { index: o.index, to: o.to@, raw: o.raw_log_message@ }
}

pub open spec fn progress_model(p: FfmpegProgress) -> ProgressModel {
    ProgressModel {
        frame: p.frame,
        fps: p.fps,
        q: p.q,
        size_kb: p.size_kb,
        time: p.time@,
        bitrate_kbps: p.bitrate_kbps,
        speed: p.speed,
        raw: p.raw_log_message@,
    }
}

pub open spec fn event_model(e: FfmpegEvent) -> EventModel {
    match e {
        FfmpegEvent::ParsedVersion(v) => EventModel::Version(v.version@, v.raw_log_message@),
        FfmpegEvent::ParsedConfiguration(c) => EventModel::Configuration(
            c.configuration.deep_view(),
            c.raw_log_message@,
        ),
        FfmpegEvent::ParsedStreamMapping(s) => EventModel::StreamMappingEntry(s@),
        FfmpegEvent::ParsedInput(i) => EventModel::Input(input_model(i)),
        FfmpegEvent::ParsedOutput(o) => EventModel::Output(output_model(o)),
        FfmpegEvent::ParsedDuration(d) => EventModel::Duration(
            d.input_index,
            d.duration,
            d.raw_log_message@,
        ),
        FfmpegEvent::ParsedInputStream(st) => EventModel::InputStream(stream_model(st)),
        FfmpegEvent::ParsedOutputStream(st) => EventModel::OutputStream(stream_model(st)),
        FfmpegEvent::Progress(p) => EventModel::Progress(progress_model(p)),
        FfmpegEvent::Log(lv, s) => EventModel::Log(lv, s@),
        FfmpegEvent::Error(s) => EventModel::Error(s@),
        FfmpegEvent::LogEOF => EventModel::Eof,
    }
}

} // verus!
