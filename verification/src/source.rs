//! Identities of files, streams and frames.
use crate::text::{blank, is_blank, same_text};
use vstd::prelude::*;

verus! {

/// An identifier is empty or white space alone.
#[derive(Clone, Copy, Debug, PartialEq, Eq, Structural)]
pub struct BlankIdentifier;

/// The source that a file lives in.
#[derive(Debug, PartialEq, Eq, Hash)]
pub struct FileSourceId {
    pub value: String,
}

/// The path of a file within its source.
#[derive(Debug, PartialEq, Eq, Hash)]
pub struct SourcePath {
    pub value: String,
}

/// One live stream session.
#[derive(Debug, PartialEq, Eq, Hash)]
pub struct StreamSessionId {
    pub value: String,
}

impl Clone for FileSourceId {
    fn clone(&self) -> (r: Self)
        ensures
            r == *self,
    {
        FileSourceId { value: self.value.clone() }
    }
}

impl Clone for SourcePath {
    fn clone(&self) -> (r: Self)
        ensures
            r == *self,
    {
        SourcePath { value: self.value.clone() }
    }
}

impl Clone for StreamSessionId {
    fn clone(&self) -> (r: Self)
        ensures
            r == *self,
    {
        StreamSessionId { value: self.value.clone() }
    }
}

impl FileSourceId {
    pub fn new(value: &str) -> (r: Result<FileSourceId, BlankIdentifier>)
        ensures
            match r {
                Ok(id) => !blank(value@) && id.value@ == value@,
                Err(_) => blank(value@),
            },
    {
        if is_blank(value) {
            Err(BlankIdentifier)
        } else {
            Ok(FileSourceId { value: value.to_owned() })
        }
    }
}

impl SourcePath {
    pub fn new(value: &str) -> (r: Result<SourcePath, BlankIdentifier>)
        ensures
            match r {
                Ok(path) => !blank(value@) && path.value@ == value@,
                Err(_) => blank(value@),
            },
    {
        if is_blank(value) {
            Err(BlankIdentifier)
        } else {
            Ok(SourcePath { value: value.to_owned() })
        }
    }
}

impl StreamSessionId {
    pub fn new(value: &str) -> (r: Result<StreamSessionId, BlankIdentifier>)
        ensures
            match r {
                Ok(id) => !blank(value@) && id.value@ == value@,
                Err(_) => blank(value@),
            },
    {
        if is_blank(value) {
            Err(BlankIdentifier)
        } else {
            Ok(StreamSessionId { value: value.to_owned() })
        }
    }
}

/// A file in a file source.
#[derive(Debug, PartialEq, Eq, Hash)]
pub struct FileRef {
    pub source: FileSourceId,
    pub path: SourcePath,
}

/// A file reference as the texts that identify it.
pub struct FileRefView {
    pub source: Seq<char>,
    pub path: Seq<char>,
}

impl View for FileRef {
    type V = FileRefView;

    open spec fn view(&self) -> FileRefView {
        FileRefView { source: self.source.value@, path: self.path.value@ }
    }
}

impl Clone for FileRef {
    fn clone(&self) -> (r: Self)
        ensures
            r == *self,
    {
        FileRef { source: self.source.clone(), path: self.path.clone() }
    }
}

impl FileRef {
    pub fn new(source: FileSourceId, path: SourcePath) -> (r: FileRef)
        ensures
            r == (FileRef { source, path }),
    {
        FileRef { source, path }
    }

    pub fn eq_value(&self, other: &FileRef) -> (r: bool)
        ensures
            r == (self@ == other@),
    {
        same_text(self.source.value.as_str(), other.source.value.as_str()) && same_text(
            self.path.value.as_str(),
            other.path.value.as_str(),
        )
    }
}

/// The state of a file that a read is bound to.
#[derive(Clone, Copy, Debug, PartialEq, Eq, Hash, Structural)]
pub struct FileVersion {
    pub size: u64,
    pub modified_millis: Option<u64>,
}

impl FileVersion {
    pub fn eq_value(&self, other: &FileVersion) -> (r: bool)
        ensures
            r == (self == other),
    {
        self.size == other.size && match (self.modified_millis, other.modified_millis) {
            (Some(a), Some(b)) => a == b,
            (None, None) => true,
            _ => false,
        }
    }
}

/// Who stamped a presentation time on a frame.
#[derive(Clone, Copy, Debug, PartialEq, Eq, Hash, Structural)]
pub enum SourcePtsProvenance {
    FfmpegDecodedFrame,
    FfmpegShowinfo,
    Unavailable,
}

/// The presentation time of a frame in its stream's time base.
#[derive(Debug, PartialEq, Eq)]
pub enum SourcePts {
    Known {
        ticks: i64,
        time_base_numerator: u32,
        time_base_denominator: u32,
        provenance: SourcePtsProvenance,
    },
    Unavailable { reason: String },
}

/// A presentation time by its values.
pub enum SourcePtsView {
    Known {
        ticks: i64,
        time_base_numerator: u32,
        time_base_denominator: u32,
        provenance: SourcePtsProvenance,
    },
    Unavailable { reason: Seq<char> },
}

impl View for SourcePts {
    type V = SourcePtsView;

    open spec fn view(&self) -> SourcePtsView {
        match *self {
            SourcePts::Known { ticks, time_base_numerator, time_base_denominator, provenance } =>
                SourcePtsView::Known {
                ticks,
                time_base_numerator,
                time_base_denominator,
                provenance,
            },
            SourcePts::Unavailable { reason } => SourcePtsView::Unavailable { reason: reason@ },
        }
    }
}

impl Clone for SourcePts {
    fn clone(&self) -> (r: Self)
        ensures
            r == *self,
    {
        match self {
            SourcePts::Known { ticks, time_base_numerator, time_base_denominator, provenance } =>
                SourcePts::Known {
                ticks: *ticks,
                time_base_numerator: *time_base_numerator,
                time_base_denominator: *time_base_denominator,
                provenance: *provenance,
            },
            SourcePts::Unavailable { reason } => SourcePts::Unavailable { reason: reason.clone() },
        }
    }
}

impl SourcePts {
    pub fn eq_value(&self, other: &SourcePts) -> (r: bool)
        ensures
            r == (self@ == other@),
    {
        match (self, other) {
            (
                SourcePts::Known { ticks, time_base_numerator, time_base_denominator, provenance },
                SourcePts::Known {
                    ticks: other_ticks,
                    time_base_numerator: other_numerator,
                    time_base_denominator: other_denominator,
                    provenance: other_provenance,
                },
            ) => *ticks == *other_ticks && *time_base_numerator == *other_numerator
                && *time_base_denominator == *other_denominator && *provenance
                == *other_provenance,
            (
                SourcePts::Unavailable { reason },
                SourcePts::Unavailable { reason: other_reason },
            ) => same_text(reason.as_str(), other_reason.as_str()),
            _ => false,
        }
    }
}

/// One frame of a live stream.
#[derive(Debug)]
pub struct StreamFrameIdentity {
    pub stream_id: StreamSessionId,
    pub channel: u16,
    pub frame_sequence: u64,
    pub source_pts: SourcePts,
    pub host_monotonic_time_ns: u64,
    pub device_timestamp_ns: Option<u64>,
}

impl StreamFrameIdentity {
    /// A frame without timing, stamped by a source that is not a stream.
    pub fn unavailable(
        stream_id: StreamSessionId,
        channel: u16,
        frame_sequence: u64,
        reason: String,
    ) -> (r: StreamFrameIdentity)
        ensures
            r == (StreamFrameIdentity {
                stream_id,
                channel,
                frame_sequence,
                source_pts: SourcePts::Unavailable { reason },
                host_monotonic_time_ns: 0,
                device_timestamp_ns: None,
            }),
    {
        StreamFrameIdentity {
            stream_id,
            channel,
            frame_sequence,
            source_pts: SourcePts::Unavailable { reason },
            host_monotonic_time_ns: 0,
            device_timestamp_ns: None,
        }
    }
}

} // verus!
