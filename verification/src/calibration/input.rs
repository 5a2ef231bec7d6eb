//! What enters a calibration dataset: keys, revisions and encoded images.
use crate::calibration::error::CalibrationInputError;
use crate::digest::be_value;
use crate::model::{CalibrationDataError, CalibrationImageSize};
use crate::source::{FileRef, FileRefView, FileVersion, StreamFrameIdentity, StreamSessionId};
use crate::text::same_text;
use vstd::prelude::*;

verus! {

/// The identity of a dataset item within its session.
#[derive(Clone, Copy, Debug, PartialEq, Eq, Hash, Structural)]
pub struct CalibrationItemId(pub u64);

impl CalibrationItemId {
    pub fn get(self) -> (r: u64)
        ensures
            r == self.0,
    {
        self.0
    }
}

/// The identity of an automatic candidate, which exists before its dataset item does.
#[derive(Clone, Copy, Debug, PartialEq, Eq, Hash, Structural)]
pub struct AutoCandidateId(pub u64);

impl AutoCandidateId {
    pub fn new(value: u64) -> (r: AutoCandidateId)
        ensures
            r == AutoCandidateId(value),
    {
        AutoCandidateId(value)
    }

    pub fn get(self) -> (r: u64)
        ensures
            r == self.0,
    {
        self.0
    }
}

/// The identity of a live frame in a dataset. Timestamps are no part of it: two captures of one
/// frame are one item.
#[derive(Debug, PartialEq, Eq, Hash)]
pub struct StreamCaptureId {
    pub stream_id: StreamSessionId,
    pub channel: u16,
    pub frame_sequence: u64,
}

impl Clone for StreamCaptureId {
    fn clone(&self) -> (r: Self)
        ensures
            r == *self,
    {
        StreamCaptureId {
            stream_id: self.stream_id.clone(),
            channel: self.channel,
            frame_sequence: self.frame_sequence,
        }
    }
}

impl StreamCaptureId {
    /// The capture identity of a stream frame.
    pub open spec fn of(identity: StreamFrameIdentity) -> StreamCaptureId {
        StreamCaptureId {
            stream_id: identity.stream_id,
            channel: identity.channel,
            frame_sequence: identity.frame_sequence,
        }
    }

    pub fn from(identity: &StreamFrameIdentity) -> (r: StreamCaptureId)
        ensures
            r == StreamCaptureId::of(*identity),
    {
        StreamCaptureId {
            stream_id: identity.stream_id.clone(),
            channel: identity.channel,
            frame_sequence: identity.frame_sequence,
        }
    }
}

/// What a dataset item was made from. A live snapshot is no file.
#[derive(Debug, PartialEq, Eq, Hash)]
pub enum CalibrationInputKey {
    File(FileRef),
    StreamCapture(StreamCaptureId),
}

/// An input key by its values.
pub enum InputKeyView {
    File(FileRefView),
    StreamCapture { stream: Seq<char>, channel: u16, frame_sequence: u64 },
}

impl View for CalibrationInputKey {
    type V = InputKeyView;

    open spec fn view(&self) -> InputKeyView {
        match *self {
            CalibrationInputKey::File(reference) => InputKeyView::File(reference@),
            CalibrationInputKey::StreamCapture(capture) => InputKeyView::StreamCapture {
                stream: capture.stream_id.value@,
                channel: capture.channel,
                frame_sequence: capture.frame_sequence,
            },
        }
    }
}

impl CalibrationInputKey {
    pub fn file_reference(&self) -> (r: Option<&FileRef>)
        ensures
            r == (match self {
                CalibrationInputKey::File(reference) => Some(reference),
                CalibrationInputKey::StreamCapture(_) => None,
            }),
    {
        match self {
            CalibrationInputKey::File(reference) => Some(reference),
            CalibrationInputKey::StreamCapture(_) => None,
        }
    }

    /// Whether two keys name the same input.
    pub fn eq_value(&self, other: &CalibrationInputKey) -> (r: bool)
        ensures
            r == (self@ == other@),
    {
        match (self, other) {
            (CalibrationInputKey::File(a), CalibrationInputKey::File(b)) => a.eq_value(b),
            (CalibrationInputKey::StreamCapture(a), CalibrationInputKey::StreamCapture(b)) =>
                same_text(a.stream_id.value.as_str(), b.stream_id.value.as_str()) && a.channel
                == b.channel && a.frame_sequence == b.frame_sequence,
            _ => false,
        }
    }
}

impl From<FileRef> for CalibrationInputKey {
    fn from(reference: FileRef) -> (r: CalibrationInputKey) {
        CalibrationInputKey::File(reference)
    }
}

impl vstd::std_specs::convert::FromSpecImpl<FileRef> for CalibrationInputKey {
    open spec fn obeys_from_spec() -> bool {
        true
    }

    open spec fn from_spec(reference: FileRef) -> CalibrationInputKey {
        CalibrationInputKey::File(reference)
    }
}

/// The immutable revision of an input that a detection is bound to.
#[derive(Debug, PartialEq, Eq)]
pub enum CalibrationInputRevision {
    File(FileVersion),
    EphemeralPng { content_sha256: String, encoded_bytes: u64 },
}

/// A revision by its values.
pub enum RevisionView {
    File(FileVersion),
    EphemeralPng { content_sha256: Seq<char>, encoded_bytes: u64 },
}

impl View for CalibrationInputRevision {
    type V = RevisionView;

    open spec fn view(&self) -> RevisionView {
        match *self {
            CalibrationInputRevision::File(version) => RevisionView::File(version),
            CalibrationInputRevision::EphemeralPng { content_sha256, encoded_bytes } =>
                RevisionView::EphemeralPng { content_sha256: content_sha256@, encoded_bytes },
        }
    }
}

impl Clone for CalibrationInputRevision {
    fn clone(&self) -> (r: Self)
        ensures
            r == *self,
    {
        match self {
            CalibrationInputRevision::File(version) => CalibrationInputRevision::File(*version),
            CalibrationInputRevision::EphemeralPng { content_sha256, encoded_bytes } =>
                CalibrationInputRevision::EphemeralPng {
                content_sha256: content_sha256.clone(),
                encoded_bytes: *encoded_bytes,
            },
        }
    }
}

impl CalibrationInputRevision {
    pub fn encoded_bytes(&self) -> (r: u64)
        ensures
            r == (match *self {
                CalibrationInputRevision::File(version) => version.size,
                CalibrationInputRevision::EphemeralPng { encoded_bytes, .. } => encoded_bytes,
            }),
    {
        match self {
            CalibrationInputRevision::File(version) => version.size,
            CalibrationInputRevision::EphemeralPng { encoded_bytes, .. } => *encoded_bytes,
        }
    }

    pub fn file_version(&self) -> (r: Option<FileVersion>)
        ensures
            r == (match *self {
                CalibrationInputRevision::File(version) => Some(version),
                CalibrationInputRevision::EphemeralPng { .. } => None::<FileVersion>,
            }),
    {
        match self {
            CalibrationInputRevision::File(version) => Some(*version),
            CalibrationInputRevision::EphemeralPng { .. } => None,
        }
    }

    /// Whether two revisions are the same.
    pub fn eq_value(&self, other: &CalibrationInputRevision) -> (r: bool)
        ensures
            r == (self@ == other@),
    {
        match (self, other) {
            (CalibrationInputRevision::File(a), CalibrationInputRevision::File(b)) => a.eq_value(b),
            (
                CalibrationInputRevision::EphemeralPng { content_sha256, encoded_bytes },
                CalibrationInputRevision::EphemeralPng {
                    content_sha256: other_sha256,
                    encoded_bytes: other_bytes,
                },
            ) => same_text(content_sha256.as_str(), other_sha256.as_str()) && *encoded_bytes
                == *other_bytes,
            _ => false,
        }
    }
}

impl From<FileVersion> for CalibrationInputRevision {
    fn from(version: FileVersion) -> (r: CalibrationInputRevision) {
        CalibrationInputRevision::File(version)
    }
}

impl vstd::std_specs::convert::FromSpecImpl<FileVersion> for CalibrationInputRevision {
    open spec fn obeys_from_spec() -> bool {
        true
    }

    open spec fn from_spec(version: FileVersion) -> CalibrationInputRevision {
        CalibrationInputRevision::File(version)
    }
}

/// An encoded image with the size its header states and the revision it was read at.
#[derive(Debug)]
pub struct CalibrationEncodedPng {
    pub bytes: Vec<u8>,
    pub image_size: CalibrationImageSize,
    pub source_revision: CalibrationInputRevision,
}

/// What a bounded read of a file reports.
#[derive(Clone, Copy, Debug, PartialEq, Eq, Structural)]
pub struct ReadOutcome {
    pub source_version: FileVersion,
    pub bytes_read: u64,
}

/// What forbids reading a file of the version `entry`, if anything does.
pub open spec fn read_refusal(entry: FileVersion, expected: FileVersion, limit: u64) -> Option<
    CalibrationInputError,
> {
    if entry != expected {
        Some(CalibrationInputError::SourceChanged { expected, actual: entry })
    } else if entry.size > limit {
        Some(CalibrationInputError::EncodedImageTooLarge { size: entry.size, limit })
    } else if entry.size > usize::MAX {
        Some(
            CalibrationInputError::EncodedImageTooLarge {
                size: entry.size,
                limit: usize::MAX as u64,
            },
        )
    } else {
        None
    }
}

/// Decides, before any byte is read, whether a file may be read; gives the number of bytes to
/// expect.
pub fn plan_calibration_png(
    entry: FileVersion,
    expected_version: FileVersion,
    max_encoded_bytes: u64,
) -> (r: Result<usize, CalibrationInputError>)
    ensures
        match read_refusal(entry, expected_version, max_encoded_bytes) {
            Some(e) => r == Err::<usize, CalibrationInputError>(e),
            None => r is Ok && r->Ok_0 == entry.size,
        },
{
    if !entry.eq_value(&expected_version) {
        return Err(
            CalibrationInputError::SourceChanged { expected: expected_version, actual: entry },
        );
    }
    if entry.size > max_encoded_bytes {
        return Err(
            CalibrationInputError::EncodedImageTooLarge {
                size: entry.size,
                limit: max_encoded_bytes,
            },
        );
    }
    if entry.size > usize::MAX as u64 {
        return Err(
            CalibrationInputError::EncodedImageTooLarge {
                size: entry.size,
                limit: usize::MAX as u64,
            },
        );
    }
    Ok(entry.size as usize)
}

/// Accepts the bytes of a finished read: the file was allowed to be read, did not change while it
/// was read, was read to its end, and begins with a PNG header.
pub fn read_calibration_png(
    entry: FileVersion,
    expected_version: FileVersion,
    max_encoded_bytes: u64,
    outcome: ReadOutcome,
    bytes: Vec<u8>,
) -> (r: Result<CalibrationEncodedPng, CalibrationInputError>)
    ensures
        match read_refusal(entry, expected_version, max_encoded_bytes) {
            Some(e) => r == Err::<CalibrationEncodedPng, CalibrationInputError>(e),
            None => if outcome.source_version != expected_version || outcome.bytes_read
                != entry.size {
                r == Err::<CalibrationEncodedPng, CalibrationInputError>(
                    CalibrationInputError::SourceChanged {
                        expected: expected_version,
                        actual: outcome.source_version,
                    },
                )
            } else {
                match png_dimensions(bytes@) {
                    Ok(image_size) => r == Ok::<CalibrationEncodedPng, CalibrationInputError>(
                        CalibrationEncodedPng {
                            bytes,
                            image_size,
                            source_revision: CalibrationInputRevision::File(
                                outcome.source_version,
                            ),
                        },
                    ),
                    Err(e) => r == Err::<CalibrationEncodedPng, CalibrationInputError>(e),
                }
            },
        },
{
    match plan_calibration_png(entry, expected_version, max_encoded_bytes) {
        Err(e) => {
            return Err(e);
        },
        Ok(_) => {},
    }
    if !outcome.source_version.eq_value(&expected_version) || outcome.bytes_read != entry.size {
        return Err(
            CalibrationInputError::SourceChanged {
                expected: expected_version,
                actual: outcome.source_version,
            },
        );
    }
    match parse_png_dimensions(bytes.as_slice()) {
        Ok(image_size) => Ok(
            CalibrationEncodedPng {
                bytes,
                image_size,
                source_revision: CalibrationInputRevision::File(outcome.source_version),
            },
        ),
        Err(e) => Err(e),
    }
}

/// Whether the bytes begin with the PNG signature and the head of an `IHDR` chunk.
pub open spec fn png_header(bytes: Seq<u8>) -> bool {
    &&& bytes.len() >= 24
    &&& bytes.subrange(0, 8) == seq![0x89u8, 0x50, 0x4e, 0x47, 0x0d, 0x0a, 0x1a, 0x0a]
    &&& be_value(bytes.subrange(8, 12)) == 13
    &&& bytes.subrange(12, 16) == seq![0x49u8, 0x48, 0x44, 0x52]
}

/// The image size that a PNG header states.
pub open spec fn png_dimensions(bytes: Seq<u8>) -> Result<
    CalibrationImageSize,
    CalibrationInputError,
> {
    if !png_header(bytes) {
        Err(CalibrationInputError::InvalidPngHeader)
    } else {
        let width = be_value(bytes.subrange(16, 20)) as u32;
        let height = be_value(bytes.subrange(20, 24)) as u32;
        if width > 0 && height > 0 {
            Ok(CalibrationImageSize { width, height })
        } else {
            Err(
                CalibrationInputError::InvalidData(
                    CalibrationDataError::EmptyImage { width, height },
                ),
            )
        }
    }
}

/// The 32-bit number at `at`, most significant byte first.
fn u32_at(bytes: &[u8], at: usize) -> (r: u32)
    requires
        at + 4 <= bytes.len(),
    ensures
        r == be_value(bytes@.subrange(at as int, at + 4)),
{
    proof {
        let s = bytes@.subrange(at as int, at + 4);
        reveal_with_fuel(be_value, 5);
        assert(s.drop_last() =~= bytes@.subrange(at as int, at + 3));
        assert(s.drop_last().drop_last() =~= bytes@.subrange(at as int, at + 2));
        assert(s.drop_last().drop_last().drop_last() =~= bytes@.subrange(at as int, at + 1));
        assert(s.drop_last().drop_last().drop_last().drop_last() =~= Seq::<u8>::empty());
    }
    ((bytes[at] as u32 * 256 + bytes[at + 1] as u32) * 256 + bytes[at + 2] as u32) * 256 + bytes[at
        + 3] as u32
}

/// Reads the image size out of a PNG header.
pub fn parse_png_dimensions(bytes: &[u8]) -> (r: Result<
    CalibrationImageSize,
    CalibrationInputError,
>)
    ensures
        r == png_dimensions(bytes@),
{
    if bytes.len() < 24 {
        return Err(CalibrationInputError::InvalidPngHeader);
    }
    let signature: bool = bytes[0] == 0x89 && bytes[1] == 0x50 && bytes[2] == 0x4e && bytes[3]
        == 0x47 && bytes[4] == 0x0d && bytes[5] == 0x0a && bytes[6] == 0x1a && bytes[7] == 0x0a;
    let chunk: bool = bytes[12] == 0x49 && bytes[13] == 0x48 && bytes[14] == 0x44 && bytes[15]
        == 0x52;
    proof {
        let want = seq![0x89u8, 0x50, 0x4e, 0x47, 0x0d, 0x0a, 0x1a, 0x0a];
        let head = bytes@.subrange(0, 8);
        if signature {
            assert(head =~= want);
        } else {
            assert(head[0] == bytes@[0] && head[1] == bytes@[1] && head[2] == bytes@[2] && head[3]
                == bytes@[3] && head[4] == bytes@[4] && head[5] == bytes@[5] && head[6]
                == bytes@[6] && head[7] == bytes@[7]);
            assert(head != want);
        }
        let name = bytes@.subrange(12, 16);
        let ihdr = seq![0x49u8, 0x48, 0x44, 0x52];
        if chunk {
            assert(name =~= ihdr);
        } else {
            assert(name[0] == bytes@[12] && name[1] == bytes@[13] && name[2] == bytes@[14]
                && name[3] == bytes@[15]);
            assert(name != ihdr);
        }
    }
    if !signature || u32_at(bytes, 8) != 13 || !chunk {
        return Err(CalibrationInputError::InvalidPngHeader);
    }
    match CalibrationImageSize::new(u32_at(bytes, 16), u32_at(bytes, 20)) {
        Ok(size) => Ok(size),
        Err(e) => Err(CalibrationInputError::InvalidData(e)),
    }
}

} // verus!
