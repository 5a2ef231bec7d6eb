//! Frame identities as text and as JSON.
use crate::engine::packet::{FrameProvenance, ImageFrameIdentity, IdentityView, ProvenanceView};
use crate::json::{lemma_object_tree, member_trees, JsonMember, JsonTree, JsonValue};
use crate::source::{SourcePts, SourcePtsProvenance, SourcePtsView};
use crate::text::{concat, decimal, decimal_text, quoted, quoted_text};
use vstd::prelude::*;

verus! {

/// An object of the given members.
pub fn json_object(members: Vec<JsonMember>) -> (r: JsonValue)
    ensures
        r@ == JsonTree::Object(member_trees(members@)),
{
    proof {
        lemma_object_tree(members);
    }
    JsonValue::Object(members)
}

/// A signed integer.
pub open spec fn signed_tree(n: i64) -> JsonTree {
    if n >= 0 {
        JsonTree::Uint(n as u64)
    } else {
        JsonTree::Int(n)
    }
}

fn signed_json(n: i64) -> (r: JsonValue)
    ensures
        r@ == signed_tree(n),
{
    if n >= 0 {
        JsonValue::Uint(n as u64)
    } else {
        JsonValue::Int(n)
    }
}

/// A signed decimal numeral.
pub open spec fn signed_decimal(n: i64) -> Seq<char> {
    if n >= 0 {
        decimal(n as nat)
    } else {
        "-"@ + decimal((-(n as int)) as nat)
    }
}

fn signed_text(n: i64) -> (r: String)
    ensures
        r@ == signed_decimal(n),
{
    if n >= 0 {
        decimal_text(n as u64)
    } else {
        let magnitude: u64 = (-(n as i128)) as u64;
        concat("-", decimal_text(magnitude).as_str())
    }
}

/// A number that may be missing.
pub open spec fn optional_decimal(n: Option<u64>) -> Seq<char> {
    match n {
        Some(n) => "Some("@ + decimal(n as nat) + ")"@,
        None => "None"@,
    }
}

fn optional_text(n: Option<u64>) -> (r: String)
    ensures
        r@ == optional_decimal(n),
{
    match n {
        Some(n) => crate::text::concat3("Some(", decimal_text(n).as_str(), ")"),
        None => "None".to_owned(),
    }
}

/// A 16-bit number that may be missing, as a 64-bit one.
pub open spec fn widened(n: Option<u16>) -> Option<u64> {
    match n {
        Some(n) => Some(n as u64),
        None => None,
    }
}

fn widen(n: Option<u16>) -> (r: Option<u64>)
    ensures
        r == widened(n),
{
    match n {
        Some(n) => Some(n as u64),
        None => None,
    }
}

/// Where a frame came from, in words.
pub open spec fn provenance_text(provenance: ProvenanceView) -> Seq<char> {
    match provenance {
        ProvenanceView::Stream { stream, channel } => "Stream { stream_id: StreamSessionId("@
            + quoted_text(stream) + "), channel: "@ + decimal(channel as nat) + " }"@,
        ProvenanceView::Device { driver, channel, camera, timestamp_ns } =>
            "Device { driver: "@ + quoted_text(driver) + ", channel: "@ + decimal(channel as nat)
            + ", camera: "@ + optional_decimal(widened(camera)) + ", timestamp_ns: "@ + decimal(
            timestamp_ns as nat,
        ) + " }"@,
        ProvenanceView::File { source } => "File { source: "@ + quoted_text(source) + " }"@,
        ProvenanceView::Unknown { reason } => "Unknown { reason: "@ + quoted_text(reason) + " }"@,
    }
}

fn describe_provenance(provenance: &FrameProvenance) -> (r: String)
    ensures
        r@ == provenance_text(provenance@),
{
    match provenance {
        FrameProvenance::Stream { stream_id, channel } => {
            let mut s: String = "Stream { stream_id: StreamSessionId(".to_owned();
            s.append(quoted(stream_id.value.as_str()).as_str());
            s.append("), channel: ");
            s.append(decimal_text(*channel as u64).as_str());
            s.append(" }");
            s
        },
        FrameProvenance::Device { driver, channel, camera, timestamp_ns } => {
            let mut s: String = "Device { driver: ".to_owned();
            s.append(quoted(driver.as_str()).as_str());
            s.append(", channel: ");
            s.append(decimal_text(*channel as u64).as_str());
            s.append(", camera: ");
            s.append(optional_text(widen(*camera)).as_str());
            s.append(", timestamp_ns: ");
            s.append(decimal_text(*timestamp_ns).as_str());
            s.append(" }");
            s
        },
        FrameProvenance::File { source } => {
            let mut s: String = "File { source: ".to_owned();
            s.append(quoted(source.as_str()).as_str());
            s.append(" }");
            s
        },
        FrameProvenance::Unknown { reason } => {
            let mut s: String = "Unknown { reason: ".to_owned();
            s.append(quoted(reason.as_str()).as_str());
            s.append(" }");
            s
        },
    }
}

/// Who stamped a presentation time, as metadata names it.
pub open spec fn stamp_label(provenance: SourcePtsProvenance) -> Seq<char> {
    match provenance {
        SourcePtsProvenance::FfmpegDecodedFrame => "ffmpegDecodedFrame"@,
        SourcePtsProvenance::FfmpegShowinfo => "ffmpegShowinfo"@,
        SourcePtsProvenance::Unavailable => "unavailable"@,
    }
}

fn stamp_name(provenance: SourcePtsProvenance) -> (r: &'static str)
    ensures
        r@ == stamp_label(provenance),
{
    match provenance {
        SourcePtsProvenance::FfmpegDecodedFrame => "ffmpegDecodedFrame",
        SourcePtsProvenance::FfmpegShowinfo => "ffmpegShowinfo",
        SourcePtsProvenance::Unavailable => "unavailable",
    }
}

/// Who stamped a presentation time, in words.
pub open spec fn stamp_variant(provenance: SourcePtsProvenance) -> Seq<char> {
    match provenance {
        SourcePtsProvenance::FfmpegDecodedFrame => "FfmpegDecodedFrame"@,
        SourcePtsProvenance::FfmpegShowinfo => "FfmpegShowinfo"@,
        SourcePtsProvenance::Unavailable => "Unavailable"@,
    }
}

fn stamp_variant_name(provenance: SourcePtsProvenance) -> (r: &'static str)
    ensures
        r@ == stamp_variant(provenance),
{
    match provenance {
        SourcePtsProvenance::FfmpegDecodedFrame => "FfmpegDecodedFrame",
        SourcePtsProvenance::FfmpegShowinfo => "FfmpegShowinfo",
        SourcePtsProvenance::Unavailable => "Unavailable",
    }
}

/// A presentation time in words.
pub open spec fn pts_text(pts: SourcePtsView) -> Seq<char> {
    match pts {
        SourcePtsView::Known { ticks, time_base_numerator, time_base_denominator, provenance } =>
            "Known { ticks: "@ + signed_decimal(ticks) + ", time_base_numerator: "@ + decimal(
            time_base_numerator as nat,
        ) + ", time_base_denominator: "@ + decimal(time_base_denominator as nat)
            + ", provenance: "@ + stamp_variant(provenance) + " }"@,
        SourcePtsView::Unavailable { reason } => "Unavailable { reason: "@ + quoted_text(reason) + " }"@,
    }
}

fn describe_pts(pts: &SourcePts) -> (r: String)
    ensures
        r@ == pts_text(pts@),
{
    match pts {
        SourcePts::Known { ticks, time_base_numerator, time_base_denominator, provenance } => {
            let mut s: String = "Known { ticks: ".to_owned();
            s.append(signed_text(*ticks).as_str());
            s.append(", time_base_numerator: ");
            s.append(decimal_text(*time_base_numerator as u64).as_str());
            s.append(", time_base_denominator: ");
            s.append(decimal_text(*time_base_denominator as u64).as_str());
            s.append(", provenance: ");
            s.append(stamp_variant_name(*provenance));
            s.append(" }");
            s
        },
        SourcePts::Unavailable { reason } => {
            let mut s: String = "Unavailable { reason: ".to_owned();
            s.append(quoted(reason.as_str()).as_str());
            s.append(" }");
            s
        },
    }
}

/// The reference to an image that only lives as long as the process: its identity in words.
pub open spec fn image_reference(identity: IdentityView) -> Seq<char> {
    "runtime://frame/ImageFrameIdentity { provenance: "@ + provenance_text(identity.provenance)
        + ", frame_sequence: "@ + decimal(identity.frame_sequence as nat) + ", source_pts: "@
        + pts_text(identity.source_pts) + ", host_monotonic_time_ns: "@ + decimal(
        identity.host_monotonic_time_ns as nat,
    ) + ", device_timestamp_ns: "@ + optional_decimal(identity.device_timestamp_ns) + " }"@
}

pub fn runtime_image_reference(identity: &ImageFrameIdentity) -> (r: String)
    ensures
        r@ == image_reference(identity@),
{
    let mut s: String = "runtime://frame/ImageFrameIdentity { provenance: ".to_owned();
    s.append(describe_provenance(&identity.provenance).as_str());
    s.append(", frame_sequence: ");
    s.append(decimal_text(identity.frame_sequence).as_str());
    s.append(", source_pts: ");
    s.append(describe_pts(&identity.source_pts).as_str());
    s.append(", host_monotonic_time_ns: ");
    s.append(decimal_text(identity.host_monotonic_time_ns).as_str());
    s.append(", device_timestamp_ns: ");
    s.append(optional_text(identity.device_timestamp_ns).as_str());
    s.append(" }");
    s
}

/// Where a frame came from, as metadata.
pub open spec fn source_tree(provenance: ProvenanceView) -> JsonTree {
    match provenance {
        ProvenanceView::Stream { stream, channel } => JsonTree::Object(
            seq![
                ("kind"@, JsonTree::Text("stream"@)),
                ("streamId"@, JsonTree::Text(stream)),
                ("channel"@, JsonTree::Uint(channel as u64)),
            ],
        ),
        ProvenanceView::Device { driver, channel, camera, timestamp_ns } => JsonTree::Object(
            seq![
                ("kind"@, JsonTree::Text("device"@)),
                ("driver"@, JsonTree::Text(driver)),
                ("channel"@, JsonTree::Uint(channel as u64)),
                (
                    "camera"@,
                    match widened(camera) {
                        Some(n) => JsonTree::Uint(n),
                        None => JsonTree::Null,
                    },
                ),
                ("timestampNs"@, JsonTree::Uint(timestamp_ns)),
            ],
        ),
        ProvenanceView::File { source } => JsonTree::Object(
            seq![("kind"@, JsonTree::Text("file"@)), ("source"@, JsonTree::Text(source))],
        ),
        ProvenanceView::Unknown { reason } => JsonTree::Object(
            seq![("kind"@, JsonTree::Text("unknown"@)), ("reason"@, JsonTree::Text(reason))],
        ),
    }
}

fn source_json(provenance: &FrameProvenance) -> (r: JsonValue)
    ensures
        r@ == source_tree(provenance@),
{
    let mut members: Vec<JsonMember> = Vec::new();
    match provenance {
        FrameProvenance::Stream { stream_id, channel } => {
            members.push(JsonMember::new("kind", JsonValue::string("stream")));
            members.push(
                JsonMember::new("streamId", JsonValue::string(stream_id.value.as_str())),
            );
            members.push(JsonMember::new("channel", JsonValue::Uint(*channel as u64)));
        },
        FrameProvenance::Device { driver, channel, camera, timestamp_ns } => {
            members.push(JsonMember::new("kind", JsonValue::string("device")));
            members.push(JsonMember::new("driver", JsonValue::string(driver.as_str())));
            members.push(JsonMember::new("channel", JsonValue::Uint(*channel as u64)));
            members.push(JsonMember::new("camera", JsonValue::optional_uint(widen(*camera))));
            members.push(JsonMember::new("timestampNs", JsonValue::Uint(*timestamp_ns)));
        },
        FrameProvenance::File { source } => {
            members.push(JsonMember::new("kind", JsonValue::string("file")));
            members.push(JsonMember::new("source", JsonValue::string(source.as_str())));
        },
        FrameProvenance::Unknown { reason } => {
            members.push(JsonMember::new("kind", JsonValue::string("unknown")));
            members.push(JsonMember::new("reason", JsonValue::string(reason.as_str())));
        },
    }
    proof {
        assert(member_trees(members@) =~= source_tree(provenance@)->Object_0);
    }
    json_object(members)
}

/// A presentation time as metadata.
pub open spec fn pts_tree(pts: SourcePtsView) -> JsonTree {
    match pts {
        SourcePtsView::Known { ticks, time_base_numerator, time_base_denominator, provenance } =>
            JsonTree::Object(
            seq![
                ("kind"@, JsonTree::Text("known"@)),
                ("ticks"@, signed_tree(ticks)),
                (
                    "timeBase"@,
                    JsonTree::Object(
                        seq![
                            ("numerator"@, JsonTree::Uint(time_base_numerator as u64)),
                            ("denominator"@, JsonTree::Uint(time_base_denominator as u64)),
                        ],
                    ),
                ),
                ("provenance"@, JsonTree::Text(stamp_label(provenance))),
            ],
        ),
        SourcePtsView::Unavailable { reason } => JsonTree::Object(
            seq![("kind"@, JsonTree::Text("unavailable"@)), ("reason"@, JsonTree::Text(reason))],
        ),
    }
}

fn pts_json(pts: &SourcePts) -> (r: JsonValue)
    ensures
        r@ == pts_tree(pts@),
{
    let mut members: Vec<JsonMember> = Vec::new();
    match pts {
        SourcePts::Known { ticks, time_base_numerator, time_base_denominator, provenance } => {
            let mut base: Vec<JsonMember> = Vec::new();
            base.push(JsonMember::new("numerator", JsonValue::Uint(*time_base_numerator as u64)));
            base.push(
                JsonMember::new("denominator", JsonValue::Uint(*time_base_denominator as u64)),
            );
            proof {
                assert(member_trees(base@) =~= seq![
                    ("numerator"@, JsonTree::Uint(*time_base_numerator as u64)),
                    ("denominator"@, JsonTree::Uint(*time_base_denominator as u64)),
                ]);
            }
            members.push(JsonMember::new("kind", JsonValue::string("known")));
            members.push(JsonMember::new("ticks", signed_json(*ticks)));
            members.push(JsonMember::new("timeBase", json_object(base)));
            members.push(
                JsonMember::new("provenance", JsonValue::string(stamp_name(*provenance))),
            );
        },
        SourcePts::Unavailable { reason } => {
            members.push(JsonMember::new("kind", JsonValue::string("unavailable")));
            members.push(JsonMember::new("reason", JsonValue::string(reason.as_str())));
        },
    }
    proof {
        assert(member_trees(members@) =~= pts_tree(pts@)->Object_0);
    }
    json_object(members)
}

/// The origin of a sample: its source and the identity of its frame.
pub open spec fn provenance_tree(identity: IdentityView) -> JsonTree {
    JsonTree::Object(
        seq![
            ("source"@, source_tree(identity.provenance)),
            (
                "frameIdentity"@,
                JsonTree::Object(
                    seq![
                        ("frameSequence"@, JsonTree::Uint(identity.frame_sequence)),
                        ("sourcePts"@, pts_tree(identity.source_pts)),
                        (
                            "hostMonotonicTimeNs"@,
                            JsonTree::Uint(identity.host_monotonic_time_ns),
                        ),
                    ],
                ),
            ),
        ],
    )
}

/// The origin of a sample.
pub fn sample_provenance(identity: &ImageFrameIdentity) -> (r: JsonValue)
    ensures
        r@ == provenance_tree(identity@),
{
    let mut frame: Vec<JsonMember> = Vec::new();
    frame.push(JsonMember::new("frameSequence", JsonValue::Uint(identity.frame_sequence)));
    frame.push(JsonMember::new("sourcePts", pts_json(&identity.source_pts)));
    frame.push(
        JsonMember::new("hostMonotonicTimeNs", JsonValue::Uint(identity.host_monotonic_time_ns)),
    );
    let ghost expected = provenance_tree(identity@)->Object_0;
    proof {
        assert(member_trees(frame@) =~= expected[1].1->Object_0);
    }
    let mut members: Vec<JsonMember> = Vec::new();
    members.push(JsonMember::new("source", source_json(&identity.provenance)));
    members.push(JsonMember::new("frameIdentity", json_object(frame)));
    proof {
        assert(member_trees(members@) =~= expected);
    }
    json_object(members)
}

} // verus!
