//! The local file source: one picture, named by a root, a directory and a selection.
use crate::asset::share;
use crate::engine::node::{channel_full, NodeAction, NodeError, NodeErrorView};
use crate::engine::nodes::config::{config_text, failed, text_or};
use crate::engine::nodes::raster::{
    compact_rgba8, compacted, extension, extension_of, format_of, raster_format, RasterFormat,
    RgbaImage,
};
use crate::engine::packet::{
    packed_stride, DataPacket, DecodedVideoFrame, IdentityView, ImageFrame,
    ImageFrameFormat, ImageFrameView, PacketView, PlaneView, ProvenanceView,
};
use crate::engine::runtime::{require_service, service_missing, NodeRuntime, RuntimeView};
use crate::engine::spec::{has_output_port, has_port, NodeRuntimeState, NodeSpec};
use crate::json::{lemma_object_tree, member_trees, JsonMember, JsonTree, JsonValue};
use crate::source::{SourcePtsView, StreamFrameIdentity, StreamSessionId};
use crate::text::{blank, concat, concat3, has_prefix, is_blank, starts_with,
    trim, trimmed};
use std::sync::Arc;
use vstd::prelude::*;

verus! {

/// The number of bytes that a decoded picture may take.
pub const LOCAL_IMAGE_BYTE_LIMIT: usize = 536_870_912;

pub struct LocalFileSourceFactory;

impl LocalFileSourceFactory {
    pub fn kind(&self) -> (r: &'static str)
        ensures
            r@ == "localFileSource"@,
    {
        "localFileSource"
    }

    pub fn instantiate(&self, spec: NodeSpec) -> (r: LocalFileSourceNode)
        ensures
            r.spec == spec,
    {
        LocalFileSourceNode { spec }
    }
}

pub struct LocalFileSourceNode {
    pub spec: NodeSpec,
}

/// A path with one more part, with `/` as the separator: an absolute part stands alone, another
/// follows a separator.
pub open spec fn path_pushed(path: Seq<char>, part: Seq<char>) -> Seq<char> {
    if path.len() == 0 || starts_with(part, "/"@) {
        part
    } else if path.last() == '/' {
        path + part
    } else {
        path + "/"@ + part
    }
}

/// A path with one more part, which is trimmed first and left out where that leaves nothing.
pub open spec fn path_extended(path: Seq<char>, part: Seq<char>) -> Seq<char> {
    if blank(part) {
        path
    } else {
        path_pushed(path, trimmed(part))
    }
}

/// The path that a configuration selects; empty where it selects none.
pub open spec fn selected_path(config: JsonTree) -> Seq<char> {
    path_extended(
        path_extended(
            path_extended(Seq::empty(), text_or(config, "root"@, ""@)),
            text_or(config, "directory"@, ""@),
        ),
        text_or(config, "selection"@, ""@),
    )
}

fn extend_path(path: String, part: &str) -> (r: String)
    ensures
        r@ == path_extended(path@, part@),
{
    if is_blank(part) {
        return path;
    }
    let part: &str = trim(part);
    let n: usize = path.as_str().unicode_len();
    if n == 0 || has_prefix(part, "/") {
        part.to_owned()
    } else if path.as_str().get_char(n - 1) == '/' {
        concat(path.as_str(), part)
    } else {
        concat3(path.as_str(), "/", part)
    }
}

/// The identity of a picture from a file.
pub open spec fn local_identity(node: Seq<char>) -> IdentityView {
    IdentityView {
        provenance: ProvenanceView::Stream { stream: "local-"@ + node, channel: 0 },
        frame_sequence: 0,
        source_pts: SourcePtsView::Unavailable { reason: "local-file-source"@ },
        host_monotonic_time_ns: 0,
        device_timestamp_ns: None,
    }
}

/// A picture from a file.
pub open spec fn local_frame(node: Seq<char>, width: u32, height: u32, pixels: Seq<u8>)
    -> ImageFrameView {
    ImageFrameView {
        width,
        height,
        format: ImageFrameFormat::Rgba8,
        planes: seq![PlaneView { bytes: pixels, stride_bytes: packed_stride(width) }],
        identity: local_identity(node),
        raw: None,
    }
}

/// The reference to the file that a picture came from.
pub open spec fn file_reference(path: Seq<char>) -> JsonTree {
    JsonTree::Object(
        seq![("kind"@, JsonTree::Text("file.ref"@)), ("path"@, JsonTree::Text(path))],
    )
}

/// The packets of a loaded picture, one after the other: the picture, its preview and its file
/// where the node has ports for them. The flag tells whether all found room.
pub open spec fn load_emitted(
    rt: RuntimeView,
    frame: ImageFrameView,
    path: Seq<char>,
    preview: bool,
    file: bool,
) -> (RuntimeView, bool) {
    if !rt.accepts("image"@) {
        (rt, false)
    } else {
        let first = rt.emitted("image"@, PacketView::ImageFrame(frame));
        if preview && !rt.accepts("preview"@) {
            (first, false)
        } else {
            let second = if preview {
                first.emitted("preview"@, PacketView::ImageFrame(frame))
            } else {
                first
            };
            if file && !rt.accepts("fileRef"@) {
                (second, false)
            } else if file {
                (second.emitted("fileRef"@, PacketView::Json(file_reference(path))), true)
            } else {
                (second, true)
            }
        }
    }
}

/// A file that is to be decoded.
#[derive(Debug)]
pub struct DecodeJob {
    pub format: RasterFormat,
    pub bytes: Vec<u8>,
    pub byte_limit: usize,
}

impl LocalFileSourceNode {
    pub fn on_start(&mut self, rt: &mut NodeRuntime) -> (r: Result<(), NodeError>)
        ensures
            r is Ok,
            *final(self) == *old(self),
            final(rt)@ == old(rt)@.reported(NodeRuntimeState::Ready, "trigger to load file"@),
    {
        rt.report_state(NodeRuntimeState::Ready, "trigger to load file");
        Ok(())
    }

    pub fn on_input(&mut self, _port: &str, _packet: DataPacket, _rt: &mut NodeRuntime) -> (r:
        Result<(), NodeError>)
        ensures
            r is Ok,
            *final(self) == *old(self),
            final(_rt)@ == old(_rt)@,
    {
        Ok(())
    }

    /// A trigger asks for the file at the selected path.
    pub fn on_action(&mut self, action: NodeAction) -> (r: Result<String, NodeError>)
        ensures
            *final(self) == *old(self),
            if action is Trigger {
                let path = selected_path(old(self).spec.config@);
                if path.len() == 0 {
                    failed(
                        r,
                        NodeErrorView::Config(
                            "root/directory/selection must select a non-empty local path"@,
                        ),
                    )
                } else {
                    r is Ok && r->Ok_0@ == path
                }
            } else {
                failed(r, NodeErrorView::UnsupportedAction(action.label()))
            },
    {
        match action {
            NodeAction::Trigger => self.resolve_path(),
            other => Err(NodeError::unsupported(&other)),
        }
    }

    /// The path of the file: root, directory and selection, blank parts left out.
    pub fn resolve_path(&self) -> (r: Result<String, NodeError>)
        ensures
            ({
                let path = selected_path(self.spec.config@);
                if path.len() == 0 {
                    failed(
                        r,
                        NodeErrorView::Config(
                            "root/directory/selection must select a non-empty local path"@,
                        ),
                    )
                } else {
                    r is Ok && r->Ok_0@ == path
                }
            }),
    {
        let start: String = String::new();
        proof {
            assert(start@ =~= Seq::<char>::empty());
        }
        let path: String = extend_path(start, config_text(&self.spec.config, "root", ""));
        let path: String = extend_path(path, config_text(&self.spec.config, "directory", ""));
        let path: String = extend_path(path, config_text(&self.spec.config, "selection", ""));
        if path.as_str().unicode_len() == 0 {
            return Err(
                NodeError::config("root/directory/selection must select a non-empty local path"),
            );
        }
        Ok(path)
    }

    /// Goes on with the bytes of the file, for whatever the file system answered. A file of an
    /// unknown kind is reported and not decoded.
    pub fn file_read(&self, path: &str, reply: Result<Vec<u8>, String>, rt: &mut NodeRuntime) -> (r:
        Result<Option<DecodeJob>, NodeError>)
        ensures
            match reply {
                Err(text) => failed(
                    r,
                    NodeErrorView::Execution("read "@ + path@ + " failed: "@ + text@),
                ) && final(rt)@ == old(rt)@,
                Ok(bytes) => {
                    let format = match extension_of(path@) {
                        Some(extension) => format_of(extension),
                        None => None,
                    };
                    match format {
                        None => r == Ok::<Option<DecodeJob>, NodeError>(None) && final(rt)@ == old(rt)@.noted(
                            "unsupported file `"@ + path@
                                + "`; RAW demosaic is not yet implemented"@,
                        ).reported(NodeRuntimeState::Idle, "unsupported format"@),
                        Some(format) => if old(rt)@.services.image_codec {
                            r == Ok::<Option<DecodeJob>, NodeError>(
                                Some(
                                    DecodeJob {
                                        format,
                                        bytes,
                                        byte_limit: LOCAL_IMAGE_BYTE_LIMIT,
                                    },
                                ),
                            ) && final(rt)@ == old(rt)@.reported(
                                NodeRuntimeState::Running,
                                "loading image"@,
                            )
                        } else {
                            failed(r, service_missing("image_codec"@)) && final(rt)@ == old(rt)@
                        },
                    }
                },
            },
    {
        let bytes: Vec<u8> = match reply {
            Ok(bytes) => bytes,
            Err(text) => {
                let head: String = concat3("read ", path, " failed: ");
                return Err(NodeError::Execution(concat(head.as_str(), text.as_str())));
            },
        };
        let format: Option<RasterFormat> = match extension(path) {
            Some(extension) => raster_format(extension.as_str()),
            None => None,
        };
        match format {
            None => {
                rt.report_event(
                    concat3(
                        "unsupported file `",
                        path,
                        "`; RAW demosaic is not yet implemented",
                    ).as_str(),
                );
                rt.report_state(NodeRuntimeState::Idle, "unsupported format");
                Ok(None)
            },
            Some(format) => {
                match require_service(rt.services.image_codec, "image_codec") {
                    Ok(()) => {},
                    Err(error) => {
                        return Err(error);
                    },
                }
                rt.report_state(NodeRuntimeState::Running, "loading image");
                Ok(Some(DecodeJob { format, bytes, byte_limit: LOCAL_IMAGE_BYTE_LIMIT }))
            },
        }
    }

    /// Publishes a decoded picture, for whatever the decoder answered. `path` is the absolute path of
    /// the file.
    pub fn decoded(&self, path: &str, reply: Result<RgbaImage, String>, rt: &mut NodeRuntime) -> (r:
        Result<(), NodeError>)
        ensures
            match reply {
                Err(text) => failed(r, NodeErrorView::Execution(text@)) && final(rt)@ == old(rt)@,
                Ok(image) => match compacted(image) {
                    Err(error) => failed(r, error) && final(rt)@ == old(rt)@,
                    Ok(pixels) => {
                        let frame = local_frame(
                            self.spec.id@,
                            image.width,
                            image.height,
                            pixels,
                        );
                        let (after, all) = load_emitted(
                            old(rt)@,
                            frame,
                            path@,
                            has_port(self.spec@.outputs, "preview"@),
                            has_port(self.spec@.outputs, "fileRef"@),
                        );
                        if all {
                            r is Ok && final(rt)@ == after.reported(
                                NodeRuntimeState::Idle,
                                "loaded"@,
                            )
                        } else {
                            failed(r, channel_full()) && final(rt)@ == after
                        }
                    },
                },
            },
    {
        let image: RgbaImage = match reply {
            Ok(image) => image,
            Err(text) => {
                return Err(NodeError::Execution(text));
            },
        };
        let pixels: Vec<u8> = match compact_rgba8(&image) {
            Ok(pixels) => pixels,
            Err(error) => {
                return Err(error);
            },
        };
        let session = StreamSessionId { value: concat("local-", self.spec.id.as_str()) };
        let video = DecodedVideoFrame {
            width: image.width,
            height: image.height,
            rgba: pixels,
            identity: StreamFrameIdentity::unavailable(
                session,
                0,
                0,
                "local-file-source".to_owned(),
            ),
        };
        let frame: Arc<ImageFrame> = Arc::new(ImageFrame::from_video(&video));
        proof {
            assert((*frame)@ == local_frame(
                self.spec.id@,
                image.width,
                image.height,
                pixels@,
            ));
        }
        match rt.emit("image", DataPacket::ImageFrame(share(&frame))) {
            Ok(()) => {},
            Err(error) => {
                return Err(error);
            },
        }
        if has_output_port(&self.spec, "preview") {
            match rt.emit("preview", DataPacket::ImageFrame(share(&frame))) {
                Ok(()) => {},
                Err(error) => {
                    return Err(error);
                },
            }
        }
        if has_output_port(&self.spec, "fileRef") {
            let mut members: Vec<JsonMember> = Vec::new();
            members.push(JsonMember::new("kind", JsonValue::string("file.ref")));
            members.push(JsonMember::new("path", JsonValue::string(path)));
            proof {
                lemma_object_tree(members);
                assert(member_trees(members@) =~= seq![
                    ("kind"@, JsonTree::Text("file.ref"@)),
                    ("path"@, JsonTree::Text(path@)),
                ]);
            }
            match rt.emit("fileRef", DataPacket::Json(Arc::new(JsonValue::Object(members)))) {
                Ok(()) => {},
                Err(error) => {
                    return Err(error);
                },
            }
        }
        rt.report_state(NodeRuntimeState::Idle, "loaded");
        Ok(())
    }

    pub fn on_stop(&mut self, rt: &mut NodeRuntime) -> (r: Result<(), NodeError>)
        ensures
            r is Ok,
            *final(self) == *old(self),
            final(rt)@ == old(rt)@.reported(NodeRuntimeState::Idle, "stopped"@),
    {
        rt.report_state(NodeRuntimeState::Idle, "stopped");
        Ok(())
    }
}

} // verus!
