//! Remote sources and sessions: a picture over SFTP, a command over SSH, and an SSH connection.
use crate::asset::share;
use crate::engine::node::{channel_full, NodeAction, NodeError, NodeErrorView};
use crate::engine::nodes::config::{
    config_filled, config_text, config_trimmed, failed, filled_text, text_or, trimmed_text,
};
use crate::engine::nodes::raster::{
    compact_rgba8, compacted, format_of, last_dotted, raster_format, read_last_dotted,
    RasterFormat, RgbaImage,
};
use crate::engine::packet::{
    frame_fault, packed_stride, DataPacket, IdentityView, ImageFrame, ImageFrameFormat,
    ImageFrameIdentity, ImageFrameView, PacketView, PlaneView, ProvenanceView, SshConnection,
};
use crate::engine::runtime::{
    require_service, service_missing, NodeRuntime, RuntimeView,
};
use crate::engine::spec::{NodeRuntimeState, NodeSpec, NodeView};
use crate::json::{lemma_object_tree, member_trees, JsonMember, JsonTree, JsonValue};
use crate::source::{SourcePtsView, StreamFrameIdentity, StreamSessionId};
use crate::text::{
    blank, concat, concat3, has_prefix, is_blank, parse_u64, parsed_u64, starts_with,
    trim, trimmed,
};
use std::sync::Arc;
use vstd::prelude::*;

verus! {

/// A host to log on to.
#[derive(Debug)]
pub struct ControlTargetSpec {
    pub host: String,
    pub port: u16,
    pub username: String,
    pub expected_host_key: Option<String>,
}

/// A host to log on to, by its values; no host key is ever expected.
pub struct ControlTargetView {
    pub host: Seq<char>,
    pub port: u16,
    pub username: Seq<char>,
}

impl ControlTargetSpec {
    /// Whether the target holds the given values and expects no host key.
    pub open spec fn holds(self, view: ControlTargetView) -> bool {
        self.host@ == view.host && self.port == view.port && self.username@ == view.username
            && self.expected_host_key is None
    }
}

/// How long remote work may take, in seconds: until a connection stands, without a sign of life,
/// and altogether.
#[derive(Clone, Copy, Debug, PartialEq, Eq, Structural)]
pub struct RemoteTimeouts {
    pub connect_secs: u64,
    pub idle_secs: u64,
    pub overall_secs: u64,
}

/// Limits of which the overall one also bounds the time without a sign of life.
pub open spec fn limited_to(connect_secs: u64, overall_secs: u64) -> RemoteTimeouts {
    RemoteTimeouts { connect_secs, idle_secs: overall_secs, overall_secs }
}

/// The limits of a fetch: half a minute to connect, two minutes altogether.
pub open spec fn fetch_limits() -> RemoteTimeouts {
    limited_to(30, 120)
}

/// The limits of a command: ten seconds to connect, a minute altogether.
pub open spec fn command_limits() -> RemoteTimeouts {
    limited_to(10, 60)
}

fn control_timeout(connect_secs: u64, overall_secs: u64) -> (r: RemoteTimeouts)
    ensures
        r == limited_to(connect_secs, overall_secs),
{
    RemoteTimeouts { connect_secs, idle_secs: overall_secs, overall_secs }
}

/// Whether a character may stand in the name of a session.
pub open spec fn session_char(c: char) -> bool {
    ('a' <= c <= 'z') || ('A' <= c <= 'Z') || ('0' <= c <= '9') || c == '-' || c == '_'
}

/// Whether a text refers to a password session: a prefix and a name of letters, digits, hyphens and
/// underscores.
pub open spec fn session_reference(s: Seq<char>) -> bool {
    starts_with(s, "session:"@) && s.len() > "session:"@.len() && forall|i: int|
        "session:"@.len() <= i < s.len() ==> session_char(#[trigger] s[i])
}

/// The password session that a configuration refers to.
pub open spec fn credential_ref(config: JsonTree, label: Seq<char>) -> Result<
    Seq<char>,
    NodeErrorView,
> {
    let reference = trimmed(text_or(config, "credentialRef"@, ""@));
    if reference.len() == 0 {
        Err(NodeErrorView::Precondition(label + " is required"@))
    } else if session_reference(reference) {
        Ok(reference)
    } else {
        Err(
            NodeErrorView::Precondition(
                label + " must be a password session:<node-id> reference"@,
            ),
        )
    }
}

fn is_session_reference(s: &str) -> (r: bool)
    ensures
        r == session_reference(s@),
{
    if !has_prefix(s, "session:") {
        return false;
    }
    let from: usize = "session:".unicode_len();
    let n: usize = s.unicode_len();
    if n <= from {
        return false;
    }
    let mut i: usize = from;
    while i < n
        invariant
            from <= i <= n == s@.len(),
            from == "session:"@.len(),
            starts_with(s@, "session:"@),
            forall|j: int| from <= j < i ==> session_char(#[trigger] s@[j]),
        decreases n - i,
    {
        let c: char = s.get_char(i);
        if !(('a' <= c && c <= 'z') || ('A' <= c && c <= 'Z') || ('0' <= c && c <= '9') || c == '-'
            || c == '_') {
            proof {
                assert(!session_char(s@[i as int]));
            }
            return false;
        }
        i = i + 1;
    }
    true
}

fn read_credential_ref(config: &JsonValue, label: &str) -> (r: Result<String, NodeError>)
    ensures
        match credential_ref(config@, label@) {
            Ok(reference) => r is Ok && r->Ok_0@ == reference,
            Err(error) => failed(r, error),
        },
{
    let reference: &str = trim(config_text(config, "credentialRef", ""));
    if reference.unicode_len() == 0 {
        return Err(NodeError::Precondition(concat(label, " is required")));
    }
    if is_session_reference(reference) {
        Ok(reference.to_owned())
    } else {
        Err(
            NodeError::Precondition(
                concat(label, " must be a password session:<node-id> reference"),
            ),
        )
    }
}

/// A 16-bit number that a text denotes.
pub open spec fn parsed_u16(s: Seq<char>) -> Option<u16> {
    match parsed_u64(s) {
        Some(n) => if n <= 0xffff {
            Some(n as u16)
        } else {
            None
        },
        None => None,
    }
}

fn parse_u16(s: &str) -> (r: Option<u16>)
    ensures
        r == parsed_u16(s@),
{
    match parse_u64(s) {
        Some(n) => if n <= 0xffff {
            Some(n as u16)
        } else {
            None
        },
        None => None,
    }
}

/// The number of bytes that a fetched picture may take.
pub const REMOTE_IMAGE_BYTE_LIMIT: usize = 134_217_728;

pub struct SftpFileSourceFactory;

impl SftpFileSourceFactory {
    pub fn kind(&self) -> (r: &'static str)
        ensures
            r@ == "sftpFileSource"@,
    {
        "sftpFileSource"
    }

    pub fn instantiate(&self, spec: NodeSpec) -> (r: SftpFileSourceNode)
        ensures
            r.spec == spec,
    {
        SftpFileSourceNode { spec }
    }
}

pub struct SftpFileSourceNode {
    pub spec: NodeSpec,
}

/// The host of a configuration.
pub open spec fn sftp_target(config: JsonTree) -> Result<ControlTargetView, NodeErrorView> {
    match filled_text(config, "host"@) {
        None => Err(NodeErrorView::Precondition("sftpFileSource host must be configured"@)),
        Some(host) => match parsed_u16(text_or(config, "port"@, ""@)) {
            Some(port) => if port == 0 {
                Err(NodeErrorView::Config("sftpFileSource port must be in 1..=65535"@))
            } else {
                Ok(
                    ControlTargetView {
                        host,
                        port,
                        username: text_or(config, "username"@, ""@),
                    },
                )
            },
            None => Err(NodeErrorView::Config("sftpFileSource port must be in 1..=65535"@)),
        },
    }
}

/// A text without the slashes at its end.
pub open spec fn no_end_slashes(s: Seq<char>) -> Seq<char>
    decreases s.len(),
{
    if s.len() > 0 && s.last() == '/' {
        no_end_slashes(s.drop_last())
    } else {
        s
    }
}

/// A text without the slashes at its beginning.
pub open spec fn no_start_slashes(s: Seq<char>) -> Seq<char>
    decreases s.len(),
{
    if s.len() > 0 && s[0] == '/' {
        no_start_slashes(s.drop_first())
    } else {
        s
    }
}

fn cut_end_slashes(s: &str) -> (r: &str)
    ensures
        r@ == no_end_slashes(s@),
{
    let mut n: usize = s.unicode_len();
    proof {
        assert(s@.subrange(0, n as int) =~= s@);
    }
    while n > 0 && s.get_char(n - 1) == '/'
        invariant
            n <= s@.len(),
            no_end_slashes(s@) == no_end_slashes(s@.subrange(0, n as int)),
        decreases n,
    {
        proof {
            assert(s@.subrange(0, n as int).drop_last() =~= s@.subrange(0, n - 1));
        }
        n = n - 1;
    }
    proof {
        if n > 0 {
            assert(s@.subrange(0, n as int).last() == s@[n - 1]);
        }
    }
    s.substring_char(0, n)
}

fn cut_start_slashes(s: &str) -> (r: &str)
    ensures
        r@ == no_start_slashes(s@),
{
    let n: usize = s.unicode_len();
    let mut i: usize = 0;
    proof {
        assert(s@.subrange(0, n as int) =~= s@);
    }
    while i < n && s.get_char(i) == '/'
        invariant
            i <= n == s@.len(),
            no_start_slashes(s@) == no_start_slashes(s@.subrange(i as int, n as int)),
        decreases n - i,
    {
        proof {
            assert(s@.subrange(i as int, n as int).drop_first() =~= s@.subrange(i + 1, n as int));
        }
        i = i + 1;
    }
    proof {
        if i < n {
            assert(s@.subrange(i as int, n as int)[0] == s@[i as int]);
        }
    }
    s.substring_char(i, n)
}

/// The remote file of a configuration.
pub open spec fn remote_path(config: JsonTree) -> Result<Seq<char>, NodeErrorView> {
    let selection = text_or(config, "selection"@, ""@);
    if blank(selection) {
        Err(NodeErrorView::Precondition("sftpFileSource selection must be configured"@))
    } else {
        Ok(
            no_end_slashes(text_or(config, "remoteRoot"@, ""@)) + "/"@ + no_start_slashes(
                selection,
            ),
        )
    }
}

/// A remote picture that is to be fetched.
#[derive(Debug)]
pub struct SftpFetch {
    pub target: ControlTargetSpec,
    pub credential_ref: String,
    pub path: String,
    pub format: RasterFormat,
    pub byte_limit: usize,
    pub timeouts: RemoteTimeouts,
}

/// A remote picture that is to be fetched, by its values.
pub struct SftpFetchView {
    pub target: ControlTargetView,
    pub credential_ref: Seq<char>,
    pub path: Seq<char>,
}

/// What a trigger asks for.
pub open spec fn sftp_fetch(config: JsonTree) -> Result<SftpFetchView, NodeErrorView> {
    match sftp_target(config) {
        Err(error) => Err(error),
        Ok(target) => match credential_ref(config, "sftpFileSource credentialRef"@) {
            Err(error) => Err(error),
            Ok(credential_ref) => match remote_path(config) {
                Err(error) => Err(error),
                Ok(path) => Ok(SftpFetchView { target, credential_ref, path }),
            },
        },
    }
}

/// The identity of a fetched picture.
pub open spec fn sftp_identity(node: Seq<char>) -> IdentityView {
    IdentityView {
        provenance: ProvenanceView::Stream { stream: "sftp-"@ + node, channel: 0 },
        frame_sequence: 0,
        source_pts: SourcePtsView::Unavailable { reason: "sftp file source"@ },
        host_monotonic_time_ns: 0,
        device_timestamp_ns: None,
    }
}

impl SftpFileSourceNode {
    fn target(&self) -> (r: Result<ControlTargetSpec, NodeError>)
        ensures
            match sftp_target(self.spec.config@) {
                Ok(target) => r is Ok && r->Ok_0.holds(target),
                Err(error) => failed(r, error),
            },
    {
        let host: String = match config_filled(&self.spec.config, "host") {
            Some(host) => host.to_owned(),
            None => {
                return Err(NodeError::precondition("sftpFileSource host must be configured"));
            },
        };
        let port: u16 = match parse_u16(config_text(&self.spec.config, "port", "")) {
            Some(port) => port,
            None => {
                return Err(NodeError::config("sftpFileSource port must be in 1..=65535"));
            },
        };
        if port == 0 {
            return Err(NodeError::config("sftpFileSource port must be in 1..=65535"));
        }
        Ok(
            ControlTargetSpec {
                host,
                port,
                username: config_text(&self.spec.config, "username", "").to_owned(),
                expected_host_key: None,
            },
        )
    }

    fn remote_path(&self) -> (r: Result<String, NodeError>)
        ensures
            match remote_path(self.spec.config@) {
                Ok(path) => r is Ok && r->Ok_0@ == path,
                Err(error) => failed(r, error),
            },
    {
        let selection: &str = config_text(&self.spec.config, "selection", "");
        if is_blank(selection) {
            return Err(NodeError::precondition("sftpFileSource selection must be configured"));
        }
        let root: &str = config_text(&self.spec.config, "remoteRoot", "");
        Ok(concat3(cut_end_slashes(root), "/", cut_start_slashes(selection)))
    }

    pub fn on_start(&mut self, rt: &mut NodeRuntime) -> (r: Result<(), NodeError>)
        ensures
            r is Ok,
            *final(self) == *old(self),
            final(rt)@ == old(rt)@.reported(
                NodeRuntimeState::Ready,
                "trigger to fetch remote image"@,
            ),
    {
        rt.report_state(NodeRuntimeState::Ready, "trigger to fetch remote image");
        Ok(())
    }

    pub fn on_input(&mut self, _port: &str, _packet: DataPacket, _rt: &mut NodeRuntime) -> (r:
        Result<(), NodeError>)
        ensures
            r is Ok,
            *final(self) == *old(self),
            final(_rt)@ == old(_rt)@,
    {
        Ok(())
    }

    /// A trigger begins a fetch; there is no other action.
    pub fn on_action(&mut self, action: NodeAction, rt: &mut NodeRuntime) -> (r: Result<
        SftpFetch,
        NodeError,
    >)
        ensures
            *final(self) == *old(self),
            if action is Trigger {
                fetch_begun(old(self).spec.config@, old(rt)@, final(rt)@, r)
            } else {
                failed(r, NodeErrorView::UnsupportedAction(action.label())) && final(rt)@ == old(rt)@
            },
    {
        match action {
            NodeAction::Trigger => self.fetch(rt),
            other => Err(NodeError::unsupported(&other)),
        }
    }

    /// Begins a fetch: checks the configuration and says what to read.
    pub fn fetch(&self, rt: &mut NodeRuntime) -> (r: Result<SftpFetch, NodeError>)
        ensures
            fetch_begun(self.spec.config@, old(rt)@, final(rt)@, r),
    {
        let target: ControlTargetSpec = match self.target() {
            Ok(target) => target,
            Err(error) => {
                return Err(error);
            },
        };
        let credential_ref: String = match read_credential_ref(
            &self.spec.config,
            "sftpFileSource credentialRef",
        ) {
            Ok(reference) => reference,
            Err(error) => {
                return Err(error);
            },
        };
        let path: String = match self.remote_path() {
            Ok(path) => path,
            Err(error) => {
                return Err(error);
            },
        };
        rt.report_state(NodeRuntimeState::Running, "fetching remote image");
        let format: RasterFormat = match raster_format(read_last_dotted(path.as_str()).as_str()) {
            Some(format) => format,
            None => {
                return Err(NodeError::precondition("unsupported remote image extension"));
            },
        };
        match require_service(rt.services.sftp_reader, "sftp_reader") {
            Ok(()) => {},
            Err(error) => {
                return Err(error);
            },
        }
        Ok(
            SftpFetch {
                target,
                credential_ref,
                path,
                format,
                byte_limit: REMOTE_IMAGE_BYTE_LIMIT,
                timeouts: control_timeout(30, 120),
            },
        )
    }

    /// Goes on with the bytes of the file, for whatever the host answered.
    pub fn fetched(&self, reply: Result<Vec<u8>, String>, rt: &NodeRuntime) -> (r: Result<
        Vec<u8>,
        NodeError,
    >)
        ensures
            match reply {
                Err(text) => failed(r, NodeErrorView::Execution(text@)),
                Ok(bytes) => if rt@.services.image_codec {
                    r == Ok::<Vec<u8>, NodeError>(bytes)
                } else {
                    failed(r, service_missing("image_codec"@))
                },
            },
    {
        match reply {
            Err(text) => Err(NodeError::Execution(text)),
            Ok(bytes) => match require_service(rt.services.image_codec, "image_codec") {
                Ok(()) => Ok(bytes),
                Err(error) => Err(error),
            },
        }
    }

    /// Publishes the decoded picture, for whatever the decoder answered.
    pub fn decoded(&self, reply: Result<RgbaImage, String>, rt: &mut NodeRuntime) -> (r: Result<
        (),
        NodeError,
    >)
        ensures
            match reply {
                Err(text) => failed(r, NodeErrorView::Execution(text@)) && final(rt)@ == old(rt)@,
                Ok(image) => match compacted(image) {
                    Err(error) => failed(r, error) && final(rt)@ == old(rt)@,
                    Ok(pixels) => {
                        let planes = seq![
                            PlaneView { bytes: pixels, stride_bytes: packed_stride(image.width) },
                        ];
                        match frame_fault(
                            image.width,
                            image.height,
                            ImageFrameFormat::Rgba8,
                            planes,
                        ) {
                            Some(fault) => failed(r, NodeErrorView::Execution(fault.text()))
                                && final(rt)@ == old(rt)@,
                            None => if old(rt)@.accepts("image"@) {
                                r is Ok && final(rt)@ == old(rt)@.emitted(
                                    "image"@,
                                    PacketView::ImageFrame(
                                        ImageFrameView {
                                            width: image.width,
                                            height: image.height,
                                            format: ImageFrameFormat::Rgba8,
                                            planes,
                                            identity: sftp_identity(self.spec.id@),
                                            raw: None,
                                        },
                                    ),
                                ).reported(NodeRuntimeState::Idle, "remote image ready"@)
                            } else {
                                failed(r, channel_full()) && final(rt)@ == old(rt)@
                            },
                        }
                    },
                },
            },
    {
        let image: RgbaImage = match reply {
            Ok(image) => image,
            Err(text) => {
                return Err(NodeError::Execution(text));
            },
        };
        let pixels: Vec<u8> = match compact_rgba8(&image) {
            Ok(pixels) => pixels,
            Err(error) => {
                return Err(error);
            },
        };
        let session = StreamSessionId { value: concat("sftp-", self.spec.id.as_str()) };
        let identity: StreamFrameIdentity = StreamFrameIdentity::unavailable(
            session,
            0,
            0,
            "sftp file source".to_owned(),
        );
        match ImageFrame::rgba8(
            image.width,
            image.height,
            pixels,
            ImageFrameIdentity::from_stream(&identity),
        ) {
            Err(error) => Err(NodeError::execution(error.describe())),
            Ok(frame) => {
                match rt.emit("image", DataPacket::ImageFrame(Arc::new(frame))) {
                    Ok(()) => {},
                    Err(error) => {
                        return Err(error);
                    },
                }
                rt.report_state(NodeRuntimeState::Idle, "remote image ready");
                Ok(())
            },
        }
    }

    pub fn on_stop(&mut self, rt: &mut NodeRuntime) -> (r: Result<(), NodeError>)
        ensures
            r is Ok,
            *final(self) == *old(self),
            final(rt)@ == old(rt)@.reported(NodeRuntimeState::Idle, "stopped"@),
    {
        rt.report_state(NodeRuntimeState::Idle, "stopped");
        Ok(())
    }
}

/// What the beginning of a fetch comes to.
pub open spec fn fetch_begun(
    config: JsonTree,
    before: RuntimeView,
    after: RuntimeView,
    r: Result<SftpFetch, NodeError>,
) -> bool {
    match sftp_fetch(config) {
        Err(error) => failed(r, error) && after == before,
        Ok(fetch) => {
            &&& after == before.reported(NodeRuntimeState::Running, "fetching remote image"@)
            &&& match format_of(last_dotted(fetch.path)) {
                None => failed(
                    r,
                    NodeErrorView::Precondition("unsupported remote image extension"@),
                ),
                Some(format) => if !before.services.sftp_reader {
                    failed(r, service_missing("sftp_reader"@))
                } else {
                    r is Ok && r->Ok_0.target.holds(fetch.target) && r->Ok_0.credential_ref@
                        == fetch.credential_ref && r->Ok_0.path@ == fetch.path && r->Ok_0.format
                        == format && r->Ok_0.byte_limit == REMOTE_IMAGE_BYTE_LIMIT
                        && r->Ok_0.timeouts == fetch_limits()
                },
            }
        },
    }
}

pub struct SshSessionFactory;

impl SshSessionFactory {
    pub fn kind(&self) -> (r: &'static str)
        ensures
            r@ == "sshSession"@,
    {
        "sshSession"
    }

    pub fn instantiate(&self, spec: NodeSpec) -> (r: SshSessionNode)
        ensures
            r.spec == spec,
    {
        SshSessionNode { spec }
    }
}

pub struct SshSessionNode {
    pub spec: NodeSpec,
}

/// A command that is to be run.
#[derive(Debug)]
pub struct SshCommand {
    pub target: ControlTargetSpec,
    pub credential_ref: String,
    pub recipe_id: String,
    pub timeouts: RemoteTimeouts,
}

/// A command that is to be run, by its values.
pub struct SshCommandView {
    pub target: ControlTargetView,
    pub credential_ref: Seq<char>,
    pub recipe_id: Seq<char>,
}

/// The command of a configuration.
pub open spec fn ssh_command(config: JsonTree) -> Result<SshCommandView, NodeErrorView> {
    match filled_text(config, "host"@) {
        None => Err(NodeErrorView::Precondition("sshSession host must be configured"@)),
        Some(host) => match credential_ref(config, "sshSession credentialRef"@) {
            Err(error) => Err(error),
            Ok(credential_ref) => match filled_text(config, "recipeId"@) {
                None => Err(
                    NodeErrorView::Precondition("sshSession recipeId must be configured"@),
                ),
                Some(recipe_id) => Ok(
                    SshCommandView {
                        target: ControlTargetView {
                            host,
                            port: match parsed_u16(text_or(config, "port"@, ""@)) {
                                Some(port) => port,
                                None => 22,
                            },
                            username: text_or(config, "username"@, ""@),
                        },
                        credential_ref,
                        recipe_id,
                    },
                ),
            },
        },
    }
}

/// What a command came to: how it ended, how much it wrote and where its artifact lies.
#[derive(Debug)]
pub struct CommandResult {
    pub terminal: String,
    pub stdout_len: u64,
    pub stderr_len: u64,
    pub stdout_truncated: bool,
    pub stderr_truncated: bool,
    pub artifact_path: Option<String>,
}

/// A result as it is published: the output itself stays out of it.
pub open spec fn command_summary(result: CommandResult) -> JsonTree {
    JsonTree::Object(
        seq![
            ("terminal"@, JsonTree::Text(result.terminal@)),
            ("stdoutLen"@, JsonTree::Uint(result.stdout_len)),
            ("stderrLen"@, JsonTree::Uint(result.stderr_len)),
            ("stdoutTruncated"@, JsonTree::Bool(result.stdout_truncated)),
            ("stderrTruncated"@, JsonTree::Bool(result.stderr_truncated)),
            (
                "artifactPath"@,
                match result.artifact_path {
                    Some(path) => JsonTree::Text(path@),
                    None => JsonTree::Null,
                },
            ),
        ],
    )
}

fn summarize(result: &CommandResult) -> (r: JsonValue)
    ensures
        r@ == command_summary(*result),
{
    let mut members: Vec<JsonMember> = Vec::new();
    members.push(JsonMember::new("terminal", JsonValue::string(result.terminal.as_str())));
    members.push(JsonMember::new("stdoutLen", JsonValue::Uint(result.stdout_len)));
    members.push(JsonMember::new("stderrLen", JsonValue::Uint(result.stderr_len)));
    members.push(JsonMember::new("stdoutTruncated", JsonValue::Bool(result.stdout_truncated)));
    members.push(JsonMember::new("stderrTruncated", JsonValue::Bool(result.stderr_truncated)));
    let artifact: JsonValue = match &result.artifact_path {
        Some(path) => JsonValue::string(path.as_str()),
        None => JsonValue::Null,
    };
    members.push(JsonMember::new("artifactPath", artifact));
    proof {
        lemma_object_tree(members);
        assert(member_trees(members@) =~= command_summary(*result)->Object_0);
    }
    JsonValue::Object(members)
}

impl SshSessionNode {
    pub fn on_start(&mut self, rt: &mut NodeRuntime) -> (r: Result<(), NodeError>)
        ensures
            r is Ok,
            *final(self) == *old(self),
            final(rt)@ == old(rt)@.reported(
                NodeRuntimeState::Ready,
                "trigger to run remote command"@,
            ),
    {
        rt.report_state(NodeRuntimeState::Ready, "trigger to run remote command");
        Ok(())
    }

    pub fn on_input(&mut self, _port: &str, _packet: DataPacket, _rt: &mut NodeRuntime) -> (r:
        Result<(), NodeError>)
        ensures
            r is Ok,
            *final(self) == *old(self),
            final(_rt)@ == old(_rt)@,
    {
        Ok(())
    }

    /// A trigger asks for the configured command; there is no other action.
    pub fn on_action(&mut self, action: NodeAction) -> (r: Result<
        SshCommand,
        NodeError,
    >)
        ensures
            *final(self) == *old(self),
            if action is Trigger {
                match ssh_command(old(self).spec.config@) {
                    Err(error) => failed(r, error),
                    Ok(command) => r is Ok && r->Ok_0.target.holds(command.target)
                        && r->Ok_0.credential_ref@ == command.credential_ref && r->Ok_0.recipe_id@
                        == command.recipe_id && r->Ok_0.timeouts == command_limits(),
                }
            } else {
                failed(r, NodeErrorView::UnsupportedAction(action.label()))
            },
    {
        match action {
            NodeAction::Trigger => self.run(),
            other => Err(NodeError::unsupported(&other)),
        }
    }

    /// The configured command.
    pub fn run(&self) -> (r: Result<SshCommand, NodeError>)
        ensures
            match ssh_command(self.spec.config@) {
                Err(error) => failed(r, error),
                Ok(command) => r is Ok && r->Ok_0.target.holds(command.target)
                    && r->Ok_0.credential_ref@ == command.credential_ref && r->Ok_0.recipe_id@
                    == command.recipe_id && r->Ok_0.timeouts == command_limits(),
            },
    {
        let host: String = match config_filled(&self.spec.config, "host") {
            Some(host) => host.to_owned(),
            None => {
                return Err(NodeError::precondition("sshSession host must be configured"));
            },
        };
        let credential_ref: String = match read_credential_ref(
            &self.spec.config,
            "sshSession credentialRef",
        ) {
            Ok(reference) => reference,
            Err(error) => {
                return Err(error);
            },
        };
        let recipe_id: String = match config_filled(&self.spec.config, "recipeId") {
            Some(recipe) => recipe.to_owned(),
            None => {
                return Err(NodeError::precondition("sshSession recipeId must be configured"));
            },
        };
        let port: u16 = match parse_u16(config_text(&self.spec.config, "port", "")) {
            Some(port) => port,
            None => 22,
        };
        Ok(
            SshCommand {
                target: ControlTargetSpec {
                    host,
                    port,
                    username: config_text(&self.spec.config, "username", "").to_owned(),
                    expected_host_key: None,
                },
                credential_ref,
                recipe_id,
                timeouts: control_timeout(10, 60),
            },
        )
    }

    /// Checks that a command can be run: its name must be one that the command service takes
    /// (`accepted` holds the service's own words otherwise), and there must be such a service.
    pub fn ready_to_run(&self, accepted: Result<(), String>, rt: &NodeRuntime) -> (r: Result<
        (),
        NodeError,
    >)
        ensures
            match accepted {
                Err(text) => failed(r, NodeErrorView::Precondition(text@)),
                Ok(_) => if rt@.services.ssh_command_executor {
                    r is Ok
                } else {
                    failed(r, service_missing("ssh_command_executor"@))
                },
            },
    {
        match accepted {
            Err(text) => Err(NodeError::Precondition(text)),
            Ok(()) => require_service(rt.services.ssh_command_executor, "ssh_command_executor"),
        }
    }

    /// Publishes a summary of the result, for whatever the host answered. A summary that finds no
    /// room is dropped.
    pub fn executed(&self, reply: Result<CommandResult, String>, rt: &mut NodeRuntime) -> (r:
        Result<(), NodeError>)
        ensures
            match reply {
                Err(text) => failed(r, NodeErrorView::Execution(text@)) && final(rt)@ == old(rt)@,
                Ok(result) => {
                    let emitted = if old(rt)@.accepts("result"@) {
                        old(rt)@.emitted("result"@, PacketView::Json(command_summary(result)))
                    } else {
                        old(rt)@
                    };
                    r is Ok && final(rt)@ == emitted.reported(
                        NodeRuntimeState::Idle,
                        "command executed"@,
                    )
                },
            },
    {
        match reply {
            Err(text) => Err(NodeError::Execution(text)),
            Ok(result) => {
                let summary: JsonValue = summarize(&result);
                let _emitted: Result<(), NodeError> = rt.emit(
                    "result",
                    DataPacket::Json(Arc::new(summary)),
                );
                rt.report_state(NodeRuntimeState::Idle, "command executed");
                Ok(())
            },
        }
    }

    pub fn on_stop(&mut self, rt: &mut NodeRuntime) -> (r: Result<(), NodeError>)
        ensures
            r is Ok,
            *final(self) == *old(self),
            final(rt)@ == old(rt)@.reported(NodeRuntimeState::Idle, "stopped"@),
    {
        rt.report_state(NodeRuntimeState::Idle, "stopped");
        Ok(())
    }
}

pub struct SshConnectionFactory;

impl SshConnectionFactory {
    pub fn kind(&self) -> (r: &'static str)
        ensures
            r@ == "sshConnection"@,
    {
        "sshConnection"
    }

    pub fn instantiate(&self, spec: NodeSpec) -> (r: SshConnectionNode)
        ensures
            r == (SshConnectionNode { spec, connection: None }),
    {
        SshConnectionNode { spec, connection: None }
    }
}

pub struct SshConnectionNode {
    pub spec: NodeSpec,
    pub connection: Option<Arc<SshConnection>>,
}

/// A configured 16-bit number; nothing where it is missing.
pub open spec fn optional_u16(config: JsonTree, key: Seq<char>) -> Result<
    Option<u16>,
    NodeErrorView,
> {
    match config.member(key) {
        None => Ok(None),
        Some(value) => match value.uint() {
            Some(n) => if n <= 0xffff {
                Ok(Some(n as u16))
            } else {
                Err(NodeErrorView::Config("config `"@ + key + "` must be u16"@))
            },
            None => Err(NodeErrorView::Config("config `"@ + key + "` must be u16"@)),
        },
    }
}

pub fn config_optional_u16(config: &JsonValue, key: &str) -> (r: Result<Option<u16>, NodeError>)
    ensures
        match optional_u16(config@, key@) {
            Ok(n) => r == Ok::<Option<u16>, NodeError>(n),
            Err(error) => failed(r, error),
        },
{
    match config.get(key) {
        None => Ok(None),
        Some(value) => match value.as_u64() {
            Some(n) => if n <= 0xffff {
                Ok(Some(n as u16))
            } else {
                Err(NodeError::Config(concat3("config `", key, "` must be u16")))
            },
            None => Err(NodeError::Config(concat3("config `", key, "` must be u16"))),
        },
    }
}

/// The error of a missing text.
pub open spec fn text_required(kind: Seq<char>, key: Seq<char>) -> NodeErrorView {
    NodeErrorView::Precondition(kind + " config `"@ + key + "` is required"@)
}

fn required_text(spec: &NodeSpec, key: &str) -> (r: Result<String, NodeError>)
    ensures
        match trimmed_text(spec.config@, key@) {
            Some(s) => r is Ok && r->Ok_0@ == s,
            None => failed(r, text_required(spec.kind@, key@)),
        },
{
    match config_trimmed(&spec.config, key) {
        Some(s) => Ok(s.to_owned()),
        None => {
            let head: String = concat3(spec.kind.as_str(), " config `", key);
            Err(NodeError::Precondition(concat(head.as_str(), "` is required")))
        },
    }
}

/// A connection that is to be made.
#[derive(Debug)]
pub struct SshConnect {
    pub target: ControlTargetSpec,
    pub credential_ref: String,
    /// A connection that has to be revoked first.
    pub revoke: Option<Arc<SshConnection>>,
}

/// The host and the session of a configuration.
pub open spec fn ssh_connect(node: NodeView) -> Result<(ControlTargetView, Seq<char>), NodeErrorView> {
    match trimmed_text(node.config, "host"@) {
        None => Err(text_required(node.kind, "host"@)),
        Some(host) => match optional_u16(node.config, "port"@) {
            Err(error) => Err(error),
            Ok(port) => match trimmed_text(node.config, "credentialRef"@) {
                None => Err(text_required(node.kind, "credentialRef"@)),
                Some(reference) => if starts_with(reference, "session:"@) {
                    Ok(
                        (
                            ControlTargetView {
                                host,
                                port: match port {
                                    Some(port) => port,
                                    None => 22,
                                },
                                username: match trimmed_text(node.config, "username"@) {
                                    Some(username) => username,
                                    None => "root"@,
                                },
                            },
                            reference,
                        ),
                    )
                } else {
                    Err(
                        NodeErrorView::Precondition(
                            "sshConnection credentialRef must be a process-local session reference"@,
                        ),
                    )
                },
            },
        },
    }
}

/// What a user asked of a connection.
#[derive(Clone, Copy, Debug, PartialEq, Eq, Structural)]
pub enum SshConnectionCommand {
    Connect,
    Disconnect,
}

impl SshConnectionNode {
    /// The command of an action.
    pub fn on_action(&mut self, action: NodeAction) -> (r: Result<SshConnectionCommand, NodeError>)
        ensures
            *final(self) == *old(self),
            match action {
                NodeAction::Connect => r == Ok::<SshConnectionCommand, NodeError>(
                    SshConnectionCommand::Connect,
                ),
                NodeAction::Disconnect => r == Ok::<SshConnectionCommand, NodeError>(
                    SshConnectionCommand::Disconnect,
                ),
                _ => failed(r, NodeErrorView::UnsupportedAction(action.label())),
            },
    {
        match action {
            NodeAction::Connect => Ok(SshConnectionCommand::Connect),
            NodeAction::Disconnect => Ok(SshConnectionCommand::Disconnect),
            other => Err(NodeError::unsupported(&other)),
        }
    }

    pub fn on_start(&mut self, rt: &mut NodeRuntime) -> (r: Result<(), NodeError>)
        ensures
            r is Ok,
            *final(self) == *old(self),
            final(rt)@ == old(rt)@.reported(
                NodeRuntimeState::Idle,
                "connect to establish an in-memory SSH session"@,
            ),
    {
        rt.report_state(NodeRuntimeState::Idle, "connect to establish an in-memory SSH session");
        Ok(())
    }

    pub fn on_input(&mut self, _port: &str, _packet: DataPacket, _rt: &mut NodeRuntime) -> (r:
        Result<(), NodeError>)
        ensures
            r is Ok,
            *final(self) == *old(self),
            final(_rt)@ == old(_rt)@,
    {
        Ok(())
    }

    /// Begins to connect: checks the configuration and says what to connect to, and which
    /// connection to revoke before.
    pub fn connect(&self, rt: &NodeRuntime) -> (r: Result<SshConnect, NodeError>)
        ensures
            match ssh_connect(self.spec@) {
                Err(error) => failed(r, error),
                Ok((target, reference)) => if rt@.services.ssh_connection {
                    r is Ok && r->Ok_0.target.holds(target) && r->Ok_0.credential_ref@ == reference
                        && r->Ok_0.revoke == self.connection
                } else {
                    failed(r, service_missing("ssh_connection_service"@))
                },
            },
    {
        let host: String = match required_text(&self.spec, "host") {
            Ok(host) => host,
            Err(error) => {
                return Err(error);
            },
        };
        let port: u16 = match config_optional_u16(&self.spec.config, "port") {
            Ok(Some(port)) => port,
            Ok(None) => 22,
            Err(error) => {
                return Err(error);
            },
        };
        let username: String = match config_trimmed(&self.spec.config, "username") {
            Some(username) => username.to_owned(),
            None => "root".to_owned(),
        };
        let credential_ref: String = match required_text(&self.spec, "credentialRef") {
            Ok(reference) => reference,
            Err(error) => {
                return Err(error);
            },
        };
        if !has_prefix(credential_ref.as_str(), "session:") {
            return Err(
                NodeError::precondition(
                    "sshConnection credentialRef must be a process-local session reference",
                ),
            );
        }
        match require_service(rt.services.ssh_connection, "ssh_connection_service") {
            Ok(()) => {},
            Err(error) => {
                return Err(error);
            },
        }
        let revoke: Option<Arc<SshConnection>> = match &self.connection {
            Some(connection) => Some(share(connection)),
            None => None,
        };
        Ok(
            SshConnect {
                target: ControlTargetSpec { host, port, username, expected_host_key: None },
                credential_ref,
                revoke,
            },
        )
    }

    /// Finishes to connect, for whatever the service answered: a connection must have an identity,
    /// and is kept once it was handed on.
    pub fn connected(
        &mut self,
        reply: Result<SshConnection, String>,
        rt: &mut NodeRuntime,
    ) -> (r: Result<(), NodeError>)
        ensures
            final(self).spec == old(self).spec,
            match reply {
                Err(text) => failed(r, NodeErrorView::Execution(text@)) && final(self).connection
                    == old(self).connection && final(rt)@ == old(rt)@,
                Ok(connection) => if blank(connection.id@) {
                    failed(
                        r,
                        NodeErrorView::Execution(
                            "SSH connection service returned an empty connection id"@,
                        ),
                    ) && final(self).connection == old(self).connection && final(rt)@ == old(rt)@
                } else if !old(rt)@.accepts("connection"@) {
                    failed(r, channel_full()) && final(self).connection == old(self).connection
                        && final(rt)@ == old(rt)@
                } else {
                    r is Ok && final(self).connection is Some && *final(self).connection->Some_0
                        == connection && final(rt)@ == old(rt)@.emitted(
                        "connection"@,
                        PacketView::SshConnection(connection.id@),
                    ).reported(NodeRuntimeState::Ready, "SSH connection established"@)
                },
            },
    {
        let connection: Arc<SshConnection> = match reply {
            Ok(connection) => Arc::new(connection),
            Err(text) => {
                return Err(NodeError::Execution(text));
            },
        };
        if is_blank(connection.id.as_str()) {
            return Err(
                NodeError::execution("SSH connection service returned an empty connection id"),
            );
        }
        match rt.emit("connection", DataPacket::SshConnection(share(&connection))) {
            Ok(()) => {},
            Err(error) => {
                return Err(error);
            },
        }
        self.connection = Some(connection);
        rt.report_state(NodeRuntimeState::Ready, "SSH connection established");
        Ok(())
    }

    /// Ends the connection, if there is one; `revoked` is what the service answered to its
    /// revocation. A connection that could not be revoked stays.
    pub fn revoke(&mut self, revoked: Result<(), String>, message: &str, rt: &mut NodeRuntime) -> (r:
        Result<(), NodeError>)
        ensures
            final(self).spec == old(self).spec,
            revocation(
                old(self).connection,
                revoked,
                message@,
                old(rt)@,
                final(self).connection,
                final(rt)@,
                r,
            ),
    {
        if self.connection.is_some() {
            match require_service(rt.services.ssh_connection, "ssh_connection_service") {
                Ok(()) => {},
                Err(error) => {
                    return Err(error);
                },
            }
            match revoked {
                Ok(()) => {},
                Err(text) => {
                    return Err(NodeError::Execution(text));
                },
            }
            self.connection = None;
        }
        rt.report_state(NodeRuntimeState::Idle, message);
        Ok(())
    }

    /// Takes a new configuration once the connection, if any, was revoked. It is not checked before
    /// the next connection.
    pub fn on_config_update(
        &mut self,
        config: JsonValue,
        revoked: Result<(), String>,
        rt: &mut NodeRuntime,
    ) -> (r: Result<(), NodeError>)
        ensures
            revocation(
                old(self).connection,
                revoked,
                "SSH connection revoked after configuration change"@,
                old(rt)@,
                final(self).connection,
                final(rt)@,
                r,
            ),
            if r is Ok {
                final(self).spec@ == (NodeView { config: config@, ..old(self).spec@ })
            } else {
                final(self).spec == old(self).spec
            },
    {
        match self.revoke(revoked, "SSH connection revoked after configuration change", rt) {
            Ok(()) => {},
            Err(error) => {
                return Err(error);
            },
        }
        self.spec.config = config;
        Ok(())
    }

    pub fn on_stop(&mut self, revoked: Result<(), String>, rt: &mut NodeRuntime) -> (r: Result<
        (),
        NodeError,
    >)
        ensures
            final(self).spec == old(self).spec,
            revocation(
                old(self).connection,
                revoked,
                "SSH connection revoked while stopping"@,
                old(rt)@,
                final(self).connection,
                final(rt)@,
                r,
            ),
    {
        self.revoke(revoked, "SSH connection revoked while stopping", rt)
    }
}

/// What the end of a connection comes to.
pub open spec fn revocation(
    connection: Option<Arc<SshConnection>>,
    revoked: Result<(), String>,
    message: Seq<char>,
    before: RuntimeView,
    left: Option<Arc<SshConnection>>,
    after: RuntimeView,
    r: Result<(), NodeError>,
) -> bool {
    if connection is Some && !before.services.ssh_connection {
        failed(r, service_missing("ssh_connection_service"@)) && left == connection && after
            == before
    } else if connection is Some && revoked is Err {
        failed(r, NodeErrorView::Execution(revoked->Err_0@)) && left == connection && after
            == before
    } else {
        r is Ok && left is None && after == before.reported(NodeRuntimeState::Idle, message)
    }
}

} // verus!
