//! Laws of the nodes that reach outside: video streams, remote files and commands, and the arm.
use crate::engine::node::{NodeAction, NodeError, NodeErrorView};
use crate::engine::nodes::config::{filled_text, text_or, timeout_or, trimmed_text};
use crate::engine::nodes::hex_arm::{
    after_call, call_fault, call_reported, control_fault, hex_call, hex_request, hex_target,
    joint_positions, joint_source, positive_u16, positive_u64, strict_bool, update_disconnects,
    HexArmDefaults, HexArmTransport, HexCall, HexSession, HexTargetView, JointSourceView,
};
use crate::engine::nodes::remote::{
    command_summary, credential_ref, fetch_begun, no_end_slashes, no_start_slashes, optional_u16,
    parsed_u16, remote_path, revocation, session_char, session_reference, sftp_fetch, sftp_target,
    ssh_command, ssh_connect, CommandResult, SftpFetch,
};
use crate::engine::nodes::rtsp_source::{
    capture_missed, event_reported, frames_port, match_fault, rtsp_plan,
};
use crate::engine::nodes::stream::{RtspTransport, StreamEvent};
use crate::engine::packet::{
    CaptureMode, CaptureRequestView, CaptureTarget, ImageFrameView, SshConnection,
};
use crate::engine::runtime::{EngineServices, RuntimeView};
use crate::engine::spec::{lemma_port_index, NodeRuntimeState, NodeView};
use crate::ieee::Real64;
use crate::json::JsonTree;
use crate::text::{blank, parsed_u64, starts_with, trimmed};
use std::sync::Arc;
use vstd::prelude::*;

verus! {

/// A timeout is a number of milliseconds between one and two minutes, written as a number or as a
/// numeral, or the fallback where neither stands there.
pub proof fn law_timeouts_are_positive_and_short(
    config: JsonTree,
    key: Seq<char>,
    fallback: u64,
    owner: Seq<char>,
)
    requires
        1 <= fallback <= 120_000,
    ensures
        timeout_or(config, key, fallback, owner) matches Ok(n) ==> 1 <= n <= 120_000,
        config.member(key) is None ==> timeout_or(config, key, fallback, owner) == Ok::<
            u64,
            NodeErrorView,
        >(fallback),
        config.member(key) matches Some(JsonTree::Uint(n)) ==> (timeout_or(
            config,
            key,
            fallback,
            owner,
        ) is Ok <==> 1 <= n <= 120_000) && (1 <= n <= 120_000 ==> timeout_or(
            config,
            key,
            fallback,
            owner,
        )->Ok_0 == n),
        config.member(key) matches Some(JsonTree::Text(s)) ==> (parsed_u64(s) matches Some(n) ==> 1
            <= n <= 120_000 ==> timeout_or(config, key, fallback, owner) == Ok::<u64, NodeErrorView>(
            n,
        )),
{
}

/// A stream is opened as its settings say: at their address, on their channel, in their size, over
/// their transport and within their timeouts, each from its own setting.
pub proof fn law_stream_is_opened_as_set(
    node: NodeView,
    output_port: Seq<char>,
    services: EngineServices,
)
    ensures
        rtsp_plan(node, output_port, services) matches Ok(plan) ==> {
            &&& node.config.member("url"@) == Some(JsonTree::Text(plan.url))
            &&& plan.url.len() > 0 && services.stream_factory
            &&& plan.output_port == output_port && plan.session_id == "rtsp-"@ + node.id
            &&& match node.config.member("channel"@) {
                Some(JsonTree::Uint(n)) => n <= 0xffff ==> plan.channel == n,
                _ => plan.channel == 0,
            }
            &&& match node.config.member("width"@) {
                Some(JsonTree::Uint(n)) => n <= 0xffff_ffff ==> plan.width == n,
                _ => plan.width == 1920,
            }
            &&& match node.config.member("height"@) {
                Some(JsonTree::Uint(n)) => n <= 0xffff_ffff ==> plan.height == n,
                _ => plan.height == 1080,
            }
            &&& match node.config.member("transport"@) {
                Some(JsonTree::Text(s)) => s == "tcp"@ && plan.transport == RtspTransport::Tcp || s
                    == "udp"@ && plan.transport == RtspTransport::Udp,
                _ => plan.transport == RtspTransport::Tcp,
            }
            &&& match node.config.member("connectTimeoutMs"@) {
                Some(JsonTree::Uint(n)) => plan.connect_timeout_ms == n,
                None => plan.connect_timeout_ms == 8_000,
                _ => true,
            }
            &&& match node.config.member("idleTimeoutMs"@) {
                Some(JsonTree::Uint(n)) => plan.idle_timeout_ms == n,
                None => plan.idle_timeout_ms == 10_000,
                _ => true,
            }
        },
        node.config.member("url"@) is None ==> rtsp_plan(node, output_port, services) is Err,
        !services.stream_factory ==> rtsp_plan(node, output_port, services) is Err,
{
    reveal_strlit("");
    reveal_strlit("tcp");
    reveal_strlit("udp");
    assert("tcp"@[0] != "udp"@[0]);
}

/// Frames go out on the port for frames, and on the first port of a node that has ports but none for
/// frames.
pub proof fn law_frames_have_a_port(node: NodeView)
    ensures
        (exists|i: int| 0 <= i < node.outputs.len() && (#[trigger] node.outputs[i]).id == "frames"@)
            ==> frames_port(node) == "frames"@,
        node.outputs.len() == 0 ==> frames_port(node) == "frames"@,
        node.outputs.len() > 0 && (forall|i: int|
            0 <= i < node.outputs.len() ==> (#[trigger] node.outputs[i]).id != "frames"@)
            ==> frames_port(node) == node.outputs[0].id,
{
    lemma_port_index(node.outputs, "frames"@);
}

/// A cached frame answers a request exactly where it is of a stream, of the channel that is asked for,
/// the very frame where one is named, and of the number or the time where one is asked for.
pub proof fn law_cached_frame_answers_its_own_request(
    cached: Option<ImageFrameView>,
    request: CaptureRequestView,
)
    ensures
        match_fault(cached, request) is None <==> (cached matches Some(frame) && {
            &&& frame.identity.provenance is Stream
            &&& request.target is Yuv
            &&& request.target->channel == frame.identity.provenance->Stream_channel
            &&& request.source_identity matches Some(identity) ==> identity == frame.identity
            &&& request.mode matches CaptureMode::FrameId(n) ==> n == frame.identity.frame_sequence
            &&& request.mode matches CaptureMode::TimestampNs(t)
                ==> frame.identity.device_timestamp_ns == Some(t)
        }),
{
}

/// What becomes of a stream is told as it is: a failure and a forced end as errors, an end as idle,
/// playing as running.
pub proof fn law_stream_events_are_told(rt: RuntimeView, event: StreamEvent)
    ensures
        ({
            let after = event_reported(rt, event);
            &&& event is Other <==> after.log == rt.log
            &&& !(event is Other) ==> after.log.len() == rt.log.len() + 1 && after.log.last() is State
            &&& event is Failed || event is Forced ==> after.log.last()->state
                == NodeRuntimeState::Error
            &&& event is BoundaryClosed || event is Cancelled ==> after.log.last()->state
                == NodeRuntimeState::Idle
            &&& event is Playing ==> after.log.last()->state == NodeRuntimeState::Running
            &&& event.terminal() <==> event is Failed || event is Forced || event is BoundaryClosed
                || event is Cancelled
        }),
{
    let after = event_reported(rt, event);
    if after.log == rt.log {
        assert(after.log.len() == rt.log.len());
    }
}

/// A credential is named by a session: the word, a colon, and at least one letter, digit, hyphen or
/// underscore, and nothing else.
pub proof fn law_credentials_are_named_by_a_session(config: JsonTree, label: Seq<char>)
    ensures
        credential_ref(config, label) matches Ok(reference) ==> {
            &&& reference == trimmed(text_or(config, "credentialRef"@, ""@))
            &&& starts_with(reference, "session:"@)
            &&& reference.len() > 8
            &&& forall|i: int|
                8 <= i < reference.len() ==> {
                    let c = #[trigger] reference[i];
                    ('a' <= c <= 'z') || ('A' <= c <= 'Z') || ('0' <= c <= '9') || c == '-' || c
                        == '_'
                }
        },
        session_reference(trimmed(text_or(config, "credentialRef"@, ""@))) ==> credential_ref(
            config,
            label,
        ) is Ok,
{
    reveal_strlit("session:");
    if credential_ref(config, label) is Ok {
        let reference = credential_ref(config, label)->Ok_0;
        assert forall|i: int| 8 <= i < reference.len() implies ({
            let c = #[trigger] reference[i];
            ('a' <= c <= 'z') || ('A' <= c <= 'Z') || ('0' <= c <= '9') || c == '-' || c == '_'
        }) by {
            assert(session_char(reference[i]));
        }
    }
    if session_reference(trimmed(text_or(config, "credentialRef"@, ""@))) {
        assert(trimmed(text_or(config, "credentialRef"@, ""@)).len() > 0);
    }
}

/// A file is fetched from the host, the port and for the user that are set; the port is a numeral
/// above zero of sixteen bits.
pub proof fn law_files_are_fetched_from_the_host_set(config: JsonTree)
    ensures
        sftp_target(config) matches Ok(target) ==> {
            &&& config.member("host"@) == Some(JsonTree::Text(target.host)) && !blank(target.host)
            &&& config.member("port"@) is Some && config.member("port"@)->Some_0 is Text
                && parsed_u64(config.member("port"@)->Some_0->Text_0) == Some(target.port as u64)
            &&& target.port > 0
            &&& target.username == (match config.member("username"@) {
                Some(JsonTree::Text(s)) => s,
                _ => ""@,
            })
        },
        sftp_fetch(config) is Ok <==> sftp_target(config) is Ok && credential_ref(
            config,
            "sftpFileSource credentialRef"@,
        ) is Ok && remote_path(config) is Ok,
        sftp_fetch(config) matches Ok(fetch) ==> sftp_target(config) == Ok::<_, NodeErrorView>(
            fetch.target,
        ) && credential_ref(config, "sftpFileSource credentialRef"@) == Ok::<_, NodeErrorView>(
            fetch.credential_ref,
        ) && remote_path(config) == Ok::<_, NodeErrorView>(fetch.path),
{
    reveal_strlit("");
}

proof fn lemma_ends(s: Seq<char>)
    ensures
        no_end_slashes(s).len() > 0 ==> no_end_slashes(s).last() != '/',
        no_end_slashes(s).len() <= s.len() && s.take(no_end_slashes(s).len() as int)
            == no_end_slashes(s),
        forall|i: int| no_end_slashes(s).len() <= i < s.len() ==> #[trigger] s[i] == '/',
    decreases s.len(),
{
    if s.len() > 0 && s.last() == '/' {
        let init = s.drop_last();
        lemma_ends(init);
        let kept = no_end_slashes(init);
        assert(s.take(kept.len() as int) =~= init.take(kept.len() as int));
        assert forall|i: int| kept.len() <= i < s.len() implies #[trigger] s[i] == '/' by {
            if i < init.len() {
                assert(init[i] == '/');
            }
        }
    } else {
        assert(s.take(s.len() as int) =~= s);
    }
}

proof fn lemma_starts(s: Seq<char>)
    ensures
        no_start_slashes(s).len() > 0 ==> no_start_slashes(s)[0] != '/',
        no_start_slashes(s).len() <= s.len() && s.skip(s.len() - no_start_slashes(s).len())
            == no_start_slashes(s),
        forall|i: int| 0 <= i < s.len() - no_start_slashes(s).len() ==> #[trigger] s[i] == '/',
    decreases s.len(),
{
    if s.len() > 0 && s[0] == '/' {
        let rest = s.drop_first();
        lemma_starts(rest);
        let kept = no_start_slashes(rest);
        assert(s.skip(s.len() - kept.len()) =~= rest.skip(rest.len() - kept.len()));
        assert forall|i: int| 0 <= i < s.len() - kept.len() implies #[trigger] s[i] == '/' by {
            if i > 0 {
                assert(rest[i - 1] == '/');
            }
        }
    } else {
        assert(s.skip(0) =~= s);
    }
}

/// A remote path is the root and the selection with one slash between them, whatever slashes stood at
/// the end of the one and at the beginning of the other.
pub proof fn law_remote_path_has_one_slash_between(config: JsonTree)
    ensures
        remote_path(config) is Ok <==> !blank(text_or(config, "selection"@, ""@)),
        remote_path(config) matches Ok(path) ==> exists|k: int, l: int|
            joined_at(
                path,
                text_or(config, "remoteRoot"@, ""@),
                text_or(config, "selection"@, ""@),
                k,
                l,
            ),
{
    let root = text_or(config, "remoteRoot"@, ""@);
    let selection = text_or(config, "selection"@, ""@);
    lemma_ends(root);
    lemma_starts(selection);
    reveal_strlit("/");
    assert("/"@ =~= seq!['/']);
    if remote_path(config) is Ok {
        assert(joined_at(
            remote_path(config)->Ok_0,
            root,
            selection,
            no_end_slashes(root).len() as int,
            selection.len() - no_start_slashes(selection).len(),
        ));
    }
}

/// Whether a path is the first `k` characters of a root and the characters of a selection from `l` on,
/// with a slash between them, all that is left out being slashes.
pub open spec fn joined_at(
    path: Seq<char>,
    root: Seq<char>,
    selection: Seq<char>,
    k: int,
    l: int,
) -> bool {
    &&& 0 <= k <= root.len() && 0 <= l <= selection.len()
    &&& path == root.take(k) + seq!['/'] + selection.skip(l)
    &&& forall|i: int| k <= i < root.len() ==> #[trigger] root[i] == '/'
    &&& forall|i: int| 0 <= i < l ==> #[trigger] selection[i] == '/'
    &&& k > 0 ==> root[k - 1] != '/'
    &&& l < selection.len() ==> selection[l] != '/'
}

/// A command runs on the host that is set, on the port of its numeral or on 22, by the recipe that is
/// set.
pub proof fn law_commands_run_as_set(config: JsonTree)
    ensures
        ssh_command(config) matches Ok(command) ==> {
            &&& config.member("host"@) == Some(JsonTree::Text(command.target.host))
            &&& config.member("recipeId"@) == Some(JsonTree::Text(command.recipe_id))
            &&& !blank(command.target.host) && !blank(command.recipe_id)
            &&& credential_ref(config, "sshSession credentialRef"@) == Ok::<_, NodeErrorView>(
                command.credential_ref,
            )
            &&& parsed_u16(text_or(config, "port"@, ""@)) matches Some(port) ==> command.target.port
                == port
            &&& parsed_u16(text_or(config, "port"@, ""@)) is None ==> command.target.port == 22
        },
        ssh_command(config) is Ok <==> filled_text(config, "host"@) is Some && filled_text(
            config,
            "recipeId"@,
        ) is Some && credential_ref(config, "sshSession credentialRef"@) is Ok,
        config.member("port"@) matches Some(JsonTree::Text(s)) ==> (parsed_u64(s) matches Some(n)
            ==> (parsed_u16(s) is Some <==> n <= 0xffff) && (n <= 0xffff ==> parsed_u16(s)->Some_0
            == n)),
{
}

/// A connection is made to the host that is set, as the user that is set or as root, on the port that
/// is set or on 22, with a credential of a session.
pub proof fn law_connections_are_made_as_set(node: NodeView)
    ensures
        ssh_connect(node) matches Ok(made) ==> {
            &&& trimmed_text(node.config, "host"@) == Some(made.0.host)
            &&& trimmed_text(node.config, "credentialRef"@) == Some(made.1)
            &&& starts_with(made.1, "session:"@)
            &&& match node.config.member("port"@) {
                None => made.0.port == 22,
                Some(JsonTree::Uint(n)) => made.0.port == n,
                _ => false,
            }
            &&& match trimmed_text(node.config, "username"@) {
                Some(username) => made.0.username == username,
                None => made.0.username == "root"@,
            }
        },
        ssh_connect(node) is Ok <==> {
            &&& trimmed_text(node.config, "host"@) is Some
            &&& node.config.member("port"@) matches Some(value) ==> value is Uint && value->Uint_0
                <= 0xffff
            &&& trimmed_text(node.config, "credentialRef"@) matches Some(reference) && starts_with(
                reference,
                "session:"@,
            )
        },
        optional_u16(node.config, "port"@) is Ok <==> (node.config.member("port"@) matches Some(
            value,
        ) ==> value is Uint && value->Uint_0 <= 0xffff),
{
}

/// A number of the arm is positive, written as one or as a numeral; a flag is one, written as one or
/// as a word.
pub proof fn law_arm_settings_are_of_their_sort(
    config: JsonTree,
    key: Seq<char>,
    fallback: u64,
    short: u16,
    flag: bool,
)
    ensures
        config.member(key) is None ==> positive_u64(config, key, fallback) == Ok::<
            u64,
            NodeErrorView,
        >(fallback) && strict_bool(config, key, flag) == Ok::<bool, NodeErrorView>(flag),
        config.member(key) matches Some(JsonTree::Uint(n)) ==> (positive_u64(config, key, fallback)
            is Ok <==> n > 0) && (n > 0 ==> positive_u64(config, key, fallback)->Ok_0 == n) && (
        positive_u16(config, key, short) is Ok <==> 0 < n <= 0xffff) && (0 < n <= 0xffff
            ==> positive_u16(config, key, short)->Ok_0 == n),
        config.member(key) matches Some(JsonTree::Text(s)) ==> (positive_u64(config, key, fallback)
            is Ok <==> parsed_u64(trimmed(s)) is Some && parsed_u64(trimmed(s))->Some_0 > 0) && (
        positive_u64(config, key, fallback) is Ok ==> parsed_u64(trimmed(s)) == Some(
            positive_u64(config, key, fallback)->Ok_0,
        )) && (strict_bool(config, key, flag) is Ok <==> trimmed(s) == "true"@ || trimmed(s)
            == "false"@) && (strict_bool(config, key, flag) matches Ok(b) ==> (b <==> trimmed(s)
            == "true"@)),
        config.member(key) matches Some(JsonTree::Bool(b)) ==> strict_bool(config, key, flag) == Ok::<
            bool,
            NodeErrorView,
        >(b) && positive_u64(config, key, fallback) is Err,
{
    reveal_strlit("true");
    reveal_strlit("false");
    assert("true"@[0] != "false"@[0]);
}

/// The target of the arm is what is set, part by part; control is off unless it is set.
pub proof fn law_arm_target_is_what_is_set(config: JsonTree, defaults: HexArmDefaults)
    ensures
        hex_target(config, defaults) matches Ok(target) ==> {
            &&& config.member("host"@) == Some(JsonTree::Text(target.host)) && !blank(target.host)
            &&& positive_u16(config, "port"@, defaults.port) == Ok::<u16, NodeErrorView>(target.port)
            &&& positive_u64(config, "commandTimeoutMs"@, defaults.command_timeout_ms) == Ok::<
                u64,
                NodeErrorView,
            >(target.command_timeout_ms)
            &&& positive_u64(config, "connectTimeoutMs"@, defaults.connect_timeout_ms) == Ok::<
                u64,
                NodeErrorView,
            >(target.connect_timeout_ms)
            &&& strict_bool(config, "controlEnabled"@, false) == Ok::<bool, NodeErrorView>(
                target.control_enabled,
            )
            &&& config.member("controlEnabled"@) is None ==> !target.control_enabled
            &&& target.transport == HexArmTransport::Kcp <==> trimmed(
                text_or(config, "transport"@, ""@),
            ) == "kcp"@
        },
        filled_text(config, "host"@) is None ==> hex_target(config, defaults) is Err,
{
    reveal_strlit("");
    reveal_strlit("websocket");
    reveal_strlit("kcp");
    assert("kcp"@[0] != "websocket"@[0]);
}

/// An action is refused exactly where it controls and control is off, not connected or not
/// initialized; looking and connecting are never refused, disconnecting and initializing only without
/// a connection.
pub proof fn law_control_is_refused_until_it_is_ready(
    session: HexSession,
    target: HexTargetView,
    call: HexCall,
)
    ensures
        ({
            let ready = target.control_enabled && session.connected && session.initialized;
            &&& call is Connect || call is Probe || call is Status ==> call_fault(
                session,
                target,
                call,
            ) is None
            &&& call is Disconnect ==> (call_fault(session, target, call) is None
                <==> session.connected)
            &&& call is InitializeApiControl && target.control_enabled && session.connected
                ==> call_fault(session, target, call) is None
            &&& call is InitializeApiControl && !(target.control_enabled && session.connected)
                ==> call_fault(session, target, call) is Some
            &&& call is Calibrate || call is ClearParkingStop || call is ZeroCurrent || call
                is SendJointPositions ==> (call_fault(session, target, call) is None <==> ready)
            &&& control_fault(session, target) is None <==> ready
        }),
{
}

/// Each action of the arm asks for the call of its name, and for no other.
pub proof fn law_arm_actions_ask_for_their_call(action: NodeAction)
    ensures
        action is Connect ==> hex_call(action) == Some(HexCall::Connect),
        action is Disconnect ==> hex_call(action) == Some(HexCall::Disconnect),
        action is Trigger ==> hex_call(action) == Some(HexCall::Status),
        action matches NodeAction::Custom { name, .. } ==> {
            &&& hex_call(action) == Some(HexCall::Probe) <==> name@ == "probe"@
            &&& hex_call(action) == Some(HexCall::Status) <==> name@ == "status"@
            &&& hex_call(action) == Some(HexCall::InitializeApiControl) <==> name@
                == "initialize_api_control"@
            &&& hex_call(action) == Some(HexCall::Calibrate) <==> name@ == "calibrate"@
            &&& hex_call(action) == Some(HexCall::ClearParkingStop) <==> name@
                == "clear_parking_stop"@
            &&& hex_call(action) == Some(HexCall::ZeroCurrent) <==> name@ == "zero_current"@
            &&& hex_call(action) == Some(HexCall::SendJointPositions) <==> name@
                == "send_joint_positions"@
            &&& hex_call(action) != Some(HexCall::Connect) && hex_call(action) != Some(
                HexCall::Disconnect,
            )
        },
{
    reveal_strlit("probe");
    reveal_strlit("status");
    reveal_strlit("initialize_api_control");
    reveal_strlit("calibrate");
    reveal_strlit("clear_parking_stop");
    reveal_strlit("zero_current");
    reveal_strlit("send_joint_positions");
    assert("probe"@.len() == 5 && "status"@.len() == 6 && "initialize_api_control"@.len() == 22
        && "calibrate"@.len() == 9 && "clear_parking_stop"@.len() == 18 && "zero_current"@.len()
        == 12 && "send_joint_positions"@.len() == 20);
}

/// A request of the arm is for the target that is set and the call of its action, and has joint
/// positions exactly where it sends them.
pub proof fn law_arm_requests_are_for_their_call(
    config: JsonTree,
    defaults: HexArmDefaults,
    session: HexSession,
    services: EngineServices,
    action: NodeAction,
)
    ensures
        hex_request(config, defaults, session, services, action) matches Ok(request) ==> {
            &&& services.hex_arm
            &&& hex_target(config, defaults) == Ok::<_, NodeErrorView>(request.target)
            &&& hex_call(action) == Some(request.call)
            &&& call_fault(session, request.target, request.call) is None
            &&& request.joints is Some <==> request.call == HexCall::SendJointPositions
            &&& request.joints matches Some(joints) ==> joint_source(config) == Ok::<
                _,
                NodeErrorView,
            >(joints)
        },
        !services.hex_arm ==> hex_request(config, defaults, session, services, action) is Err,
{
}

/// What a session is after a call: connecting connects it without control, disconnecting takes both,
/// initializing gives control, and every other call leaves it.
pub proof fn law_sessions_follow_their_calls(session: HexSession, call: HexCall)
    ensures
        ({
            let after = after_call(session, call);
            &&& call is Connect ==> after.connected && !after.initialized
            &&& call is Disconnect ==> !after.connected && !after.initialized
            &&& call is InitializeApiControl ==> after.initialized && after.connected
                == session.connected
            &&& !(call is Connect) && !(call is Disconnect) && !(call is InitializeApiControl)
                ==> after == session
        }),
{
}

/// New settings end a connection exactly where one is there and they name another host, port or
/// transport, or take control away.
pub proof fn law_new_settings_end_a_connection(
    config: JsonTree,
    update: JsonTree,
    defaults: HexArmDefaults,
    session: HexSession,
    before: HexTargetView,
    after: HexTargetView,
)
    requires
        hex_target(config, defaults) == Ok::<HexTargetView, NodeErrorView>(before),
        hex_target(update, defaults) == Ok::<HexTargetView, NodeErrorView>(after),
    ensures
        update_disconnects(config, update, defaults, session) == Ok::<
            Option<HexTargetView>,
            NodeErrorView,
        >(
            if session.connected && (before.host != after.host || before.port != after.port
                || before.transport != after.transport || before.control_enabled
                && !after.control_enabled) {
                Some(before)
            } else {
                None
            },
        ),
{
}

/// Joint positions are taken where there is at least one and all of them are finite numbers, in the
/// order they came.
pub proof fn law_joint_positions_are_finite(parsed: Seq<Option<Real64>>, config: JsonTree, i: int)
    ensures
        joint_positions(parsed) is Ok <==> parsed.len() > 0 && forall|k: int|
            0 <= k < parsed.len() ==> (#[trigger] parsed[k]) is Some && parsed[k]->Some_0.finite(),
        joint_positions(parsed) matches Ok(values) ==> values.len() == parsed.len() && (0 <= i
            < values.len() ==> parsed[i] == Some(values[i])),
        config.member("jointPositions"@) is None ==> joint_source(config) is Err,
        config.member("jointPositions"@) matches Some(JsonTree::Array(items)) ==> (joint_source(
            config,
        ) is Ok <==> forall|k: int| 0 <= k < items.len() ==> (#[trigger] items[k]).number() is Some),
        config.member("jointPositions"@) matches Some(JsonTree::Array(items)) ==> (joint_source(
            config,
        ) matches Ok(JointSourceView::Numbers(values)) ==> values.len() == items.len() && (0 <= i
            < values.len() ==> items[i].number() == Some(values[i]))),
{
    let values = parsed.map_values(|x: Option<Real64>| x->Some_0);
    if joint_positions(parsed) is Ok {
        assert forall|k: int| 0 <= k < parsed.len() implies (#[trigger] parsed[k]) is Some
            && parsed[k]->Some_0.finite() by {
            assert(values[k].finite());
        }
    }
    if parsed.len() > 0 && forall|k: int|
        0 <= k < parsed.len() ==> (#[trigger] parsed[k]) is Some && parsed[k]->Some_0.finite() {
        assert forall|k: int| 0 <= k < values.len() implies (#[trigger] values[k]).finite() by {
            assert(parsed[k] is Some);
        }
    }
}

/// A finished command is told by its own figures.
pub proof fn law_command_summary_tells_its_figures(result: CommandResult)
    ensures
        ({
            let summary = command_summary(result);
            &&& summary.member("terminal"@) == Some(JsonTree::Text(result.terminal@))
            &&& summary.member("stdoutLen"@) == Some(JsonTree::Uint(result.stdout_len))
            &&& summary.member("stderrLen"@) == Some(JsonTree::Uint(result.stderr_len))
            &&& summary.member("stdoutTruncated"@) == Some(JsonTree::Bool(result.stdout_truncated))
            &&& summary.member("stderrTruncated"@) == Some(JsonTree::Bool(result.stderr_truncated))
        }),
{
    reveal_strlit("terminal");
    reveal_strlit("stdoutLen");
    reveal_strlit("stderrLen");
    reveal_strlit("stdoutTruncated");
    reveal_strlit("stderrTruncated");
    reveal_with_fuel(crate::json::find_member, 7);
    let m = command_summary(result)->Object_0;
    assert("terminal"@[3] == 'm' && "stdoutLen"@[3] == 'o' && "stderrLen"@[3] == 'e'
        && "stdoutTruncated"@[3] == 'o' && "stderrTruncated"@[3] == 'e');
    assert("stdoutLen"@.len() != "stdoutTruncated"@.len() && "stderrLen"@.len()
        != "stderrTruncated"@.len());
    assert(m.len() == 6);
    assert(m[0].0 == "terminal"@ && m[1].0 == "stdoutLen"@ && m[2].0 == "stderrLen"@ && m[3].0
        == "stdoutTruncated"@ && m[4].0 == "stderrTruncated"@);
    let m1 = m.drop_first();
    let m2 = m1.drop_first();
    let m3 = m2.drop_first();
    let m4 = m3.drop_first();
    assert(m1[0] == m[1] && m2[0] == m[2] && m3[0] == m[3] && m4[0] == m[4]);
}

/// A fetch is begun with the target, the credential and the path that are set, in the format of the
/// path, and only where the service is there.
pub proof fn law_fetch_is_begun_as_set(
    config: JsonTree,
    before: RuntimeView,
    after: RuntimeView,
    r: Result<SftpFetch, NodeError>,
)
    requires
        fetch_begun(config, before, after, r),
    ensures
        r is Ok ==> {
            &&& sftp_fetch(config) is Ok && before.services.sftp_reader
            &&& r->Ok_0.target.host@ == sftp_fetch(config)->Ok_0.target.host
            &&& r->Ok_0.target.port == sftp_fetch(config)->Ok_0.target.port
            &&& r->Ok_0.target.username@ == sftp_fetch(config)->Ok_0.target.username
            &&& r->Ok_0.credential_ref@ == sftp_fetch(config)->Ok_0.credential_ref
            &&& r->Ok_0.path@ == sftp_fetch(config)->Ok_0.path
            &&& r->Ok_0.byte_limit == 134_217_728
            &&& r->Ok_0.timeouts.connect_secs == 30 && r->Ok_0.timeouts.overall_secs == 120
                && r->Ok_0.timeouts.idle_secs == 120
        },
        sftp_fetch(config) is Err ==> r is Err && after == before,
{
}

/// A connection that is revoked is gone; where revoking it fails, or nothing can revoke it, it stays
/// and nothing is told.
pub proof fn law_revoked_connection_is_gone(
    connection: Option<Arc<SshConnection>>,
    revoked: Result<(), String>,
    message: Seq<char>,
    before: RuntimeView,
    left: Option<Arc<SshConnection>>,
    after: RuntimeView,
    r: Result<(), NodeError>,
)
    requires
        revocation(connection, revoked, message, before, left, after, r),
    ensures
        r is Ok <==> (connection is Some ==> before.services.ssh_connection && revoked is Ok),
        r is Ok ==> left is None && after.log.len() == before.log.len() + 1,
        r is Err ==> left == connection && after == before,
{
}

/// A stream can be opened exactly where an address is set, the transport is one of the two or not set,
/// the service is there and both timeouts are in range.
pub proof fn law_usable_streams_are_opened(
    node: NodeView,
    output_port: Seq<char>,
    services: EngineServices,
)
    ensures
        rtsp_plan(node, output_port, services) is Ok <==> {
            &&& node.config.member("url"@) matches Some(JsonTree::Text(url)) && url.len() > 0
            &&& node.config.member("transport"@) matches Some(JsonTree::Text(s)) ==> s == "tcp"@ || s
                == "udp"@
            &&& services.stream_factory
            &&& timeout_or(node.config, "connectTimeoutMs"@, 8_000, ""@) is Ok
            &&& timeout_or(node.config, "idleTimeoutMs"@, 10_000, ""@) is Ok
        },
{
    reveal_strlit("");
}

/// A host can be fetched from exactly where it is set and its port is a numeral between one and 65535.
pub proof fn law_usable_hosts_are_fetched_from(config: JsonTree)
    ensures
        sftp_target(config) is Ok <==> {
            &&& config.member("host"@) matches Some(JsonTree::Text(host)) && !blank(host)
            &&& config.member("port"@) matches Some(JsonTree::Text(port)) && parsed_u64(port) is Some
                && 1 <= parsed_u64(port)->Some_0 <= 65535
        },
{
    reveal_strlit("");
}

/// The arm can be reached exactly where its host is set, its numbers are positive, its port is short,
/// its flag is one, and its transport is one of the two or not set.
pub proof fn law_usable_arms_are_reached(config: JsonTree, defaults: HexArmDefaults)
    ensures
        hex_target(config, defaults) is Ok <==> {
            let word = trimmed(text_or(config, "transport"@, ""@));
            &&& config.member("host"@) matches Some(JsonTree::Text(host)) && !blank(host)
            &&& positive_u16(config, "port"@, defaults.port) is Ok
            &&& positive_u64(config, "commandTimeoutMs"@, defaults.command_timeout_ms) is Ok
            &&& positive_u64(config, "connectTimeoutMs"@, defaults.connect_timeout_ms) is Ok
            &&& strict_bool(config, "controlEnabled"@, false) is Ok
            &&& word.len() == 0 || word == "websocket"@ || word == "kcp"@
        },
        hex_target(config, defaults) matches Ok(target) ==> (target.transport
            == HexArmTransport::WebSocket <==> trimmed(text_or(config, "transport"@, ""@)) != "kcp"@),
{
    reveal_strlit("");
    reveal_strlit("websocket");
    reveal_strlit("kcp");
    assert("kcp"@[0] != "websocket"@[0]);
    let word = trimmed(text_or(config, "transport"@, ""@));
    if word.len() == 0 {
        assert(word =~= ""@);
    }
}

/// The arm is asked exactly where the client is there, the target is usable, the action is known,
/// nothing stands against the call, and what is to be sent is there.
pub proof fn law_usable_arm_requests_are_made(
    config: JsonTree,
    defaults: HexArmDefaults,
    session: HexSession,
    services: EngineServices,
    action: NodeAction,
)
    ensures
        hex_request(config, defaults, session, services, action) is Ok <==> {
            &&& services.hex_arm
            &&& hex_target(config, defaults) is Ok
            &&& hex_call(action) is Some
            &&& call_fault(
                session,
                hex_target(config, defaults)->Ok_0,
                hex_call(action)->Some_0,
            ) is None
            &&& hex_call(action) == Some(HexCall::SendJointPositions) ==> joint_source(config) is Ok
        },
{
}

/// Every call of the arm that succeeded is noted once; connecting and disconnecting are told as a
/// state too.
pub proof fn law_arm_calls_are_noted(rt: RuntimeView, call: HexCall)
    ensures
        ({
            let after = call_reported(rt, call);
            let n = rt.log.len() as int;
            &&& after.log.len() > n && after.log.take(n) == rt.log && after.log[n] is Event
            &&& call is Connect || call is Disconnect ==> after.log.len() == n + 2 && after.log[n
                + 1] is State && after.log[n + 1]->state == NodeRuntimeState::Idle
            &&& !(call is Connect) && !(call is Disconnect) ==> after.log.len() == n + 1
        }),
{
    assert(call_reported(rt, call).log.take(rt.log.len() as int) =~= rt.log);
}

/// A frame that does not answer a request is refused for what differs, by its name and the value that
/// was asked for.
pub proof fn law_refused_captures_say_what_differs(
    frame: ImageFrameView,
    request: CaptureRequestView,
    channel: u16,
)
    requires
        frame.identity.provenance is Stream,
        request.target == (CaptureTarget::Yuv { channel }),
        request.source_identity is None,
    ensures
        frame.identity.provenance->Stream_channel != channel ==> match_fault(Some(frame), request)
            == Some(capture_missed("channel"@, channel as u64)),
        frame.identity.provenance->Stream_channel == channel ==> {
            &&& request.mode matches CaptureMode::FrameId(n) ==> n != frame.identity.frame_sequence
                ==> match_fault(Some(frame), request) == Some(capture_missed("frame_id"@, n))
            &&& request.mode matches CaptureMode::TimestampNs(t)
                ==> frame.identity.device_timestamp_ns is Some
                && frame.identity.device_timestamp_ns != Some(t) ==> match_fault(
                Some(frame),
                request,
            ) == Some(capture_missed("timestamp_ns"@, t))
        },
{
}

} // verus!
