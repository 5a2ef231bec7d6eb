//! Sources of calibration parameters: checked configurations that go out as typed packets on request.
use crate::engine::node::{channel_full, NodeAction, NodeError, NodeErrorView};
use crate::engine::nodes::config::failed;
use crate::engine::packet::{
    CalibrationBoardKind, CalibrationBoardParams, CameraModelKind, CameraModelParams, DataPacket,
    DistortionModelKind, DistortionModelParams, DistortionView, PacketView,
};
use crate::engine::runtime::{NodeRuntime, RuntimeView};
use crate::engine::spec::{NodeRuntimeState, NodeSpec, NodeView};
use crate::ieee::Real64;
use crate::json::JsonValue;
use crate::model::{CalibrationDataError, CalibrationImageSize};
use crate::text::concat3;
use std::sync::Arc;
use vstd::prelude::*;

verus! {

pub const CALIBRATION_BOARD_PARAMS_KIND: &'static str = "calibrationBoardParams";

pub const CAMERA_INITIAL_PARAMS_KIND: &'static str = "cameraInitialParams";

/// The configuration of a board.
#[derive(Clone, Copy, Debug, PartialEq, Eq, Structural)]
pub struct CalibrationBoardConfig {
    pub board_kind: CalibrationBoardKind,
    pub board_cols: u16,
    pub board_rows: u16,
    pub square_size_mm: Real64,
}

impl Default for CalibrationBoardConfig {
    /// What stands for members that are missing.
    fn default() -> (r: Self)
        ensures
            r == (CalibrationBoardConfig {
                board_kind: CalibrationBoardKind::Chessboard,
                board_cols: 11,
                board_rows: 8,
                square_size_mm: Real64 { bits: 0x4044_0000_0000_0000 },
            }),
    {
        CalibrationBoardConfig {
            board_kind: CalibrationBoardKind::Chessboard,
            board_cols: 11,
            board_rows: 8,
            square_size_mm: Real64::from_bits(0x4044_0000_0000_0000),
        }
    }
}

/// The configuration of a camera and its lens.
#[derive(Clone, Copy, Debug, PartialEq, Eq, Structural)]
pub struct CameraInitialConfig {
    pub camera_model_kind: CameraModelKind,
    pub fx: Real64,
    pub fy: Real64,
    pub cx: Real64,
    pub cy: Real64,
    pub image_width: u32,
    pub image_height: u32,
    pub distortion_kind: DistortionModelKind,
}

impl Default for CameraInitialConfig {
    /// What stands for members that are missing.
    fn default() -> (r: Self)
        ensures
            r == (CameraInitialConfig {
                camera_model_kind: CameraModelKind::Pinhole,
                fx: Real64 { bits: 0x408c_2000_0000_0000 },
                fy: Real64 { bits: 0x408c_2000_0000_0000 },
                cx: Real64 { bits: 0x408e_0000_0000_0000 },
                cy: Real64 { bits: 0x4080_e000_0000_0000 },
                image_width: 1920,
                image_height: 1080,
                distortion_kind: DistortionModelKind::Undistorted,
            }),
    {
        CameraInitialConfig {
            camera_model_kind: CameraModelKind::Pinhole,
            fx: Real64::from_bits(0x408c_2000_0000_0000),
            fy: Real64::from_bits(0x408c_2000_0000_0000),
            cx: Real64::from_bits(0x408e_0000_0000_0000),
            cy: Real64::from_bits(0x4080_e000_0000_0000),
            image_width: 1920,
            image_height: 1080,
            distortion_kind: DistortionModelKind::Undistorted,
        }
    }
}

/// The error of a configuration that could not be read.
pub open spec fn unread(kind: Seq<char>, why: Seq<char>) -> NodeErrorView {
    NodeErrorView::Config(kind + " config is invalid: "@ + why)
}

fn unread_config(kind: &str, why: &str) -> (r: NodeError)
    ensures
        r@ == unread(kind@, why@),
{
    NodeError::Config(concat3(kind, " config is invalid: ", why))
}

/// The board that a configuration describes, or why it describes none.
pub open spec fn board_params(parsed: Result<CalibrationBoardConfig, String>) -> Result<
    CalibrationBoardParams,
    NodeErrorView,
> {
    match parsed {
        Err(why) => Err(unread(CALIBRATION_BOARD_PARAMS_KIND@, why@)),
        Ok(config) => {
            let params = CalibrationBoardParams {
                board_kind: config.board_kind,
                cols: config.board_cols,
                rows: config.board_rows,
                square_size_mm: config.square_size_mm,
            };
            match params.fault() {
                Some(fault) => Err(NodeErrorView::Config(fault.text())),
                None => Ok(params),
            }
        },
    }
}

fn read_board_params(parsed: &Result<CalibrationBoardConfig, String>) -> (r: Result<
    CalibrationBoardParams,
    NodeError,
>)
    ensures
        match board_params(*parsed) {
            Ok(params) => r == Ok::<CalibrationBoardParams, NodeError>(params),
            Err(error) => failed(r, error),
        },
{
    match parsed {
        Err(why) => Err(unread_config(CALIBRATION_BOARD_PARAMS_KIND, why.as_str())),
        Ok(config) => {
            let params = CalibrationBoardParams {
                board_kind: config.board_kind,
                cols: config.board_cols,
                rows: config.board_rows,
                square_size_mm: config.square_size_mm,
            };
            match params.validate() {
                Ok(()) => Ok(params),
                Err(fault) => Err(NodeError::config(fault.describe())),
            }
        },
    }
}

pub struct CalibrationBoardParamsFactory;

impl CalibrationBoardParamsFactory {
    pub fn kind(&self) -> (r: &'static str)
        ensures
            r@ == CALIBRATION_BOARD_PARAMS_KIND@,
    {
        CALIBRATION_BOARD_PARAMS_KIND
    }

    /// A node; `parsed` is what its configuration reads as.
    pub fn instantiate(
        &self,
        spec: NodeSpec,
        parsed: Result<CalibrationBoardConfig, String>,
    ) -> (r: CalibrationBoardParamsNode)
        ensures
            r.spec == spec,
            r.parsed == parsed,
    {
        CalibrationBoardParamsNode { spec, parsed }
    }
}

/// Sends the parameters of a board.
pub struct CalibrationBoardParamsNode {
    pub spec: NodeSpec,
    pub parsed: Result<CalibrationBoardConfig, String>,
}

impl CalibrationBoardParamsNode {
    /// The board that the configuration describes.
    pub fn params(&self) -> (r: Result<CalibrationBoardParams, NodeError>)
        ensures
            match board_params(self.parsed) {
                Ok(params) => r == Ok::<CalibrationBoardParams, NodeError>(params),
                Err(error) => failed(r, error),
            },
    {
        read_board_params(&self.parsed)
    }

    pub fn on_start(&mut self, rt: &mut NodeRuntime) -> (r: Result<(), NodeError>)
        ensures
            *final(self) == *old(self),
            match board_params(old(self).parsed) {
                Ok(_) => r is Ok && final(rt)@ == old(rt)@.reported(
                    NodeRuntimeState::Ready,
                    "trigger to emit calibration board parameters"@,
                ),
                Err(error) => failed(r, error) && final(rt)@ == old(rt)@,
            },
    {
        match self.params() {
            Ok(_) => {},
            Err(error) => {
                return Err(error);
            },
        }
        rt.report_state(NodeRuntimeState::Ready, "trigger to emit calibration board parameters");
        Ok(())
    }

    pub fn on_input(&mut self, _port: &str, _packet: DataPacket, _rt: &mut NodeRuntime) -> (r:
        Result<(), NodeError>)
        ensures
            r is Ok,
            *final(self) == *old(self),
            final(_rt)@ == old(_rt)@,
    {
        Ok(())
    }

    /// A trigger sends the parameters; no other action is known.
    pub fn on_action(&mut self, action: NodeAction, rt: &mut NodeRuntime) -> (r: Result<
        (),
        NodeError,
    >)
        ensures
            *final(self) == *old(self),
            match action {
                NodeAction::Trigger => match board_params(old(self).parsed) {
                    Err(error) => failed(r, error) && final(rt)@ == old(rt)@,
                    Ok(params) => if old(rt)@.accepts("board"@) {
                        r is Ok && final(rt)@ == old(rt)@.emitted(
                            "board"@,
                            PacketView::CalibrationBoardParams(params),
                        ).reported(
                            NodeRuntimeState::Ready,
                            "calibration board parameters emitted"@,
                        )
                    } else {
                        failed(r, channel_full()) && final(rt)@ == old(rt)@
                    },
                },
                _ => failed(r, NodeErrorView::UnsupportedAction(action.label())) && final(rt)@
                    == old(rt)@,
            },
    {
        match action {
            NodeAction::Trigger => {
                let params: CalibrationBoardParams = match self.params() {
                    Ok(params) => params,
                    Err(error) => {
                        return Err(error);
                    },
                };
                match rt.emit("board", DataPacket::CalibrationBoardParams(Arc::new(params))) {
                    Ok(()) => {},
                    Err(error) => {
                        return Err(error);
                    },
                }
                rt.report_state(NodeRuntimeState::Ready, "calibration board parameters emitted");
                Ok(())
            },
            other => Err(NodeError::unsupported(&other)),
        }
    }

    /// Takes a configuration that describes a board; another one leaves the earlier one in force.
    /// `parsed` is what the configuration reads as.
    pub fn on_config_update(
        &mut self,
        config: JsonValue,
        parsed: Result<CalibrationBoardConfig, String>,
        _rt: &mut NodeRuntime,
    ) -> (r: Result<(), NodeError>)
        ensures
            final(_rt)@ == old(_rt)@,
            match board_params(parsed) {
                Ok(_) => r is Ok && final(self).parsed == parsed && final(self).spec@ == (
                NodeView { config: config@, ..old(self).spec@ }),
                Err(error) => failed(r, error) && *final(self) == *old(self),
            },
    {
        match read_board_params(&parsed) {
            Ok(_) => {
                self.spec.config = config;
                self.parsed = parsed;
                Ok(())
            },
            Err(error) => Err(error),
        }
    }

    pub fn on_stop(&mut self, rt: &mut NodeRuntime) -> (r: Result<(), NodeError>)
        ensures
            r is Ok,
            *final(self) == *old(self),
            final(rt)@ == old(rt)@.reported(NodeRuntimeState::Idle, "stopped"@),
    {
        rt.report_state(NodeRuntimeState::Idle, "stopped");
        Ok(())
    }
}

/// The camera that a configuration describes, or why it describes none. Its lens has no distortion.
pub open spec fn camera_params(parsed: Result<CameraInitialConfig, String>) -> Result<
    CameraModelParams,
    NodeErrorView,
> {
    match parsed {
        Err(why) => Err(unread(CAMERA_INITIAL_PARAMS_KIND@, why@)),
        Ok(config) => {
            let params = CameraModelParams {
                model: config.camera_model_kind,
                fx: config.fx,
                fy: config.fy,
                cx: config.cx,
                cy: config.cy,
                image_size: Some(
                    CalibrationImageSize {
                        width: config.image_width,
                        height: config.image_height,
                    },
                ),
            };
            if config.image_width == 0 || config.image_height == 0 {
                Err(
                    NodeErrorView::Config(
                        CalibrationDataError::EmptyImage {
                            width: config.image_width,
                            height: config.image_height,
                        }.text(),
                    ),
                )
            } else {
                match params.fault() {
                    Some(fault) => Err(NodeErrorView::Config(fault.text())),
                    None => Ok(params),
                }
            }
        },
    }
}

fn read_camera_params(parsed: &Result<CameraInitialConfig, String>) -> (r: Result<
    (CameraModelParams, DistortionModelParams),
    NodeError,
>)
    ensures
        match camera_params(*parsed) {
            Ok(params) => r is Ok && r->Ok_0.0 == params && r->Ok_0.1@ == DistortionView::none(),
            Err(error) => failed(r, error),
        },
{
    let config: &CameraInitialConfig = match parsed {
        Err(why) => {
            return Err(unread_config(CAMERA_INITIAL_PARAMS_KIND, why.as_str()));
        },
        Ok(config) => config,
    };
    let size: CalibrationImageSize = match CalibrationImageSize::new(
        config.image_width,
        config.image_height,
    ) {
        Ok(size) => size,
        Err(error) => {
            return Err(NodeError::Config(error.describe()));
        },
    };
    let camera = CameraModelParams {
        model: config.camera_model_kind,
        fx: config.fx,
        fy: config.fy,
        cx: config.cx,
        cy: config.cy,
        image_size: Some(size),
    };
    match camera.validate() {
        Ok(()) => {},
        Err(fault) => {
            return Err(NodeError::config(fault.describe()));
        },
    }
    let lens = DistortionModelParams { model: config.distortion_kind, coefficients: Vec::new() };
    match lens.validate() {
        Ok(()) => {},
        Err(fault) => {
            return Err(NodeError::config(fault.describe()));
        },
    }
    proof {
        assert(lens@.coefficients =~= Seq::<Real64>::empty());
    }
    Ok((camera, lens))
}

pub struct CameraInitialParamsFactory;

impl CameraInitialParamsFactory {
    pub fn kind(&self) -> (r: &'static str)
        ensures
            r@ == CAMERA_INITIAL_PARAMS_KIND@,
    {
        CAMERA_INITIAL_PARAMS_KIND
    }

    /// A node; `parsed` is what its configuration reads as.
    pub fn instantiate(
        &self,
        spec: NodeSpec,
        parsed: Result<CameraInitialConfig, String>,
    ) -> (r: CameraInitialParamsNode)
        ensures
            r.spec == spec,
            r.parsed == parsed,
    {
        CameraInitialParamsNode { spec, parsed }
    }
}

/// Sends the parameters of a camera and of its lens.
pub struct CameraInitialParamsNode {
    pub spec: NodeSpec,
    pub parsed: Result<CameraInitialConfig, String>,
}

/// The camera goes out, then its lens; the flag tells whether both found room.
pub open spec fn camera_sent(rt: RuntimeView, camera: CameraModelParams) -> (RuntimeView, bool) {
    if !rt.accepts("cameraModel"@) {
        (rt, false)
    } else {
        let first = rt.emitted("cameraModel"@, PacketView::CameraModelParams(camera));
        if !rt.accepts("distortionModel"@) {
            (first, false)
        } else {
            (
                first.emitted(
                    "distortionModel"@,
                    PacketView::DistortionModelParams(DistortionView::none()),
                ).reported(NodeRuntimeState::Ready, "initial camera parameters emitted"@),
                true,
            )
        }
    }
}

impl CameraInitialParamsNode {
    /// The camera and the lens that the configuration describes.
    pub fn params(&self) -> (r: Result<(CameraModelParams, DistortionModelParams), NodeError>)
        ensures
            match camera_params(self.parsed) {
                Ok(params) => r is Ok && r->Ok_0.0 == params && r->Ok_0.1@
                    == DistortionView::none(),
                Err(error) => failed(r, error),
            },
    {
        read_camera_params(&self.parsed)
    }

    pub fn on_start(&mut self, rt: &mut NodeRuntime) -> (r: Result<(), NodeError>)
        ensures
            *final(self) == *old(self),
            match camera_params(old(self).parsed) {
                Ok(_) => r is Ok && final(rt)@ == old(rt)@.reported(
                    NodeRuntimeState::Ready,
                    "trigger to emit initial camera parameters"@,
                ),
                Err(error) => failed(r, error) && final(rt)@ == old(rt)@,
            },
    {
        match self.params() {
            Ok(_) => {},
            Err(error) => {
                return Err(error);
            },
        }
        rt.report_state(NodeRuntimeState::Ready, "trigger to emit initial camera parameters");
        Ok(())
    }

    pub fn on_input(&mut self, _port: &str, _packet: DataPacket, _rt: &mut NodeRuntime) -> (r:
        Result<(), NodeError>)
        ensures
            r is Ok,
            *final(self) == *old(self),
            final(_rt)@ == old(_rt)@,
    {
        Ok(())
    }

    /// A trigger sends the parameters; no other action is known.
    pub fn on_action(&mut self, action: NodeAction, rt: &mut NodeRuntime) -> (r: Result<
        (),
        NodeError,
    >)
        ensures
            *final(self) == *old(self),
            match action {
                NodeAction::Trigger => match camera_params(old(self).parsed) {
                    Err(error) => failed(r, error) && final(rt)@ == old(rt)@,
                    Ok(camera) => {
                        let (after, all) = camera_sent(old(rt)@, camera);
                        final(rt)@ == after && if all {
                            r is Ok
                        } else {
                            failed(r, channel_full())
                        }
                    },
                },
                _ => failed(r, NodeErrorView::UnsupportedAction(action.label())) && final(rt)@
                    == old(rt)@,
            },
    {
        match action {
            NodeAction::Trigger => {
                let (camera, lens): (CameraModelParams, DistortionModelParams) =
                    match self.params() {
                    Ok(params) => params,
                    Err(error) => {
                        return Err(error);
                    },
                };
                match rt.emit("cameraModel", DataPacket::CameraModelParams(Arc::new(camera))) {
                    Ok(()) => {},
                    Err(error) => {
                        return Err(error);
                    },
                }
                match rt.emit(
                    "distortionModel",
                    DataPacket::DistortionModelParams(Arc::new(lens)),
                ) {
                    Ok(()) => {},
                    Err(error) => {
                        return Err(error);
                    },
                }
                rt.report_state(NodeRuntimeState::Ready, "initial camera parameters emitted");
                Ok(())
            },
            other => Err(NodeError::unsupported(&other)),
        }
    }

    /// Takes a configuration that describes a camera; another one leaves the earlier one in force.
    /// `parsed` is what the configuration reads as.
    pub fn on_config_update(
        &mut self,
        config: JsonValue,
        parsed: Result<CameraInitialConfig, String>,
        _rt: &mut NodeRuntime,
    ) -> (r: Result<(), NodeError>)
        ensures
            final(_rt)@ == old(_rt)@,
            match camera_params(parsed) {
                Ok(_) => r is Ok && final(self).parsed == parsed && final(self).spec@ == (
                NodeView { config: config@, ..old(self).spec@ }),
                Err(error) => failed(r, error) && *final(self) == *old(self),
            },
    {
        match read_camera_params(&parsed) {
            Ok(_) => {
                self.spec.config = config;
                self.parsed = parsed;
                Ok(())
            },
            Err(error) => Err(error),
        }
    }

    pub fn on_stop(&mut self, rt: &mut NodeRuntime) -> (r: Result<(), NodeError>)
        ensures
            r is Ok,
            *final(self) == *old(self),
            final(rt)@ == old(rt)@.reported(NodeRuntimeState::Idle, "stopped"@),
    {
        rt.report_state(NodeRuntimeState::Idle, "stopped");
        Ok(())
    }
}

} // verus!
