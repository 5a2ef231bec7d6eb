//! The nodes of the engine.
pub mod auto_capture;
pub mod builtin;
pub mod calibration_params;
pub mod calibration_solver;
pub mod capture_logic;
pub mod collector;
pub mod collector_laws;
pub mod composite;
pub mod config;
pub mod detection;
pub mod device_laws;
pub mod field_laws;
pub mod frame_cache;
pub mod frame_text;
pub mod hex_arm;
pub mod i2c_plan_nodes;
pub mod intrinsics;
pub mod local_source;
pub mod pose_estimator;
pub mod raster;
pub mod remote;
pub mod rtsp_source;
pub mod sample_laws;
pub mod skeleton;
pub mod solver_laws;
pub mod stream;
pub mod structured_field_extractor;
pub mod vision_laws;
pub mod x5233;
pub mod x5233_laws;
