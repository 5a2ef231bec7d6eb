//! Verified core of a camera calibration toolbox.
pub mod ieee;
pub mod text;
pub mod text_laws;
pub mod value_laws;
pub mod json;
pub mod digest;
pub mod model;
pub mod source;
pub mod calibration;
pub mod asset;
pub mod engine;
