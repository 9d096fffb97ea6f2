//! The state and the rules of a viewer for microscope cameras.
//!
//! The viewer shows the frames of a camera, draws rectangles over them and writes their sizes in
//! micrometres. This library decides: which streams a camera shows and which one is opened, which
//! GPU is used, what is sent to it, what a click, a key or a drag leads to, how calibrations are
//! kept in profiles, and what a saved picture holds. Devices, windows, files and floating-point
//! geometry are left to the program around it, which hands in plain values and carries out what
//! it is told.

pub mod adapter;
pub mod binary;
pub mod bytes;
pub mod calibration;
pub mod camera;
pub mod capture;
pub mod dmabuf;
pub mod frame;
pub mod listing;
pub mod panel;
pub mod path;
pub mod picture;
pub mod player;
pub mod pointer;
pub mod profiles;
pub mod pump;
pub mod scale;
pub mod stream;
pub mod text;
pub mod upload;
