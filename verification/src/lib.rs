//! Core of a small real-time rendering engine: a resource store for
//! GPU-backed assets keyed by hashed names, a frame timer, the
//! model-view-projection arithmetic of the render step, the image
//! preparation done at load time, and the state machine that the
//! window loop runs for resize and swapchain recovery.
//!
//! Everything that touches the native graphics API (context creation,
//! shader compilation, texture upload, drawing, presentation) lives
//! outside this crate; the functions here compute the decisions and
//! values those calls need, and state exactly what they compute.

pub mod driver;
pub mod mat4;
pub mod resource;
pub mod shader;
pub mod texture;
pub mod time;
