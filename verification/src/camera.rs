//! The camera: which of its formats is opened, the state of its stream, the
//! latest frame, and the settings that are remembered for it.
//!
//! The stream runs only on demand: a snapshot request starts it, the frames
//! after a short warm-up are kept as "latest frame", and an idle timer stops
//! the stream when nobody has asked for a picture for a while. Attach and
//! detach are handled without restarting anything else.

pub mod device;
pub mod device_laws;
pub mod format;
pub mod format_laws;
pub mod frame_laws;
pub mod frames;
pub mod laws;
pub mod memory;
pub mod memory_laws;
pub mod state;

pub use device::{DevState, Negotiated};
pub use format::{choose_format, FrameInfo, RawFrame, StreamConfig};
pub use frames::{Frame, Poll};
pub use state::{Camera, Connected, NextOpen};
