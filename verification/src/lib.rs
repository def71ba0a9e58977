//! Platform-independent logic of a USB camera adapter that answers HTTP
//! requests with single frames.

pub mod camera;
pub mod controls;
pub mod encoding;
pub mod http;
pub mod search;
pub mod server;
pub mod text;
pub mod uvc;
