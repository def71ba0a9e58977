//! Camera settings through UVC class requests: `GET /?wb=auto&zoom=200`
//! applies them, `GET /controls` reports what the camera offers.
//!
//! Requests go to the VideoControl interface's Camera Terminal (exposure,
//! focus, zoom, pan, tilt...) or Processing Unit (brightness, white
//! balance...). The transfers themselves are left to the caller: this module
//! says which one comes next and makes sense of the replies.

pub mod apply;
pub mod course_laws;
pub mod laws;
pub mod report;
pub mod report_laws;
pub mod transfer;

pub use transfer::{entity, request_failure, supported, vc_or_fail, Failure, Setup, Transfer};
