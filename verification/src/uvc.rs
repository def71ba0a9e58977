//! USB Video Class control plumbing that needs no hardware: finding the
//! Video Control interface and its Camera Terminal and Processing Unit in a
//! configuration descriptor, the table of controls the HTTP query parameters
//! map to, and encoding/decoding of their values.

pub mod descriptor;
pub mod setting;
pub mod table;
pub mod value;

pub use descriptor::{parse_vc, Entity, VcInfo};
pub use setting::{parse_setting, Setting};
pub use table::{controls, find, is_other_param, AutoControl, AutoKind, ControlDef, Unit};
pub use value::{auto_ae_mode, decode, display_value, encode};
