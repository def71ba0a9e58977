//! Class requests to the camera's terminals and units.

use crate::text::{append_hex_byte, append_int, append_nat, dec_int, dec_nat, hex_byte};
use crate::uvc::descriptor::{Entity, VcInfo};
use crate::uvc::table::Unit;
use vstd::prelude::*;
use vstd::string::*;

verus! {

pub const REQ_SET_CUR: u8 = 0x01;

pub const REQ_GET_CUR: u8 = 0x81;

pub const REQ_GET_MIN: u8 = 0x82;

pub const REQ_GET_MAX: u8 = 0x83;

pub const REQ_GET_RES: u8 = 0x84;

pub const REQ_GET_DEF: u8 = 0x87;

/// Class request to an interface, host to device.
pub const RT_OUT: u8 = 0x21;

/// Class request to an interface, device to host.
pub const RT_IN: u8 = 0xa1;

/// HTTP status and message for a failed request.
pub type Failure = (u16, String);

/// The terminal or unit of the given kind, where the camera has one.
pub open spec fn entity_spec(vc: VcInfo, unit: Unit) -> Option<Entity> {
    match unit {
        Unit::CameraTerminal => vc.camera_terminal,
        Unit::ProcessingUnit => vc.processing_unit,
    }
}

/// The entity of the given kind, where its bitmap lists the control.
pub open spec fn supported_spec(vc: VcInfo, unit: Unit, bit: u8) -> Option<Entity> {
    match entity_spec(vc, unit) {
        Some(e) => if e.controls & (1u32 << bit) != 0 {
            Some(e)
        } else {
            None
        },
        None => None,
    }
}

/// The terminal or unit that controls of the given kind belong to.
pub fn entity(vc: &VcInfo, unit: Unit) -> (r: Option<Entity>)
    ensures
        r == entity_spec(*vc, unit),
{
    match unit {
        Unit::CameraTerminal => vc.camera_terminal,
        Unit::ProcessingUnit => vc.processing_unit,
    }
}

/// The entity to ask for a control, if the camera supports the control.
pub fn supported(vc: &VcInfo, unit: Unit, bit: u8) -> (r: Option<Entity>)
    requires
        bit < 32,
    ensures
        r == supported_spec(*vc, unit, bit),
{
    match entity(vc, unit) {
        Some(e) => if e.controls & (1u32 << bit) != 0 {
            Some(e)
        } else {
            None
        },
        None => None,
    }
}

/// One class request. `data` is sent for SET requests and filled for GETs.
#[derive(Debug)]
pub struct Transfer {
    pub request: u8,
    pub selector: u8,
    /// ID of the terminal or unit.
    pub unit: u8,
    pub data: Vec<u8>,
}

/// What a [`Transfer`] asks of the camera.
pub struct TransferView {
    pub request: u8,
    pub selector: u8,
    pub unit: u8,
    pub data: Seq<u8>,
}

impl View for Transfer {
    type V = TransferView;

    open spec fn view(&self) -> TransferView {
        TransferView {
            request: self.request,
            selector: self.selector,
            unit: self.unit,
            data: self.data@,
        }
    }
}

/// The fields of a USB setup packet.
#[derive(Debug, Clone, Copy, PartialEq, Eq, Structural)]
pub struct Setup {
    pub request_type: u8,
    pub request: u8,
    /// Selector in the high byte.
    pub w_value: u16,
    /// Entity in the high byte, interface in the low byte.
    pub w_index: u16,
    pub length: u16,
}

/// The setup packet of a transfer to an entity of the given VideoControl
/// interface.
pub open spec fn setup_spec(t: TransferView, interface: u8) -> Setup {
    Setup {
        request_type: if t.request == REQ_SET_CUR {
            RT_OUT
        } else {
            RT_IN
        },
        request: t.request,
        w_value: (256 * t.selector) as u16,
        w_index: (256 * t.unit + interface) as u16,
        length: t.data.len() as u16,
    }
}

/// Why the driver refused a transfer.
pub open spec fn request_failure_text(t: TransferView, rc: int) -> Seq<char> {
    "request "@ + hex_byte(t.request) + " selector "@ + hex_byte(t.selector) + " unit "@ + dec_nat(
        t.unit as nat,
    ) + ": esp_err "@ + dec_int(rc)
}

impl Transfer {
    /// The setup packet for the interface.
    pub fn setup(&self, interface: u8) -> (r: Setup)
        ensures
            r == setup_spec(self@, interface),
    {
        let selector: u16 = self.selector as u16;
        let unit: u16 = self.unit as u16;
        let low: u16 = interface as u16;
        assert(selector < 256 ==> selector << 8 == 256 * selector) by (bit_vector);
        assert(unit < 256 && low < 256 ==> (unit << 8) | low == 256 * unit + low) by (bit_vector);
        Setup {
            request_type: if self.request == REQ_SET_CUR {
                RT_OUT
            } else {
                RT_IN
            },
            request: self.request,
            w_value: selector << 8,
            w_index: (unit << 8) | low,
            length: #[verifier::truncate] (self.data.len() as u16),
        }
    }
}

/// The message for a transfer that the driver refused with code `rc`.
pub fn request_failure(t: &Transfer, rc: i32) -> (r: String)
    ensures
        r@ == request_failure_text(t@, rc as int),
{
    let mut s = String::new();
    s.append("request ");
    append_hex_byte(&mut s, t.request);
    s.append(" selector ");
    append_hex_byte(&mut s, t.selector);
    s.append(" unit ");
    append_nat(&mut s, t.unit as u64);
    s.append(": esp_err ");
    append_int(&mut s, rc as i64);
    assert(s@ =~= request_failure_text(t@, rc as int));
    s
}

/// The status and the text of a [`Failure`].
pub open spec fn failure_view(f: Failure) -> (u16, Seq<char>) {
    (f.0, f.1@)
}

/// The VideoControl interface to send requests to, or why there is none.
pub open spec fn vc_or_fail_spec(attached: bool, vc: Option<VcInfo>) -> Result<
    VcInfo,
    (u16, Seq<char>),
> {
    if !attached {
        Err((503, "no camera attached"@))
    } else {
        match vc {
            Some(vc) => Ok(vc),
            None => Err((503, "camera has no VideoControl interface"@)),
        }
    }
}

/// The VideoControl interface of the attached camera.
pub fn vc_or_fail(attached: bool, vc: Option<VcInfo>) -> (r: Result<VcInfo, Failure>)
    ensures
        match r {
            Ok(vc_info) => vc_or_fail_spec(attached, vc) == Ok::<VcInfo, (u16, Seq<char>)>(vc_info),
            Err(f) => vc_or_fail_spec(attached, vc) == Err::<VcInfo, (u16, Seq<char>)>(
                failure_view(f),
            ),
        },
{
    if !attached {
        return Err((503, "no camera attached".to_owned()));
    }
    match vc {
        Some(vc) => Ok(vc),
        None => Err((503, "camera has no VideoControl interface".to_owned())),
    }
}

} // verus!
