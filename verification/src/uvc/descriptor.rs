//! Finding the units that take control requests in a configuration
//! descriptor.

use crate::search::{
    first_from, lemma_first_from_is, lemma_first_from_push, lemma_first_from_range,
};
use crate::uvc::value::le_value;
use vstd::prelude::*;

verus! {

/// Video Control interface and the entities we send requests to.
#[derive(Debug, Clone, Copy, PartialEq, Eq, Structural)]
pub struct VcInfo {
    /// `bInterfaceNumber` of the VideoControl interface (wIndex low byte).
    pub interface: u8,
    pub camera_terminal: Option<Entity>,
    pub processing_unit: Option<Entity>,
}

/// A terminal or unit: its ID (wIndex high byte) and `bmControls` bitmap.
#[derive(Debug, Clone, Copy, PartialEq, Eq, Structural)]
pub struct Entity {
    pub id: u8,
    pub controls: u32,
}

impl Default for VcInfo {
    fn default() -> (r: VcInfo)
        ensures
            r == (VcInfo { interface: 0, camera_terminal: None, processing_unit: None }),
    {
        VcInfo { interface: 0, camera_terminal: None, processing_unit: None }
    }
}

pub const DT_INTERFACE: u8 = 0x04;

pub const DT_CS_INTERFACE: u8 = 0x24;

pub const CLASS_VIDEO: u8 = 0x0e;

pub const SUBCLASS_VIDEOCONTROL: u8 = 0x01;

pub const VC_INPUT_TERMINAL: u8 = 0x02;

pub const VC_PROCESSING_UNIT: u8 = 0x05;

pub const ITT_CAMERA: u16 = 0x0201;

/// The descriptors that follow one another in `cfg`. Each starts with its
/// length; the list ends where a length is impossible.
pub open spec fn descriptors(cfg: Seq<u8>) -> Seq<Seq<u8>>
    decreases cfg.len(),
{
    if cfg.len() >= 2 && 2 <= cfg[0] <= cfg.len() {
        seq![cfg.take(cfg[0] as int)] + descriptors(cfg.skip(cfg[0] as int))
    } else {
        Seq::empty()
    }
}

/// An interface descriptor.
pub open spec fn is_interface(d: Seq<u8>) -> bool {
    d[1] == DT_INTERFACE && d.len() >= 9
}

/// An interface descriptor of a VideoControl interface.
pub open spec fn is_vc_interface(d: Seq<u8>) -> bool {
    is_interface(d) && d[5] == CLASS_VIDEO && d[6] == SUBCLASS_VIDEOCONTROL
}

/// An input terminal descriptor of type camera: bTerminalID, wTerminalType,
/// bAssocTerminal, iTerminal, wObjectiveFocalLengthMin/Max,
/// wOcularFocalLength, bControlSize, bmControls.
pub open spec fn is_camera_terminal(d: Seq<u8>) -> bool {
    d[1] == DT_CS_INTERFACE && d.len() >= 15 && d[2] == VC_INPUT_TERMINAL && le_value(
        d.subrange(4, 6),
    ) == ITT_CAMERA
}

/// A processing unit descriptor: bUnitID, bSourceID, wMaxMultiplier,
/// bControlSize, bmControls.
pub open spec fn is_processing_unit(d: Seq<u8>) -> bool {
    d[1] == DT_CS_INTERFACE && d.len() >= 8 && d[2] == VC_PROCESSING_UNIT
}

/// The number in the first `size` bytes, at most four, as far as they exist.
pub open spec fn bitmap_spec(bytes: Seq<u8>, size: int) -> u32 {
    let n = if size < 4 {
        size
    } else {
        4
    };
    if n < bytes.len() {
        le_value(bytes.take(n)) as u32
    } else {
        le_value(bytes) as u32
    }
}

/// The entity that a camera terminal descriptor describes.
pub open spec fn terminal_entity(d: Seq<u8>) -> Entity {
    Entity { id: d[3], controls: bitmap_spec(d.skip(15), d[14] as int) }
}

/// The entity that a processing unit descriptor describes.
pub open spec fn unit_entity(d: Seq<u8>) -> Entity {
    Entity { id: d[3], controls: bitmap_spec(d.skip(8), d[7] as int) }
}

/// The first VideoControl interface among descriptors, with the first camera
/// terminal and the first processing unit between it and the next interface.
pub open spec fn vc_info(ds: Seq<Seq<u8>>) -> Option<VcInfo> {
    let vc = first_from(ds, |d: Seq<u8>| is_vc_interface(d), 0);
    if vc >= ds.len() {
        None
    } else {
        let end = first_from(ds, |d: Seq<u8>| is_interface(d), vc + 1);
        let ct = first_from(ds, |d: Seq<u8>| is_camera_terminal(d), vc + 1);
        let pu = first_from(ds, |d: Seq<u8>| is_processing_unit(d), vc + 1);
        Some(
            VcInfo {
                interface: ds[vc][2],
                camera_terminal: if ct < end {
                    Some(terminal_entity(ds[ct]))
                } else {
                    None
                },
                processing_unit: if pu < end {
                    Some(unit_entity(ds[pu]))
                } else {
                    None
                },
            },
        )
    }
}

/// What a configuration descriptor says of its video controls.
pub open spec fn parse_vc_spec(cfg: Seq<u8>) -> Option<VcInfo> {
    vc_info(descriptors(cfg))
}

/// Whether descriptors after the last of `ds` belong to the VideoControl
/// interface of [`vc_info`].
pub open spec fn inside_vc(ds: Seq<Seq<u8>>) -> bool {
    let vc = first_from(ds, |d: Seq<u8>| is_vc_interface(d), 0);
    vc < ds.len() && first_from(ds, |d: Seq<u8>| is_interface(d), vc + 1) >= ds.len()
}

/// What one more descriptor changes.
proof fn lemma_vc_info_push(ds: Seq<Seq<u8>>, d: Seq<u8>)
    ensures
        vc_info(ds) is None ==> {
            &&& !inside_vc(ds)
            &&& vc_info(ds.push(d)) == (if is_vc_interface(d) {
                Some(VcInfo { interface: d[2], camera_terminal: None, processing_unit: None })
            } else {
                None
            })
            &&& inside_vc(ds.push(d)) == is_vc_interface(d)
        },
        vc_info(ds) matches Some(info) ==> {
            &&& inside_vc(ds.push(d)) == (inside_vc(ds) && !is_interface(d))
            &&& vc_info(ds.push(d)) == Some(
                VcInfo {
                    interface: info.interface,
                    camera_terminal: if inside_vc(ds) && info.camera_terminal is None
                        && is_camera_terminal(d) {
                        Some(terminal_entity(d))
                    } else {
                        info.camera_terminal
                    },
                    processing_unit: if inside_vc(ds) && info.processing_unit is None
                        && is_processing_unit(d) {
                        Some(unit_entity(d))
                    } else {
                        info.processing_unit
                    },
                },
            )
        },
{
    let is_vc = |d: Seq<u8>| is_vc_interface(d);
    let is_if = |d: Seq<u8>| is_interface(d);
    let is_ct = |d: Seq<u8>| is_camera_terminal(d);
    let is_pu = |d: Seq<u8>| is_processing_unit(d);
    let more = ds.push(d);
    lemma_first_from_range(ds, is_vc, 0);
    lemma_first_from_push(ds, d, is_vc, 0);
    let vc = first_from(ds, is_vc, 0);
    if vc < ds.len() {
        lemma_first_from_range(ds, is_if, vc + 1);
        lemma_first_from_range(ds, is_ct, vc + 1);
        lemma_first_from_range(ds, is_pu, vc + 1);
        lemma_first_from_push(ds, d, is_if, vc + 1);
        lemma_first_from_push(ds, d, is_ct, vc + 1);
        lemma_first_from_push(ds, d, is_pu, vc + 1);
    } else if is_vc_interface(d) {
        let at = ds.len() as int;
        lemma_first_from_range(more, is_if, at + 1);
        lemma_first_from_range(more, is_ct, at + 1);
        lemma_first_from_range(more, is_pu, at + 1);
    }
}

/// The number in the first `size` bytes, at most four, least significant byte
/// first; bytes that are not there count as zero.
fn bitmap(bytes: &[u8], size: usize) -> (r: u32)
    ensures
        r == bitmap_spec(bytes@, size as int),
{
    let mut n: usize = if size < 4 {
        size
    } else {
        4
    };
    if bytes.len() < n {
        n = bytes.len();
    }
    let ghost part = bytes@.take(n as int);
    proof {
        if n == bytes.len() {
            assert(part =~= bytes@);
        }
        reveal_with_fuel(le_value, 5);
    }
    let b0: u32 = if n > 0 {
        bytes[0] as u32
    } else {
        0
    };
    let b1: u32 = if n > 1 {
        bytes[1] as u32
    } else {
        0
    };
    let b2: u32 = if n > 2 {
        bytes[2] as u32
    } else {
        0
    };
    let b3: u32 = if n > 3 {
        bytes[3] as u32
    } else {
        0
    };
    assert(le_value(part) == b0 + 256 * b1 + 65536 * b2 + 16777216 * b3);
    b0 + 256 * b1 + 65536 * b2 + 16777216 * b3
}

/// Walks a full configuration descriptor and returns the first VideoControl
/// interface with its camera terminal and processing unit.
pub fn parse_vc(cfg: &[u8]) -> (r: Option<VcInfo>)
    ensures
        r == parse_vc_spec(cfg@),
{
    let mut info: Option<VcInfo> = None;
    let mut in_vc: bool = false;
    let mut pos: usize = 0;
    let ghost mut done: Seq<Seq<u8>> = Seq::empty();
    proof {
        assert(cfg@.skip(0) =~= cfg@);
        assert(done + descriptors(cfg@) =~= descriptors(cfg@));
    }
    while cfg.len() - pos >= 2
        invariant_except_break
            pos <= cfg.len(),
            descriptors(cfg@) == done + descriptors(cfg@.skip(pos as int)),
            info == vc_info(done),
            in_vc == inside_vc(done),
        ensures
            descriptors(cfg@) == done,
            info == vc_info(done),
        decreases cfg.len() - pos,
    {
        let len: usize = cfg[pos] as usize;
        let ghost rest = cfg@.skip(pos as int);
        if len < 2 || len > cfg.len() - pos {
            assert(descriptors(rest) =~= Seq::empty());
            assert(done + descriptors(rest) =~= done);
            break;
        }
        let d = vstd::slice::slice_subrange(cfg, pos, pos + len);
        proof {
            assert(d@ =~= rest.take(len as int));
            assert(rest.skip(len as int) =~= cfg@.skip(pos + len));
            lemma_vc_info_push(done, d@);
            assert(done + descriptors(rest) =~= done.push(d@) + descriptors(cfg@.skip(pos + len)));
            if len >= 6 {
                reveal_with_fuel(le_value, 3);
                assert(le_value(d@.subrange(4, 6)) == d@[4] + 256 * d@[5]);
            }
        }
        if d[1] == DT_INTERFACE && len >= 9 {
            let is_vc: bool = d[5] == CLASS_VIDEO && d[6] == SUBCLASS_VIDEOCONTROL;
            if is_vc && info.is_none() {
                info = Some(
                    VcInfo { interface: d[2], camera_terminal: None, processing_unit: None },
                );
                in_vc = true;
            } else {
                in_vc = false;
            }
        } else if d[1] == DT_CS_INTERFACE && in_vc && len >= 3 {
            if let Some(vc) = info {
                let mut vc: VcInfo = vc;
                if d[2] == VC_INPUT_TERMINAL && len >= 15 {
                    let ttype: u16 = d[4] as u16 + 256 * (d[5] as u16);
                    if ttype == ITT_CAMERA && vc.camera_terminal.is_none() {
                        let tail = vstd::slice::slice_subrange(d, 15, len);
                        assert(tail@ =~= d@.skip(15));
                        vc.camera_terminal = Some(
                            Entity { id: d[3], controls: bitmap(tail, d[14] as usize) },
                        );
                    }
                } else if d[2] == VC_PROCESSING_UNIT && len >= 8 && vc.processing_unit.is_none() {
                    let tail = vstd::slice::slice_subrange(d, 8, len);
                    assert(tail@ =~= d@.skip(8));
                    vc.processing_unit = Some(
                        Entity { id: d[3], controls: bitmap(tail, d[7] as usize) },
                    );
                }
                info = Some(vc);
            }
        }
        proof {
            done = done.push(d@);
        }
        pos = pos + len;
    }
    info
}

proof fn lemma_vc_info_concat(ds: Seq<Seq<u8>>, more: Seq<Seq<u8>>)
    requires
        vc_info(ds) is Some,
    ensures
        vc_info(ds + more) is Some,
        (vc_info(ds + more)->0).interface == (vc_info(ds)->0).interface,
        (vc_info(ds)->0).camera_terminal is Some ==> (vc_info(ds + more)->0).camera_terminal == (
        vc_info(ds)->0).camera_terminal,
        (vc_info(ds)->0).processing_unit is Some ==> (vc_info(ds + more)->0).processing_unit == (
        vc_info(ds)->0).processing_unit,
        !inside_vc(ds) ==> vc_info(ds + more) == vc_info(ds) && !inside_vc(ds + more),
    decreases more.len(),
{
    if more.len() == 0 {
        assert(ds + more =~= ds);
    } else {
        lemma_vc_info_concat(ds, more.drop_last());
        lemma_vc_info_push(ds + more.drop_last(), more.last());
        assert((ds + more.drop_last()).push(more.last()) =~= ds + more);
    }
}

/// Bytes that follow leave the descriptors found so far as they are.
proof fn lemma_descriptors_prefix(a: Seq<u8>, b: Seq<u8>)
    ensures
        descriptors(a).is_prefix_of(descriptors(a + b)),
    decreases a.len(),
{
    if a.len() >= 2 && 2 <= a[0] <= a.len() {
        let n = a[0] as int;
        lemma_descriptors_prefix(a.skip(n), b);
        assert((a + b).skip(n) =~= a.skip(n) + b);
        assert((a + b).take(n) =~= a.take(n));
        let x = descriptors(a);
        let y = descriptors(a + b);
        let x1 = descriptors(a.skip(n));
        let y1 = descriptors(a.skip(n) + b);
        assert(x1 =~= y1.subrange(0, x1.len() as int));
        assert forall|i: int| 0 <= i < x.len() implies x[i] == y[i] by {
            if i > 0 {
                assert(x[i] == x1[i - 1]);
                assert(y[i] == y1[i - 1]);
            }
        }
        assert(x =~= y.subrange(0, x.len() as int));
    } else {
        assert(descriptors(a) =~= descriptors(a + b).subrange(0, 0));
    }
}

/// The first VideoControl interface stands, and so do the terminal and the
/// unit found in it, whatever follows; and once the next interface has begun,
/// nothing that follows changes the result.
pub proof fn law_first_interface_stands(cfg: Seq<u8>, more: Seq<u8>)
    requires
        parse_vc_spec(cfg) is Some,
    ensures
        parse_vc_spec(cfg + more) is Some,
        (parse_vc_spec(cfg + more)->0).interface == (parse_vc_spec(cfg)->0).interface,
        (parse_vc_spec(cfg)->0).camera_terminal is Some ==> (parse_vc_spec(
            cfg + more,
        )->0).camera_terminal == (parse_vc_spec(cfg)->0).camera_terminal,
        (parse_vc_spec(cfg)->0).processing_unit is Some ==> (parse_vc_spec(
            cfg + more,
        )->0).processing_unit == (parse_vc_spec(cfg)->0).processing_unit,
        !inside_vc(descriptors(cfg)) ==> parse_vc_spec(cfg + more) == parse_vc_spec(cfg),
{
    let ds = descriptors(cfg);
    let all = descriptors(cfg + more);
    lemma_descriptors_prefix(cfg, more);
    assert(all =~= ds + all.skip(ds.len() as int)) by {
        assert(ds =~= all.subrange(0, ds.len() as int));
    }
    lemma_vc_info_concat(ds, all.skip(ds.len() as int));
}

/// One descriptor: its first byte is its length.
pub open spec fn is_descriptor(d: Seq<u8>) -> bool {
    d.len() >= 2 && d[0] == d.len()
}

/// Descriptors one after the other.
pub open spec fn in_a_row(ds: Seq<Seq<u8>>) -> Seq<u8>
    decreases ds.len(),
{
    if ds.len() == 0 {
        Seq::empty()
    } else {
        ds[0] + in_a_row(ds.drop_first())
    }
}

/// The byte that a bitmap of `size` bytes from `start` on has at place `k`;
/// beyond its end, and beyond four bytes, there is nothing.
pub open spec fn bitmap_byte(d: Seq<u8>, start: int, size: u8, k: int) -> int {
    if k < size && k < 4 && start + k < d.len() {
        d[start + k] as int
    } else {
        0
    }
}

/// The number that the bitmap bytes make, lowest byte first.
pub open spec fn bitmap_value(d: Seq<u8>, start: int, size: u8) -> int {
    bitmap_byte(d, start, size, 0) + 256 * bitmap_byte(d, start, size, 1) + 65536 * bitmap_byte(
        d,
        start,
        size,
        2,
    ) + 16777216 * bitmap_byte(d, start, size, 3)
}

/// An interface descriptor: of type 4, with at least 9 bytes.
pub open spec fn begins_interface(d: Seq<u8>) -> bool {
    d.len() >= 9 && d[1] == 4
}

/// The descriptor of a VideoControl interface: class 14, subclass 1.
pub open spec fn begins_video_control(d: Seq<u8>) -> bool {
    begins_interface(d) && d[5] == 14 && d[6] == 1
}

/// A processing unit: of type 0x24 and subtype 5, with at least 8 bytes.
pub open spec fn describes_unit(d: Seq<u8>) -> bool {
    d.len() >= 8 && d[1] == 0x24 && d[2] == 5
}

/// A camera: an input terminal of type 0x24 and subtype 2 with at least 15
/// bytes, whose terminal type is 0x0201.
pub open spec fn describes_camera(d: Seq<u8>) -> bool {
    d.len() >= 15 && d[1] == 0x24 && d[2] == 2 && d[4] == 0x01 && d[5] == 0x02
}

proof fn lemma_descriptors_in_a_row(ds: Seq<Seq<u8>>, rest: Seq<u8>)
    requires
        forall|i: int| 0 <= i < ds.len() ==> is_descriptor(#[trigger] ds[i]),
    ensures
        descriptors(in_a_row(ds) + rest) == ds + descriptors(rest),
    decreases ds.len(),
{
    if ds.len() == 0 {
        assert(in_a_row(ds) + rest =~= rest);
        assert(ds + descriptors(rest) =~= descriptors(rest));
    } else {
        let d = ds[0];
        let tail = ds.drop_first();
        assert forall|i: int| 0 <= i < tail.len() implies is_descriptor(#[trigger] tail[i]) by {
            assert(tail[i] == ds[i + 1]);
        }
        lemma_descriptors_in_a_row(tail, rest);
        assert(is_descriptor(ds[0]));
        let all = in_a_row(ds) + rest;
        assert(all =~= d + (in_a_row(tail) + rest));
        assert(all[0] == d[0]);
        assert(all.take(d.len() as int) =~= d);
        assert(all.skip(d.len() as int) =~= in_a_row(tail) + rest);
        assert(descriptors(all) =~= ds + descriptors(rest));
    }
}

proof fn lemma_kinds(d: Seq<u8>)
    requires
        d.len() >= 2,
    ensures
        is_interface(d) == begins_interface(d),
        is_vc_interface(d) == begins_video_control(d),
        is_processing_unit(d) == describes_unit(d),
        is_camera_terminal(d) == describes_camera(d),
{
    if d.len() >= 15 {
        reveal_with_fuel(le_value, 3);
        assert(le_value(d.subrange(4, 6)) == d[4] + 256 * d[5]);
    }
}

proof fn lemma_bitmap_value(d: Seq<u8>, start: int, size: u8)
    requires
        0 <= start <= d.len(),
    ensures
        bitmap_spec(d.skip(start), size as int) == bitmap_value(d, start, size),
{
    let bytes = d.skip(start);
    let m: int = if size < 4 {
        size as int
    } else {
        4
    };
    let n: int = if m < bytes.len() {
        m
    } else {
        bytes.len() as int
    };
    let part = bytes.take(n);
    if n == bytes.len() {
        assert(part =~= bytes);
    }
    reveal_with_fuel(le_value, 5);
    assert(le_value(part) == bitmap_value(d, start, size));
}

/// In a configuration descriptor, the first VideoControl interface is found,
/// whatever descriptors of other kinds stand before it; and what its camera
/// terminal and its processing unit are is decided by the first descriptor of
/// each kind between it and the next interface.
pub proof fn law_video_control_is_found(
    before: Seq<Seq<u8>>,
    vc: Seq<u8>,
    inside: Seq<Seq<u8>>,
    after: Seq<Seq<u8>>,
    rest: Seq<u8>,
    k: int,
)
    requires
        forall|i: int|
            0 <= i < before.len() ==> is_descriptor(#[trigger] before[i])
                && !begins_video_control(before[i]),
        is_descriptor(vc),
        begins_video_control(vc),
        forall|i: int|
            0 <= i < inside.len() ==> is_descriptor(#[trigger] inside[i]) && !begins_interface(
                inside[i],
            ),
        forall|i: int| 0 <= i < after.len() ==> is_descriptor(#[trigger] after[i]),
        after.len() > 0 ==> begins_interface(after[0]),
        after.len() == 0 ==> rest.len() < 2 || rest[0] < 2 || rest[0] > rest.len(),
    ensures
        ({
            let found = parse_vc_spec(
                in_a_row(before) + vc + in_a_row(inside) + in_a_row(after) + rest,
            );
            &&& found is Some
            &&& (found->0).interface == vc[2]
            &&& 0 <= k < inside.len() && describes_unit(inside[k]) && (forall|i: int|
                0 <= i < k ==> !describes_unit(#[trigger] inside[i])) ==> {
                &&& (found->0).processing_unit matches Some(unit)
                &&& unit.id == inside[k][3]
                &&& unit.controls == bitmap_value(inside[k], 8, inside[k][7])
            }
            &&& 0 <= k < inside.len() && describes_camera(inside[k]) && (forall|i: int|
                0 <= i < k ==> !describes_camera(#[trigger] inside[i])) ==> {
                &&& (found->0).camera_terminal matches Some(terminal)
                &&& terminal.id == inside[k][3]
                &&& terminal.controls == bitmap_value(inside[k], 15, inside[k][14])
            }
            &&& (forall|i: int| 0 <= i < inside.len() ==> !describes_unit(#[trigger] inside[i]))
                ==> (found->0).processing_unit is None
            &&& (forall|i: int| 0 <= i < inside.len() ==> !describes_camera(#[trigger] inside[i]))
                ==> (found->0).camera_terminal is None
        }),
{
    let tail = descriptors(rest);
    let ds = before + seq![vc] + inside + after + tail;
    let cfg = in_a_row(before) + vc + in_a_row(inside) + in_a_row(after) + rest;
    let r2 = in_a_row(after) + rest;
    let r1 = in_a_row(inside) + r2;
    lemma_descriptors_in_a_row(after, rest);
    lemma_descriptors_in_a_row(inside, r2);
    let one = seq![vc];
    assert(one.drop_first() =~= Seq::empty());
    assert(in_a_row(one.drop_first()) =~= Seq::empty());
    assert(in_a_row(one) =~= vc);
    lemma_descriptors_in_a_row(one, r1);
    lemma_descriptors_in_a_row(before, vc + r1);
    assert(cfg =~= in_a_row(before) + (vc + r1));
    assert(descriptors(cfg) =~= ds);
    let is_vc = |d: Seq<u8>| is_vc_interface(d);
    let is_if = |d: Seq<u8>| is_interface(d);
    let is_ct = |d: Seq<u8>| is_camera_terminal(d);
    let is_pu = |d: Seq<u8>| is_processing_unit(d);
    let at = before.len() as int;
    let end = at + 1 + inside.len();
    assert forall|i: int| 0 <= i < at implies !is_vc(#[trigger] ds[i]) by {
        assert(ds[i] == before[i]);
        lemma_kinds(before[i]);
    }
    assert(ds[at] == vc);
    lemma_kinds(vc);
    lemma_first_from_is(ds, is_vc, 0, at);
    assert forall|i: int| at + 1 <= i < end implies !is_if(#[trigger] ds[i]) by {
        assert(ds[i] == inside[i - at - 1]);
        lemma_kinds(inside[i - at - 1]);
    }
    if after.len() == 0 {
        assert(tail =~= Seq::empty());
        assert(ds.len() == end);
    } else {
        assert(ds[end] == after[0]);
        lemma_kinds(after[0]);
    }
    lemma_first_from_is(ds, is_if, at + 1, end);
    lemma_first_from_range(ds, is_ct, at + 1);
    lemma_first_from_range(ds, is_pu, at + 1);
    let here = at + 1 + k;
    if 0 <= k < inside.len() {
        assert(ds[here] == inside[k]);
        lemma_kinds(inside[k]);
    }
    if 0 <= k < inside.len() && describes_unit(inside[k]) && (forall|i: int|
        0 <= i < k ==> !describes_unit(#[trigger] inside[i])) {
        assert forall|i: int| at + 1 <= i < here implies !is_pu(#[trigger] ds[i]) by {
            assert(ds[i] == inside[i - at - 1]);
            lemma_kinds(inside[i - at - 1]);
        }
        lemma_first_from_is(ds, is_pu, at + 1, here);
        lemma_bitmap_value(inside[k], 8, inside[k][7]);
    }
    if 0 <= k < inside.len() && describes_camera(inside[k]) && (forall|i: int|
        0 <= i < k ==> !describes_camera(#[trigger] inside[i])) {
        assert forall|i: int| at + 1 <= i < here implies !is_ct(#[trigger] ds[i]) by {
            assert(ds[i] == inside[i - at - 1]);
            lemma_kinds(inside[i - at - 1]);
        }
        lemma_first_from_is(ds, is_ct, at + 1, here);
        lemma_bitmap_value(inside[k], 15, inside[k][14]);
    }
    let pu = first_from(ds, is_pu, at + 1);
    let ct = first_from(ds, is_ct, at + 1);
    if (forall|i: int| 0 <= i < inside.len() ==> !describes_unit(#[trigger] inside[i])) && pu
        < end {
        assert(ds[pu] == inside[pu - at - 1]);
        lemma_kinds(inside[pu - at - 1]);
    }
    if (forall|i: int| 0 <= i < inside.len() ==> !describes_camera(#[trigger] inside[i])) && ct
        < end {
        assert(ds[ct] == inside[ct - at - 1]);
        lemma_kinds(inside[ct - at - 1]);
    }
}

/// Without a VideoControl interface nothing is found, and what follows a
/// descriptor of impossible length is not read.
pub proof fn law_no_video_control(ds: Seq<Seq<u8>>, rest: Seq<u8>)
    requires
        forall|i: int|
            0 <= i < ds.len() ==> is_descriptor(#[trigger] ds[i]) && !begins_video_control(ds[i]),
        rest.len() < 2 || rest[0] < 2 || rest[0] > rest.len(),
    ensures
        parse_vc_spec(in_a_row(ds) + rest) is None,
{
    lemma_descriptors_in_a_row(ds, rest);
    assert(descriptors(rest) =~= Seq::empty());
    assert(ds + descriptors(rest) =~= ds);
    let is_vc = |d: Seq<u8>| is_vc_interface(d);
    assert forall|i: int| 0 <= i < ds.len() implies !is_vc(#[trigger] ds[i]) by {
        lemma_kinds(ds[i]);
    }
    lemma_first_from_is(ds, is_vc, 0, ds.len() as int);
}

} // verus!
