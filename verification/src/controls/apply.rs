//! Applying query parameters to the camera, one transfer at a time.

use crate::controls::transfer::{
    failure_view, supported, supported_spec, vc_or_fail, vc_or_fail_spec, Failure, Transfer,
    TransferView, REQ_GET_CUR, REQ_GET_MAX, REQ_GET_MIN, REQ_GET_RES, REQ_SET_CUR,
};
use crate::text::{append_int, dec_int, pair_texts, texts};
use crate::uvc::descriptor::{Entity, VcInfo};
use crate::uvc::setting::{law_accepted_value_fits, parse_setting, parse_setting_spec, Setting};
use crate::uvc::table::{
    is_other_param, layout_ok, other_params, AutoControl, AutoKind, ControlDef,
};
use crate::uvc::value::{
    auto_ae_mode, auto_ae_mode_spec, decode, decode_spec, display_spec, display_value, encode,
    encode_spec,
};
use vstd::prelude::*;
use vstd::string::*;

verus! {

/// The transfer that a setting waits for.
#[derive(Debug, Clone, Copy, PartialEq, Eq, Structural)]
pub enum Stage {
    /// The bitmap of exposure modes is being read.
    ReadModes,
    /// The automatic mode is being switched on.
    EnableAuto,
    /// The automatic mode is being switched off.
    LeaveAuto,
    /// The smallest value is being read.
    ReadMin,
    /// The largest value is being read; the smallest is known.
    ReadMax(i64),
    /// The data that the value shares with another one is being read.
    ReadCurrent,
    /// The value is being written.
    Write,
}

/// What happens next with one setting.
pub enum Step {
    Send(Stage, Transfer),
    Done(String),
    Fail(Failure),
}

/// The contents of a [`Step`].
pub enum StepView {
    Send(Stage, TransferView),
    Done(Seq<char>),
    Fail(u16, Seq<char>),
}

impl View for Step {
    type V = StepView;

    open spec fn view(&self) -> StepView {
        match *self {
            Step::Send(stage, t) => StepView::Send(stage, t@),
            Step::Done(line) => StepView::Done(line@),
            Step::Fail(f) => StepView::Fail(f.0, f.1@),
        }
    }
}

/// The reply to a transfer: its data, or why it failed.
pub open spec fn reply_view(reply: Result<Vec<u8>, String>) -> Result<Seq<u8>, Seq<char>> {
    match reply {
        Ok(data) => Ok(data@),
        Err(e) => Err(e@),
    }
}

/// `n` zero bytes.
pub open spec fn zeros(n: nat) -> Seq<u8> {
    Seq::new(n, |i: int| 0u8)
}

/// A request for the whole data of a control.
pub open spec fn read_transfer(e: Entity, request: u8, def: ControlDef) -> TransferView {
    TransferView { request, selector: def.selector, unit: e.id, data: zeros(def.total as nat) }
}

/// A request that sets the companion control of a value.
pub open spec fn auto_transfer(e: Entity, auto: AutoControl, byte: u8) -> TransferView {
    TransferView { request: REQ_SET_CUR, selector: auto.selector, unit: e.id, data: seq![byte] }
}

/// A request for the bitmap of exposure modes.
pub open spec fn modes_transfer(e: Entity, auto: AutoControl) -> TransferView {
    TransferView { request: REQ_GET_RES, selector: auto.selector, unit: e.id, data: seq![0u8] }
}

/// A request that writes a value, among the other bytes of its control.
pub open spec fn write_transfer(e: Entity, def: ControlDef, v: i64, data: Seq<u8>) -> TransferView {
    TransferView {
        request: REQ_SET_CUR,
        selector: def.selector,
        unit: e.id,
        data: encode_spec(def, v as int, data),
    }
}

pub open spec fn unsupported_text(def: ControlDef) -> Seq<char> {
    def.name@ + " is not supported by this camera"@
}

pub open spec fn no_auto_text(def: ControlDef) -> Seq<char> {
    def.name@ + " has no automatic mode on this camera"@
}

pub open spec fn rejected_text(def: ControlDef, e: Seq<char>) -> Seq<char> {
    "camera rejected "@ + def.name@ + ": "@ + e
}

pub open spec fn range_text(def: ControlDef, v: i64, min: i64, max: i64) -> Seq<char> {
    let shown = |raw: i64| dec_int(display_spec(def, raw) as int);
    def.name@ + "="@ + shown(v) + " is out of range; this camera accepts "@ + shown(min) + ".."@
        + shown(max)
}

/// The line that reports an applied setting.
pub open spec fn done_text(def: ControlDef, setting: Setting) -> Seq<char> {
    match setting {
        Setting::Auto => def.name@ + "=auto"@,
        Setting::Value(v) => def.name@ + "="@ + dec_int(display_spec(def, v) as int),
    }
}

/// A setting that a query parameter can ask for.
pub open spec fn setting_ok(def: ControlDef, setting: Setting) -> bool {
    layout_ok(def) && (setting is Auto ==> def.auto is Some)
}

/// Whether the camera has an automatic mode for the control.
pub open spec fn has_auto(vc: VcInfo, def: ControlDef) -> bool {
    def.auto is Some && supported_spec(vc, def.unit, def.auto->0.bit) is Some
}

/// The byte that switches the automatic mode off.
pub open spec fn manual_byte(kind: AutoKind) -> u8 {
    match kind {
        AutoKind::Flag => 0,
        AutoKind::AeMode => 1,
    }
}

/// The first transfer of a setting, or why it cannot be applied. A camera that
/// has an automatic mode for the control leaves it before it takes a value.
pub open spec fn start_spec(vc: VcInfo, def: ControlDef, setting: Setting) -> Result<
    (Stage, TransferView),
    (u16, Seq<char>),
> {
    match supported_spec(vc, def.unit, def.bit) {
        None => Err((400, unsupported_text(def))),
        Some(e) => match setting {
            Setting::Auto => if !has_auto(vc, def) {
                Err((400, no_auto_text(def)))
            } else {
                match def.auto->0.kind {
                    AutoKind::Flag => Ok((Stage::EnableAuto, auto_transfer(e, def.auto->0, 1))),
                    AutoKind::AeMode => Ok((Stage::ReadModes, modes_transfer(e, def.auto->0))),
                }
            },
            Setting::Value(_) => if has_auto(vc, def) {
                let byte = manual_byte(def.auto->0.kind);
                Ok((Stage::LeaveAuto, auto_transfer(e, def.auto->0, byte)))
            } else {
                Ok((Stage::ReadMin, read_transfer(e, REQ_GET_MIN, def)))
            },
        },
    }
}

/// The step after the reply to the largest value.
pub open spec fn range_step(e: Entity, def: ControlDef, v: i64, min: i64, max: i64) -> StepView {
    if v < min || v > max {
        StepView::Fail(400, range_text(def, v, min, max))
    } else if def.total != def.len {
        StepView::Send(Stage::ReadCurrent, read_transfer(e, REQ_GET_CUR, def))
    } else {
        StepView::Send(Stage::Write, write_transfer(e, def, v, zeros(def.total as nat)))
    }
}

/// The step after a reply. A camera that refuses to leave its automatic mode
/// is asked for its range all the same; any other refusal ends the setting.
pub open spec fn resume_spec(
    e: Entity,
    def: ControlDef,
    setting: Setting,
    stage: Stage,
    reply: Result<Seq<u8>, Seq<char>>,
) -> StepView {
    let short = StepView::Fail(500, rejected_text(def, "short reply"@));
    if stage is LeaveAuto {
        StepView::Send(Stage::ReadMin, read_transfer(e, REQ_GET_MIN, def))
    } else {
        match reply {
            Err(text) => StepView::Fail(500, rejected_text(def, text)),
            Ok(data) => match stage {
                Stage::ReadModes => if data.len() == 0 {
                    short
                } else {
                    match auto_ae_mode_spec(data[0]) {
                        None => StepView::Fail(400, "this camera has no automatic exposure mode"@),
                        Some(mode) => StepView::Send(
                            Stage::EnableAuto,
                            auto_transfer(e, def.auto->0, mode),
                        ),
                    }
                },
                Stage::ReadMin => match decode_spec(def, data) {
                    None => short,
                    Some(min) => StepView::Send(
                        Stage::ReadMax(min),
                        read_transfer(e, REQ_GET_MAX, def),
                    ),
                },
                Stage::ReadMax(min) => match decode_spec(def, data) {
                    None => short,
                    Some(max) => range_step(e, def, setting->Value_0, min, max),
                },
                Stage::ReadCurrent => if def.offset + def.len > data.len() {
                    short
                } else {
                    StepView::Send(Stage::Write, write_transfer(e, def, setting->Value_0, data))
                },
                _ => StepView::Done(done_text(def, setting)),
            },
        }
    }
}

/// Whether a setting can wait at a stage.
pub open spec fn stage_fits(setting: Setting, stage: Stage) -> bool {
    match stage {
        Stage::ReadModes => setting is Auto,
        Stage::EnableAuto => setting is Auto,
        _ => setting is Value,
    }
}

fn zero_bytes(n: u8) -> (r: Vec<u8>)
    ensures
        r@ == zeros(n as nat),
{
    let mut v: Vec<u8> = Vec::new();
    let mut i: u8 = 0;
    while i < n
        invariant
            i <= n,
            v@ == zeros(i as nat),
        decreases n - i,
    {
        v.push(0);
        i = i + 1;
        assert(v@ =~= zeros(i as nat));
    }
    v
}

pub(crate) fn read_of(e: Entity, request: u8, def: &ControlDef) -> (t: Transfer)
    ensures
        t@ == read_transfer(e, request, *def),
{
    Transfer { request, selector: def.selector, unit: e.id, data: zero_bytes(def.total) }
}

fn set_auto(e: Entity, auto: AutoControl, byte: u8) -> (t: Transfer)
    ensures
        t@ == auto_transfer(e, auto, byte),
{
    let mut data: Vec<u8> = Vec::new();
    data.push(byte);
    assert(data@ =~= seq![byte]);
    Transfer { request: REQ_SET_CUR, selector: auto.selector, unit: e.id, data }
}

fn read_modes(e: Entity, auto: AutoControl) -> (t: Transfer)
    ensures
        t@ == modes_transfer(e, auto),
{
    let data = zero_bytes(1);
    assert(data@ =~= seq![0u8]);
    Transfer { request: REQ_GET_RES, selector: auto.selector, unit: e.id, data }
}

fn write_of(e: Entity, def: &ControlDef, v: i64, data: Vec<u8>) -> (t: Transfer)
    requires
        layout_ok(*def),
        def.offset + def.len <= data.len(),
    ensures
        t@ == write_transfer(e, *def, v, data@),
{
    let mut data = data;
    encode(def, v, data.as_mut_slice());
    Transfer { request: REQ_SET_CUR, selector: def.selector, unit: e.id, data }
}

fn rejected(def: &ControlDef, e: &str) -> (s: Step)
    ensures
        s@ == StepView::Fail(500, rejected_text(*def, e@)),
{
    let mut m = String::new();
    m.append("camera rejected ");
    m.append(def.name);
    m.append(": ");
    m.append(e);
    assert(m@ =~= rejected_text(*def, e@));
    Step::Fail((500, m))
}

fn named(def: &ControlDef, rest: &str) -> (s: String)
    ensures
        s@ == def.name@ + rest@,
{
    let mut m = String::new();
    m.append(def.name);
    m.append(rest);
    assert(m@ =~= def.name@ + rest@);
    m
}

/// The first transfer that a setting needs, or why it cannot be applied.
pub fn start_setting(vc: &VcInfo, def: &ControlDef, setting: Setting) -> (r: Result<
    (Stage, Transfer),
    Failure,
>)
    requires
        setting_ok(*def, setting),
    ensures
        match r {
            Ok((stage, t)) => {
                &&& start_spec(*vc, *def, setting) == Ok::<_, (u16, Seq<char>)>((stage, t@))
                &&& stage_fits(setting, stage)
            },
            Err(f) => start_spec(*vc, *def, setting) == Err::<(Stage, TransferView), _>(
                failure_view(f),
            ),
        },
{
    let e = match supported(vc, def.unit, def.bit) {
        Some(e) => e,
        None => return Err((400, named(def, " is not supported by this camera"))),
    };
    let auto_here = match def.auto {
        Some(auto) => if supported(vc, def.unit, auto.bit).is_some() {
            Some(auto)
        } else {
            None
        },
        None => None,
    };
    match setting {
        Setting::Auto => match auto_here {
            None => Err((400, named(def, " has no automatic mode on this camera"))),
            Some(auto) => match auto.kind {
                AutoKind::Flag => Ok((Stage::EnableAuto, set_auto(e, auto, 1))),
                AutoKind::AeMode => Ok((Stage::ReadModes, read_modes(e, auto))),
            },
        },
        Setting::Value(_) => match auto_here {
            Some(auto) => {
                let byte: u8 = match auto.kind {
                    AutoKind::Flag => 0,
                    AutoKind::AeMode => 1,
                };
                Ok((Stage::LeaveAuto, set_auto(e, auto, byte)))
            },
            None => Ok((Stage::ReadMin, read_of(e, REQ_GET_MIN, def))),
        },
    }
}

fn in_range(e: Entity, def: &ControlDef, v: i64, min: i64, max: i64) -> (s: Step)
    requires
        layout_ok(*def),
    ensures
        s@ == range_step(e, *def, v, min, max),
{
    if v < min || v > max {
        let mut m = String::new();
        m.append(def.name);
        m.append("=");
        append_int(&mut m, display_value(def, v));
        m.append(" is out of range; this camera accepts ");
        append_int(&mut m, display_value(def, min));
        m.append("..");
        append_int(&mut m, display_value(def, max));
        assert(m@ =~= range_text(*def, v, min, max));
        Step::Fail((400, m))
    } else if def.total != def.len {
        Step::Send(Stage::ReadCurrent, read_of(e, REQ_GET_CUR, def))
    } else {
        Step::Send(Stage::Write, write_of(e, def, v, zero_bytes(def.total)))
    }
}

/// The next transfer of a setting after a reply, or how the setting ended.
pub fn resume_setting(
    e: Entity,
    def: &ControlDef,
    setting: Setting,
    stage: Stage,
    reply: Result<Vec<u8>, String>,
) -> (s: Step)
    requires
        setting_ok(*def, setting),
        stage_fits(setting, stage),
    ensures
        s@ == resume_spec(e, *def, setting, stage, reply_view(reply)),
        s@ matches StepView::Send(next, _) ==> stage_fits(setting, next),
{
    if let Stage::LeaveAuto = stage {
        return Step::Send(Stage::ReadMin, read_of(e, REQ_GET_MIN, def));
    }
    let data = match reply {
        Ok(data) => data,
        Err(text) => return rejected(def, text.as_str()),
    };
    let v: i64 = match setting {
        Setting::Value(v) => v,
        Setting::Auto => 0,
    };
    match stage {
        Stage::ReadModes => {
            if data.len() == 0 {
                return rejected(def, "short reply");
            }
            match auto_ae_mode(data[0]) {
                None => Step::Fail((400, "this camera has no automatic exposure mode".to_owned())),
                Some(mode) => Step::Send(
                    Stage::EnableAuto,
                    set_auto(e, def.auto.unwrap(), mode),
                ),
            }
        },
        Stage::EnableAuto => Step::Done(named(def, "=auto")),
        Stage::ReadMin => match decode(def, data.as_slice()) {
            None => rejected(def, "short reply"),
            Some(min) => Step::Send(Stage::ReadMax(min), read_of(e, REQ_GET_MAX, def)),
        },
        Stage::ReadMax(min) => match decode(def, data.as_slice()) {
            None => rejected(def, "short reply"),
            Some(max) => in_range(e, def, v, min, max),
        },
        Stage::ReadCurrent => {
            if def.offset as usize + def.len as usize > data.len() {
                return rejected(def, "short reply");
            }
            Step::Send(Stage::Write, write_of(e, def, v, data))
        },
        _ => {
            let mut m = String::new();
            m.append(def.name);
            m.append("=");
            append_int(&mut m, display_value(def, v));
            assert(m@ =~= done_text(*def, setting));
            Step::Done(m)
        },
    }
}

/// The settings that query parameters ask for, in order, or the message that
/// refuses the first bad one. Parameters that are no controls are passed over.
pub open spec fn requested(params: Seq<(Seq<char>, Seq<char>)>) -> Result<
    Seq<(ControlDef, Setting)>,
    Seq<char>,
>
    decreases params.len(),
{
    if params.len() == 0 {
        Ok(Seq::empty())
    } else {
        match requested(params.drop_last()) {
            Err(e) => Err(e),
            Ok(settings) => if other_params().contains(params.last().0) {
                Ok(settings)
            } else {
                match parse_setting_spec(params.last().0, params.last().1) {
                    Err(e) => Err(e),
                    Ok(setting) => Ok(settings.push(setting)),
                }
            },
        }
    }
}

/// The controls and values of a list of settings.
pub open spec fn settings_view(v: Seq<(&'static ControlDef, Setting)>) -> Seq<
    (ControlDef, Setting),
> {
    v.map_values(|p: (&'static ControlDef, Setting)| (*p.0, p.1))
}

/// Settings on their way to the camera: those before the current one have
/// been applied, the current one waits for the reply to a transfer.
pub struct Job {
    vc: VcInfo,
    settings: Vec<(&'static ControlDef, Setting)>,
    index: usize,
    stage: Stage,
    applied: Vec<String>,
}

/// The contents of a [`Job`].
pub struct JobView {
    pub vc: VcInfo,
    pub settings: Seq<(ControlDef, Setting)>,
    pub index: int,
    pub stage: Stage,
    /// One line per setting that has been applied.
    pub applied: Seq<Seq<char>>,
}

impl JobView {
    /// The control that is being set.
    pub open spec fn def(self) -> ControlDef {
        self.settings[self.index].0
    }

    /// What it is being set to.
    pub open spec fn setting(self) -> Setting {
        self.settings[self.index].1
    }

    /// The entity that takes the transfers of the current setting.
    pub open spec fn entity(self) -> Entity {
        supported_spec(self.vc, self.def().unit, self.def().bit)->0
    }

    /// What holds of every job: the current setting is one that the camera
    /// supports, and every setting before it has been applied.
    pub open spec fn valid(self) -> bool {
        &&& 0 <= self.index < self.settings.len()
        &&& forall|i: int|
            0 <= i < self.settings.len() ==> setting_ok(
                (#[trigger] self.settings[i]).0,
                self.settings[i].1,
            )
        &&& supported_spec(self.vc, self.def().unit, self.def().bit) is Some
        &&& stage_fits(self.setting(), self.stage)
        &&& self.applied == report(self.settings.take(self.index))
    }
}

/// The lines that report settings as applied.
pub open spec fn report(settings: Seq<(ControlDef, Setting)>) -> Seq<Seq<char>> {
    settings.map_values(|p: (ControlDef, Setting)| done_text(p.0, p.1))
}

impl View for Job {
    type V = JobView;

    closed spec fn view(&self) -> JobView {
        JobView {
            vc: self.vc,
            settings: settings_view(self.settings@),
            index: self.index as int,
            stage: self.stage,
            applied: texts(self.applied@),
        }
    }
}

/// What happens next with the settings of a request.
pub enum Apply {
    /// The transfer is to be made and its reply handed to the job.
    Send(Job, Transfer),
    /// All settings are applied; one line per setting.
    Finished(Vec<String>),
    Failed(Failure),
}

/// The contents of an [`Apply`].
pub enum ApplyView {
    Send(JobView, TransferView),
    Finished(Seq<Seq<char>>),
    Failed(u16, Seq<char>),
}

impl View for Apply {
    type V = ApplyView;

    open spec fn view(&self) -> ApplyView {
        match *self {
            Apply::Send(job, t) => ApplyView::Send(job@, t@),
            Apply::Finished(lines) => ApplyView::Finished(texts(lines@)),
            Apply::Failed(f) => ApplyView::Failed(f.0, f.1@),
        }
    }
}

/// What happens when all settings before `index` have been applied.
pub open spec fn proceed_spec(
    vc: VcInfo,
    settings: Seq<(ControlDef, Setting)>,
    index: int,
    applied: Seq<Seq<char>>,
) -> ApplyView {
    if index >= settings.len() {
        ApplyView::Finished(applied)
    } else {
        match start_spec(vc, settings[index].0, settings[index].1) {
            Ok((stage, t)) => ApplyView::Send(JobView { vc, settings, index, stage, applied }, t),
            Err(f) => ApplyView::Failed(f.0, f.1),
        }
    }
}

/// What happens when query parameters arrive. All of them are read before
/// the camera is asked for anything.
pub open spec fn begin_spec(
    params: Seq<(Seq<char>, Seq<char>)>,
    attached: bool,
    vc: Option<VcInfo>,
) -> ApplyView {
    match requested(params) {
        Err(e) => ApplyView::Failed(400, e),
        Ok(settings) => if settings.len() == 0 {
            ApplyView::Finished(Seq::empty())
        } else {
            match vc_or_fail_spec(attached, vc) {
                Err(f) => ApplyView::Failed(f.0, f.1),
                Ok(vc) => proceed_spec(vc, settings, 0, Seq::empty()),
            }
        },
    }
}

/// What happens when a reply to the current setting's transfer arrives.
pub open spec fn reply_spec(job: JobView, reply: Result<Seq<u8>, Seq<char>>) -> ApplyView {
    match resume_spec(job.entity(), job.def(), job.setting(), job.stage, reply) {
        StepView::Send(stage, t) => ApplyView::Send(JobView { stage, ..job }, t),
        StepView::Done(line) => proceed_spec(
            job.vc,
            job.settings,
            job.index + 1,
            job.applied.push(line),
        ),
        StepView::Fail(status, text) => ApplyView::Failed(status, text),
    }
}

fn read_settings(params: &[(String, String)]) -> (r: Result<
    Vec<(&'static ControlDef, Setting)>,
    String,
>)
    ensures
        match r {
            Ok(settings) => {
                &&& requested(pair_texts(params@)) == Ok::<_, Seq<char>>(
                    settings_view(settings@),
                )
                &&& forall|i: int|
                    0 <= i < settings.len() ==> setting_ok(
                        *(#[trigger] settings@[i]).0,
                        settings@[i].1,
                    )
            },
            Err(e) => requested(pair_texts(params@)) == Err::<
                Seq<(ControlDef, Setting)>,
                Seq<char>,
            >(e@),
        },
{
    let mut settings: Vec<(&'static ControlDef, Setting)> = Vec::new();
    let ghost p = pair_texts(params@);
    let mut i: usize = 0;
    assert(p.take(0) =~= Seq::empty());
    assert(settings_view(settings@) =~= Seq::empty());
    while i < params.len()
        invariant
            i <= params.len(),
            p == pair_texts(params@),
            requested(p.take(i as int)) == Ok::<_, Seq<char>>(settings_view(settings@)),
            forall|j: int|
                0 <= j < settings.len() ==> setting_ok(
                    *(#[trigger] settings@[j]).0,
                    settings@[j].1,
                ),
        decreases params.len() - i,
    {
        let ghost more = p.take(i + 1);
        proof {
            assert(more.drop_last() =~= p.take(i as int));
            assert(more.last() == (params@[i as int].0@, params@[i as int].1@));
        }
        let name = params[i].0.as_str();
        let value = params[i].1.as_str();
        if !is_other_param(name) {
            match parse_setting(name, value) {
                Err(e) => {
                    proof {
                        lemma_first_refusal(p, i + 1);
                    }
                    return Err(e);
                },
                Ok(setting) => {
                    proof {
                        law_accepted_value_fits(name@, value@, Seq::empty());
                    }
                    let ghost before = settings_view(settings@);
                    settings.push(setting);
                    assert(settings_view(settings@) =~= before.push((*setting.0, setting.1)));
                },
            }
        }
        i = i + 1;
    }
    assert(p.take(i as int) =~= p);
    Ok(settings)
}

/// The first refusal stands, whatever follows.
proof fn lemma_first_refusal(params: Seq<(Seq<char>, Seq<char>)>, n: int)
    requires
        0 <= n <= params.len(),
        requested(params.take(n)) is Err,
    ensures
        requested(params) == requested(params.take(n)),
    decreases params.len(),
{
    if n == params.len() {
        assert(params.take(n) =~= params);
    } else {
        assert(params.drop_last().take(n) =~= params.take(n));
        lemma_first_refusal(params.drop_last(), n);
    }
}

impl Job {
    #[verifier::type_invariant]
    spec fn inv(self) -> bool {
        self@.valid()
    }

    /// The VideoControl interface that the transfers go to.
    pub fn interface(&self) -> (r: u8)
        ensures
            r == self@.vc.interface,
    {
        self.vc.interface
    }

    /// Hands over the reply to the last transfer.
    pub fn reply(self, reply: Result<Vec<u8>, String>) -> (r: Apply)
        ensures
            self@.valid(),
            r@ == reply_spec(self@, reply_view(reply)),
            r matches Apply::Send(job, _) ==> job@.valid(),
            r matches Apply::Finished(lines) ==> texts(lines@) == report(self@.settings),
    {
        proof {
            use_type_invariant(&self);
        }
        let ghost before = self@;
        let Job { vc, settings, index, stage, applied } = self;
        let (def, setting) = settings[index];
        proof {
            assert(index < settings.len());
            assert forall|i: int| 0 <= i < settings.len() implies setting_ok(
                *(#[trigger] settings@[i]).0,
                settings@[i].1,
            ) by {
                assert(before.settings[i] == (*settings@[i].0, settings@[i].1));
            }
        }
        let e = supported(&vc, def.unit, def.bit).unwrap();
        match resume_setting(e, def, setting, stage, reply) {
            Step::Send(next, t) => {
                let job = Job { vc, settings, index, stage: next, applied };
                assert(job@ == (JobView { stage: next, ..before }));
                Apply::Send(job, t)
            },
            Step::Fail(f) => Apply::Failed(f),
            Step::Done(line) => {
                let mut applied = applied;
                applied.push(line);
                proof {
                    assert(texts(applied@) =~= before.applied.push(line@));
                    let s = before.settings;
                    assert(report(s.take(index + 1)) =~= report(s.take(index as int)).push(
                        done_text(*def, setting),
                    ));
                }
                proceed(vc, settings, index + 1, applied)
            },
        }
    }
}

fn proceed(
    vc: VcInfo,
    settings: Vec<(&'static ControlDef, Setting)>,
    index: usize,
    applied: Vec<String>,
) -> (r: Apply)
    requires
        index <= settings.len(),
        forall|i: int|
            0 <= i < settings.len() ==> setting_ok(*(#[trigger] settings@[i]).0, settings@[i].1),
        texts(applied@) == report(settings_view(settings@).take(index as int)),
    ensures
        r@ == proceed_spec(vc, settings_view(settings@), index as int, texts(applied@)),
        r matches Apply::Send(job, _) ==> job@.valid(),
        r matches Apply::Finished(lines) ==> texts(lines@) == report(settings_view(settings@)),
{
    if index >= settings.len() {
        assert(settings_view(settings@).take(index as int) =~= settings_view(settings@));
        return Apply::Finished(applied);
    }
    let (def, setting) = settings[index];
    match start_setting(&vc, def, setting) {
        Ok((stage, t)) => Apply::Send(Job { vc, settings, index, stage, applied }, t),
        Err(f) => Apply::Failed(f),
    }
}

/// Applies query parameters in order. Ends with one line per applied setting,
/// or with the first failure (400 for bad or unsupported parameters, 500 when
/// the camera rejects the request).
pub fn apply_settings(params: &[(String, String)], attached: bool, vc: Option<VcInfo>) -> (r: Apply)
    ensures
        r@ == begin_spec(pair_texts(params@), attached, vc),
        r matches Apply::Send(job, _) ==> job@.valid(),
{
    let settings = match read_settings(params) {
        Ok(settings) => settings,
        Err(e) => return Apply::Failed((400, e)),
    };
    let applied: Vec<String> = Vec::new();
    assert(texts(applied@) =~= Seq::empty());
    if settings.len() == 0 {
        return Apply::Finished(applied);
    }
    let vc = match vc_or_fail(attached, vc) {
        Ok(vc) => vc,
        Err(f) => return Apply::Failed(f),
    };
    assert(report(settings_view(settings@).take(0)) =~= Seq::empty());
    proceed(vc, settings, 0, applied)
}

} // verus!
