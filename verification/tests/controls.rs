use adapter_core::controls::apply::{apply_settings, Apply};
use adapter_core::controls::report::{controls_json, report_plan};
use adapter_core::controls::{
    entity, request_failure, supported, vc_or_fail, Failure, Setup, Transfer,
};
use adapter_core::uvc::{controls, Entity, Unit, VcInfo};

/// A camera that stores what it is sent, as (unit, selector) and data.
struct Fake {
    range: Vec<(u8, u8, Vec<u8>, Vec<u8>)>,
    current: Vec<(u8, u8, Vec<u8>)>,
    log: Vec<(u8, u8, u8, Vec<u8>)>,
    refuse: Option<(u8, u8)>,
}

impl Fake {
    fn new() -> Fake {
        Fake { range: Vec::new(), current: Vec::new(), log: Vec::new(), refuse: None }
    }

    fn transfer(&mut self, t: &Transfer) -> Result<Vec<u8>, String> {
        self.log.push((t.request, t.selector, t.unit, t.data.clone()));
        if self.refuse == Some((t.request, t.selector)) {
            return Err(request_failure(t, -1));
        }
        let key = (t.unit, t.selector);
        match t.request {
            0x01 => {
                self.current.retain(|c| (c.0, c.1) != key);
                self.current.push((t.unit, t.selector, t.data.clone()));
                Ok(t.data.clone())
            }
            0x81 => {
                let found = self.current.iter().find(|c| (c.0, c.1) == key);
                Ok(found.map(|c| c.2.clone()).unwrap_or(t.data.clone()))
            }
            _ => {
                let found = self.range.iter().find(|r| (r.0, r.1) == key);
                match found {
                    Some(r) if t.request == 0x82 => Ok(r.2.clone()),
                    Some(r) if t.request == 0x83 => Ok(r.3.clone()),
                    Some(r) if t.request == 0x84 => Ok(r.2.clone()),
                    _ => Ok(t.data.clone()),
                }
            }
        }
    }

    fn apply(&mut self, query: &[(&str, &str)], vc: Option<VcInfo>) -> Result<Vec<String>, Failure> {
        let params: Vec<(String, String)> =
            query.iter().map(|(k, v)| (k.to_string(), v.to_string())).collect();
        let mut step = apply_settings(&params, true, vc);
        loop {
            match step {
                Apply::Send(job, t) => {
                    assert_eq!(job.interface(), 3);
                    let reply = self.transfer(&t);
                    step = job.reply(reply);
                }
                Apply::Finished(lines) => return Ok(lines),
                Apply::Failed(f) => return Err(f),
            }
        }
    }
}

fn everything() -> Option<VcInfo> {
    Some(VcInfo {
        interface: 3,
        camera_terminal: Some(Entity { id: 1, controls: 0xffff_ffff }),
        processing_unit: Some(Entity { id: 2, controls: 0xffff_ffff }),
    })
}

#[test]
fn units_and_support() {
    let vc = VcInfo {
        interface: 0,
        camera_terminal: Some(Entity { id: 1, controls: 0b1000 }),
        processing_unit: None,
    };
    assert_eq!(entity(&vc, Unit::CameraTerminal), Some(Entity { id: 1, controls: 0b1000 }));
    assert_eq!(entity(&vc, Unit::ProcessingUnit), None);
    assert_eq!(supported(&vc, Unit::CameraTerminal, 3).map(|e| e.id), Some(1));
    assert_eq!(supported(&vc, Unit::CameraTerminal, 2), None);
    assert_eq!(supported(&vc, Unit::CameraTerminal, 31), None);
    assert_eq!(supported(&vc, Unit::ProcessingUnit, 3), None);
}

#[test]
fn setup_packets() {
    let set = Transfer { request: 0x01, selector: 0x0b, unit: 9, data: vec![1, 2] };
    assert_eq!(
        set.setup(4),
        Setup { request_type: 0x21, request: 0x01, w_value: 0x0b00, w_index: 0x0904, length: 2 }
    );
    let get = Transfer { request: 0x82, selector: 0x0d, unit: 255, data: vec![0; 8] };
    assert_eq!(
        get.setup(255),
        Setup { request_type: 0xa1, request: 0x82, w_value: 0x0d00, w_index: 0xffff, length: 8 }
    );
    assert_eq!(request_failure(&get, -5), "request 0x82 selector 0x0d unit 255: esp_err -5");
    assert_eq!(request_failure(&set, 259), "request 0x01 selector 0x0b unit 9: esp_err 259");
}

#[test]
fn missing_interface() {
    assert_eq!(vc_or_fail(false, everything()), Err((503, "no camera attached".to_string())));
    assert_eq!(
        vc_or_fail(true, None),
        Err((503, "camera has no VideoControl interface".to_string()))
    );
    assert_eq!(vc_or_fail(true, everything()), Ok(everything().unwrap()));
}

#[test]
fn plain_value_is_written() {
    let mut cam = Fake::new();
    cam.range.push((1, 0x0b, vec![100, 0], vec![0x90, 0x01]));
    assert_eq!(cam.apply(&[("zoom", "200")], everything()), Ok(vec!["zoom=200".to_string()]));
    assert_eq!(
        cam.log,
        vec![
            (0x82, 0x0b, 1, vec![0, 0]),
            (0x83, 0x0b, 1, vec![0, 0]),
            (0x01, 0x0b, 1, vec![200, 0]),
        ]
    );
}

#[test]
fn value_outside_the_range_is_not_written() {
    let mut cam = Fake::new();
    cam.range.push((1, 0x0b, vec![100, 0], vec![0x90, 0x01]));
    assert_eq!(
        cam.apply(&[("zoom", "99")], everything()),
        Err((400, "zoom=99 is out of range; this camera accepts 100..400".to_string()))
    );
    assert!(cam.log.iter().all(|t| t.0 != 0x01));
    cam.range.push((2, 0x05, vec![1], vec![1]));
    assert_eq!(
        cam.apply(&[("powerline", "60")], everything()),
        Err((400, "powerline=60 is out of range; this camera accepts 50..50".to_string()))
    );
    assert_eq!(cam.apply(&[("powerline", "50")], everything()), Ok(vec!["powerline=50".into()]));
}

#[test]
fn value_leaves_the_automatic_mode() {
    let mut cam = Fake::new();
    cam.range.push((2, 0x0a, vec![0, 0], vec![0xff, 0xff]));
    assert_eq!(cam.apply(&[("wb", "4500")], everything()), Ok(vec!["wb=4500".to_string()]));
    assert_eq!(cam.log[0], (0x01, 0x0b, 2, vec![0]));
    assert_eq!(cam.log[3], (0x01, 0x0a, 2, vec![0x94, 0x11]));
    assert_eq!(cam.log.len(), 4);
    // A camera that refuses to leave the automatic mode is asked all the same.
    cam.refuse = Some((0x01, 0x0b));
    assert_eq!(cam.apply(&[("wb", "4600")], everything()), Ok(vec!["wb=4600".to_string()]));
    // Exposure has a mode bitmap: 1 is manual.
    cam.log.clear();
    cam.range.push((1, 0x04, vec![0, 0, 0, 0], vec![0, 0, 1, 0]));
    assert_eq!(cam.apply(&[("exposure", "65536")], everything()), Ok(vec!["exposure=65536".into()]));
    assert_eq!(cam.log[0], (0x01, 0x02, 1, vec![1]));
    assert_eq!(cam.log[3], (0x01, 0x04, 1, vec![0, 0, 1, 0]));
}

#[test]
fn pan_keeps_tilt() {
    let mut cam = Fake::new();
    cam.range.push((1, 0x0d, vec![0, 0, 0, 128, 0, 0, 0, 128], vec![255, 255, 255, 127, 255, 255, 255, 127]));
    cam.current.push((1, 0x0d, vec![1, 2, 3, 4, 5, 6, 7, 8]));
    assert_eq!(cam.apply(&[("pan", "-2")], everything()), Ok(vec!["pan=-2".to_string()]));
    assert_eq!(cam.current, vec![(1, 0x0d, vec![254, 255, 255, 255, 5, 6, 7, 8])]);
    assert_eq!(cam.apply(&[("tilt", "3600")], everything()), Ok(vec!["tilt=3600".to_string()]));
    assert_eq!(cam.current, vec![(1, 0x0d, vec![254, 255, 255, 255, 0x10, 0x0e, 0, 0])]);
}

#[test]
fn automatic_modes() {
    let mut cam = Fake::new();
    assert_eq!(cam.apply(&[("focus", "AUTO")], everything()), Ok(vec!["focus=auto".to_string()]));
    assert_eq!(cam.log, vec![(0x01, 0x08, 1, vec![1])]);
    cam.log.clear();
    // The bitmap of exposure modes offers manual, auto and shutter priority.
    cam.range.push((1, 0x02, vec![7], vec![7]));
    assert_eq!(cam.apply(&[("exposure", "auto")], everything()), Ok(vec!["exposure=auto".into()]));
    assert_eq!(cam.log, vec![(0x84, 0x02, 1, vec![0]), (0x01, 0x02, 1, vec![2])]);
    cam.range.clear();
    cam.range.push((1, 0x02, vec![1], vec![1]));
    assert_eq!(
        cam.apply(&[("exposure", "auto")], everything()),
        Err((400, "this camera has no automatic exposure mode".to_string()))
    );
}

#[test]
fn unsupported_settings() {
    let mut cam = Fake::new();
    let vc = Some(VcInfo {
        interface: 3,
        camera_terminal: Some(Entity { id: 1, controls: 1 << 5 }),
        processing_unit: None,
    });
    assert_eq!(
        cam.apply(&[("brightness", "1")], vc),
        Err((400, "brightness is not supported by this camera".to_string()))
    );
    assert_eq!(
        cam.apply(&[("zoom", "1")], vc),
        Err((400, "zoom is not supported by this camera".to_string()))
    );
    assert_eq!(
        cam.apply(&[("focus", "auto")], vc),
        Err((400, "focus has no automatic mode on this camera".to_string()))
    );
    assert!(cam.log.is_empty());
}

#[test]
fn rejected_transfers() {
    let mut cam = Fake::new();
    cam.range.push((1, 0x0b, vec![0, 0], vec![9, 0]));
    for request in [0x82, 0x83, 0x01] {
        cam.refuse = Some((request, 0x0b));
        assert_eq!(
            cam.apply(&[("zoom", "5")], everything()),
            Err((
                500,
                format!("camera rejected zoom: request {request:#04x} selector 0x0b unit 1: esp_err -1")
            ))
        );
    }
    cam.refuse = None;
    cam.range.clear();
    cam.range.push((1, 0x0b, vec![0], vec![9, 0]));
    assert_eq!(
        cam.apply(&[("zoom", "5")], everything()),
        Err((500, "camera rejected zoom: short reply".to_string()))
    );
}

#[test]
fn settings_in_order() {
    let mut cam = Fake::new();
    cam.range.push((1, 0x0b, vec![0, 0], vec![9, 0]));
    cam.range.push((2, 0x0a, vec![0, 0], vec![255, 255]));
    assert_eq!(
        cam.apply(&[("wb", "auto"), ("t", "17"), ("zoom", "5"), ("wb", "4500"), ("_", "")], everything()),
        Ok(vec!["wb=auto".to_string(), "zoom=5".to_string(), "wb=4500".to_string()])
    );
    assert!(cam.current.contains(&(2, 0x0b, vec![0])));
    assert!(cam.current.contains(&(2, 0x0a, vec![0x94, 0x11])));
    // The second setting fails; the first has been made.
    cam.current.clear();
    assert_eq!(
        cam.apply(&[("zoom", "6"), ("zoom", "10"), ("zoom", "7")], everything()),
        Err((400, "zoom=10 is out of range; this camera accepts 0..9".to_string()))
    );
    assert_eq!(cam.current, vec![(1, 0x0b, vec![6, 0])]);
}

#[test]
fn bad_parameters_reach_no_camera() {
    let mut cam = Fake::new();
    let bad = cam.apply(&[("zoom", "5"), ("focus", "near"), ("bogus", "1")], everything());
    assert_eq!(bad, Err((400, "focus must be a number or 'auto'".to_string())));
    assert!(cam.log.is_empty());
    let none: Vec<(String, String)> = vec![("t".to_string(), "1".to_string())];
    assert!(matches!(apply_settings(&none, false, None), Apply::Finished(lines) if lines.is_empty()));
    let zoom: Vec<(String, String)> = vec![("zoom".to_string(), "1".to_string())];
    assert!(matches!(
        apply_settings(&zoom, false, everything()),
        Apply::Failed((503, text)) if text == "no camera attached"
    ));
    assert!(matches!(
        apply_settings(&zoom, true, None),
        Apply::Failed((503, text)) if text == "camera has no VideoControl interface"
    ));
}

#[test]
fn report_reads_only_what_is_supported() {
    let vc = VcInfo {
        interface: 3,
        camera_terminal: Some(Entity { id: 1, controls: (1 << 3) | (1 << 1) | (1 << 5) }),
        processing_unit: Some(Entity { id: 2, controls: 1 << 10 }),
    };
    let plan = report_plan(&vc);
    let asked: Vec<(u8, u8, u8, usize)> =
        plan.iter().map(|t| (t.unit, t.request, t.selector, t.data.len())).collect();
    assert_eq!(
        asked,
        vec![
            (1, 0x81, 0x02, 1),
            (1, 0x81, 0x04, 4),
            (1, 0x82, 0x04, 4),
            (1, 0x83, 0x04, 4),
            (1, 0x87, 0x04, 4),
            (1, 0x84, 0x04, 4),
            (1, 0x81, 0x06, 2),
            (1, 0x82, 0x06, 2),
            (1, 0x83, 0x06, 2),
            (1, 0x87, 0x06, 2),
            (1, 0x84, 0x06, 2),
            (2, 0x81, 0x05, 1),
            (2, 0x82, 0x05, 1),
            (2, 0x83, 0x05, 1),
            (2, 0x87, 0x05, 1),
            (2, 0x84, 0x05, 1),
        ]
    );
    let refused = || Err("stalled".to_string());
    let replies = vec![
        Ok(vec![8]),
        Ok(vec![0x9c, 0, 0, 0]),
        Ok(vec![3, 0, 0, 0]),
        Ok(vec![0, 8, 0, 0]),
        Ok(vec![0xfa, 0, 0, 0]),
        Ok(vec![1, 0, 0, 0]),
        Ok(vec![50, 0]),
        refused(),
        refused(),
        Ok(vec![1]),
        Ok(vec![5, 0]),
        Ok(vec![2]),
        Ok(vec![0]),
        Ok(vec![2]),
        Ok(vec![1]),
        Ok(vec![1]),
    ];
    assert_eq!(
        controls_json(&vc, &replies),
        "{\n  \"exposure\": {\"auto\": true, \"cur\": 156, \"min\": 3, \"max\": 2048, \"def\": 250, \"step\": 1},\n  \"focus\": {\"cur\": 50, \"step\": 5},\n  \"powerline\": {\"cur\": 60, \"min\": 0, \"max\": 60, \"def\": 50, \"step\": 1}\n}\n"
    );
}

#[test]
fn report_on_automatic_modes() {
    let only = |bits: u32| VcInfo {
        interface: 0,
        camera_terminal: Some(Entity { id: 1, controls: bits }),
        processing_unit: None,
    };
    let silent = || -> Vec<Result<Vec<u8>, String>> {
        (0..6).map(|_| Err("stalled".to_string())).collect()
    };
    let exposure = only((1 << 3) | (1 << 1));
    let focus = only((1 << 5) | (1 << 17));
    let mut replies = silent();
    assert_eq!(controls_json(&exposure, &replies), "{\n  \"exposure\": {}\n}\n");
    replies[0] = Ok(vec![1]);
    assert_eq!(controls_json(&exposure, &replies), "{\n  \"exposure\": {\"auto\": false}\n}\n");
    assert_eq!(controls_json(&focus, &replies), "{\n  \"focus\": {\"auto\": true}\n}\n");
    replies[0] = Ok(vec![0]);
    assert_eq!(controls_json(&exposure, &replies), "{\n  \"exposure\": {\"auto\": true}\n}\n");
    assert_eq!(controls_json(&focus, &replies), "{\n  \"focus\": {\"auto\": false}\n}\n");
    assert_eq!(controls_json(&only(0), &[]), "{\n\n}\n");
    assert_eq!(report_plan(&only(0)).len(), 0);
    assert_eq!(report_plan(&everything().unwrap()).len(), controls().len() * 5 + 4);
}
