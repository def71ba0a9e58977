use adapter_core::camera::device::{
    call_result, esp_check, negotiated, open_failed, start_result, Denied, DevState, OpenEnd,
    ESP_ERR_INVALID_STATE, ESP_OK,
};
use adapter_core::camera::format::{after_attempt, frame_list, rate_to_try, stream_config, Attempt};
use adapter_core::camera::state::{config_total_length, IDLE_STOP};
use adapter_core::camera::{choose_format, Camera, Frame, FrameInfo, Negotiated, NextOpen, Poll, RawFrame};
use adapter_core::controls::apply::Apply;

fn raw(mjpeg: bool, w: u32, h: u32) -> RawFrame {
    RawFrame {
        mjpeg,
        h_res: w,
        v_res: h,
        default_fps: "30".to_string(),
        interval_type: 2,
        slowest: String::new(),
        fastest: String::new(),
        discrete: vec!["30".to_string(), "15".to_string(), "5".to_string()],
    }
}

fn format(mjpeg: bool, w: u32, h: u32) -> FrameInfo {
    FrameInfo::from_raw(&raw(mjpeg, w, h))
}

fn size(f: Option<FrameInfo>) -> Option<(u16, u16)> {
    f.map(|f| (f.width, f.height))
}

fn fps30() -> Negotiated {
    Negotiated { width: 640, height: 480, fps: "30".to_string() }
}

/// A camera whose stream is open with the given handle.
fn open_camera(handle: usize) -> Camera {
    let mut cam = Camera::start(None, None);
    assert!(cam.device_connected(1, 0, &vec![raw(true, 640, 480)], Some(1)));
    cam.begin_open();
    assert_eq!(cam.end_open(ESP_OK), OpenEnd::Opened);
    cam.opened(handle, fps30());
    cam
}

#[test]
fn format_descriptions() {
    assert_eq!(format(true, 640, 480).describe(), "MJPEG 640x480 @ 30, 15 fps (default 30)");
    let mut r = raw(false, 320, 240);
    r.interval_type = 0;
    r.slowest = "5".to_string();
    r.fastest = "60".to_string();
    assert_eq!(FrameInfo::from_raw(&r).describe(), "other 320x240 @ 5..60 fps (default 30)");
    r.interval_type = 200;
    assert_eq!(FrameInfo::from_raw(&r).rates, "30, 15, 5");
    r.interval_type = 1;
    assert_eq!(FrameInfo::from_raw(&r).rates, "30");
    let wide = format(true, 65536 + 7, 65535);
    assert_eq!((wide.width, wide.height), (7, 65535));
}

#[test]
fn frame_lists() {
    let list = vec![raw(true, 640, 480), raw(true, 320, 240)];
    assert_eq!(frame_list(&list, Some(1)).len(), 1);
    assert_eq!(frame_list(&list, Some(9)).len(), 2);
    assert_eq!(frame_list(&list, None).len(), 0);
    assert_eq!(frame_list(&list, Some(2))[1].width, 320);
}

#[test]
fn format_choice() {
    let formats = vec![
        format(false, 640, 480),
        format(true, 1280, 720),
        format(true, 800, 600),
        format(true, 320, 240),
        format(true, 600, 800),
    ];
    assert_eq!(size(choose_format(&formats, Some((1280, 720)))), Some((1280, 720)));
    // Uncompressed 640x480 does not count; 800x600 is the first of the closest.
    assert_eq!(size(choose_format(&formats, Some((640, 480)))), Some((800, 600)));
    assert_eq!(size(choose_format(&formats, None)), Some((800, 600)));
    assert_eq!(size(choose_format(&formats, Some((600, 800)))), Some((600, 800)));
    assert_eq!(size(choose_format(&formats, Some((1, 1)))), Some((320, 240)));
    assert_eq!(size(choose_format(&formats, Some((65535, 65535)))), Some((1280, 720)));
    assert_eq!(size(choose_format(&formats[..1], None)), None);
    assert_eq!(size(choose_format(&[], Some((640, 480)))), None);
}

#[test]
fn frame_rates() {
    assert_eq!(rate_to_try(Some(15), 0), Some(15));
    assert_eq!(rate_to_try(Some(15), 1), Some(0));
    assert_eq!(rate_to_try(Some(15), 2), None);
    assert_eq!(rate_to_try(None, 0), Some(0));
    assert_eq!(rate_to_try(None, 1), None);
}

#[test]
fn open_attempts() {
    let no = |e: &str| Err(e.to_string());
    assert!(matches!(after_attempt(Some(15), 0, Ok(())), Attempt::Opened));
    assert!(matches!(after_attempt(Some(15), 0, no("a")), Attempt::Again(0)));
    assert!(matches!(after_attempt(Some(15), 1, Ok(())), Attempt::Opened));
    assert!(matches!(after_attempt(Some(15), 1, no("b")), Attempt::Failed(e) if e == "b"));
    assert!(matches!(after_attempt(None, 0, Ok(())), Attempt::Opened));
    assert!(matches!(after_attempt(None, 0, no("c")), Attempt::Failed(e) if e == "c"));
    assert!(matches!(after_attempt(Some(15), usize::MAX, no("d")), Attempt::Failed(e) if e == "d"));
}

#[test]
fn stream_configuration() {
    let c = stream_config(5, 1, &format(true, 1280, 720), 15);
    assert_eq!((c.dev_addr, c.stream_index, c.h_res, c.v_res, c.fps), (5, 1, 1280, 720, 15));
    // Half of the 2 bytes that each pixel takes uncompressed.
    assert_eq!((c.frame_size, c.frame_buffers, c.urbs), (921600, 2, 4));
    assert_eq!(stream_config(5, 1, &format(true, 320, 240), 0).frame_size, 76800);
    assert_eq!(stream_config(5, 1, &format(true, 256, 192), 0).frame_size, 48 * 1024);
    assert_eq!(stream_config(5, 1, &format(true, 160, 120), 0).frame_size, 48 * 1024);
    assert_eq!(stream_config(5, 1, &format(true, 65535, 65535), 0).frame_size, 4294836225);
}

#[test]
fn driver_codes() {
    assert_eq!(esp_check(ESP_OK, "usb_host_install"), Ok(()));
    assert_eq!(
        esp_check(-1, "usb_host_install"),
        Err("usb_host_install failed: esp_err -1".to_string())
    );
    assert_eq!(start_result(ESP_OK), Ok(()));
    assert_eq!(start_result(ESP_ERR_INVALID_STATE), Ok(()));
    assert_eq!(start_result(257), Err("uvc_host_stream_start: esp_err 257".to_string()));
    assert_eq!(
        open_failed(&format(true, 640, 480), 15, 263),
        "uvc_host_stream_open 640x480 @ 15 fps: esp_err 263"
    );
    assert_eq!(call_result(Ok(()), false), Ok(()));
    assert_eq!(call_result(Err("stalled".to_string()), false), Err("stalled".to_string()));
    assert_eq!(call_result(Ok(()), true), Err("camera detached".to_string()));
    assert_eq!(config_total_length(0x34, 0x12), 0x1234);
}

#[test]
fn negotiated_format() {
    let f = format(true, 640, 480);
    let n = negotiated(Some((320, 65536 + 240, "8".to_string())), &f, 15);
    assert_eq!((n.width, n.height, n.fps.as_str()), (320, 240, "8"));
    let n = negotiated(None, &f, 15);
    assert_eq!((n.width, n.height, n.fps.as_str()), (640, 480, "15"));
}

#[test]
fn handle_is_closed_at_once_when_idle() {
    let mut d = DevState::new();
    d.begin_open();
    assert_eq!(d.end_open(ESP_OK), OpenEnd::Opened);
    d.opened(7, fps30());
    d.started();
    assert!(d.running);
    assert_eq!(d.disconnected(), Some(7));
    assert!(!d.running && d.handle.is_none() && d.format.is_none());
    assert_eq!(d.disconnected(), None);
    d.started();
    assert!(!d.running);
}

#[test]
fn handle_in_use_is_closed_by_its_user() {
    let mut d = DevState::new();
    d.begin_open();
    d.end_open(ESP_OK);
    d.opened(7, fps30());
    assert_eq!(d.acquire(), Ok(7));
    assert_eq!(d.acquire(), Err(Denied::Busy));
    assert_eq!(d.disconnected(), None);
    assert!(d.pending_close);
    assert!(d.release());
    assert!(d.handle.is_none() && !d.in_use && !d.pending_close);
    assert_eq!(d.acquire(), Err(Denied::NoCamera));
    assert_eq!(Denied::Busy.text(), "camera busy");
    assert_eq!(Denied::NoCamera.text(), "no camera attached");
}

#[test]
fn release_without_a_disconnect_keeps_the_handle() {
    let mut d = DevState::new();
    d.begin_open();
    d.end_open(ESP_OK);
    d.opened(7, fps30());
    assert_eq!(d.acquire(), Ok(7));
    assert!(!d.release());
    assert_eq!(d.handle, Some(7));
    d.started();
    d.stopped();
    assert!(!d.running);
}

#[test]
fn open_attempts_that_fail() {
    let mut d = DevState::new();
    d.begin_open();
    assert_eq!(d.end_open(-1), OpenEnd::Refused);
    d.begin_open();
    assert_eq!(d.disconnected(), None);
    assert_eq!(d.end_open(ESP_OK), OpenEnd::Left);
    assert!(d.handle.is_none() && !d.in_use && !d.pending_close);
    d.begin_open();
    assert_eq!(d.disconnected(), None);
    assert_eq!(d.end_open(-1), OpenEnd::Refused);
    assert!(!d.pending_close);
}

#[test]
fn frame_counter_saturates() {
    let mut d = DevState::new();
    assert_eq!(d.frame_received(), 0);
    assert_eq!(d.frame_received(), 1);
    d.frames = u32::MAX;
    assert_eq!(d.frame_received(), u32::MAX - 1);
    assert_eq!(d.frames, u32::MAX);
}

#[test]
fn latest_frame() {
    let mut f = Frame::new();
    assert!(!f.store(0, &[1, 2, 3, 4]));
    assert!(!f.store(1, &[1, 2, 3, 4]));
    assert!(!f.store(2, &[1, 2, 3]));
    assert_eq!((f.seq, f.data.len()), (0, 0));
    assert!(f.store(2, &[1, 2, 3, 4]));
    assert!(f.store(9, &[5, 6, 7, 8, 9]));
    assert_eq!((f.seq, f.index, f.data.clone()), (2, 9, vec![5, 6, 7, 8, 9]));
    f.restart();
    assert_eq!((f.seq, f.data.len()), (0, 5));
}

#[test]
fn first_camera_is_used() {
    let mut cam = Camera::start(Some((320, 240)), Some(15));
    assert_eq!((cam.wanted, cam.wanted_fps), (Some((320, 240)), Some(15)));
    assert!(matches!(cam.next_open(), NextOpen::Wait));
    assert_eq!(cam.describe(), "detached");
    assert!(cam.formats().is_empty());
    assert!(cam.device_connected(4, 1, &vec![raw(true, 640, 480)], Some(1)));
    assert!(!cam.device_connected(5, 0, &vec![raw(true, 320, 240)], Some(1)));
    assert_eq!(cam.describe(), "enumerated, opening");
    assert_eq!(cam.formats().len(), 1);
    match cam.next_open() {
        NextOpen::Open { dev_addr, stream_index, format, substituted } => {
            assert_eq!((dev_addr, stream_index, substituted), (4, 1, true));
            assert_eq!((format.width, format.height), (640, 480));
        }
        other => panic!("{other:?}"),
    }
    let mut exact = Camera::start(Some((640, 480)), None);
    assert!(exact.device_connected(4, 1, &vec![raw(true, 640, 480)], Some(1)));
    assert!(matches!(exact.next_open(), NextOpen::Open { substituted: false, .. }));
    let mut plain = Camera::start(None, None);
    assert!(plain.device_connected(4, 1, &vec![raw(false, 640, 480)], Some(1)));
    assert!(matches!(plain.next_open(), NextOpen::Unsupported));
}

#[test]
fn attached_camera() {
    let mut cam = open_camera(3);
    assert!(cam.is_attached());
    assert!(matches!(cam.next_open(), NextOpen::Wait));
    assert_eq!(cam.describe(), "MJPEG 640x480 @ 30 fps, idle");
    assert!(cam.acquire().is_ok());
    assert!(!cam.release());
    cam.stream_started();
    assert_eq!(cam.describe(), "MJPEG 640x480 @ 30 fps, streaming");
    assert!(!cam.is_idle(IDLE_STOP));
    assert!(cam.is_idle(IDLE_STOP + 1));
    cam.stream_stopped();
    assert!(!cam.is_idle(IDLE_STOP + 1));
    cam.dev.format = None;
    assert_eq!(cam.describe(), "attached");
    cam.descriptor_read(Some(vec![9, 4, 2, 0, 0, 14, 1, 0, 0]));
    assert_eq!(cam.vc_info().map(|v| v.interface), Some(2));
    cam.descriptor_read(None);
    assert_eq!(cam.vc_info(), None);
    // The settings from before are to be applied again.
    assert_eq!(cam.descriptor_read(None), vec![]);
    cam.remember_settings(&pairs(&[("zoom", "5"), ("wb", "auto")]));
    cam.device_disconnected();
    assert_eq!(cam.descriptor_read(None), pairs(&[("zoom", "5"), ("wb", "auto")]));
    assert_eq!(cam.last_settings, pairs(&[("zoom", "5"), ("wb", "auto")]));
}

#[test]
fn unplugging() {
    let mut cam = open_camera(3);
    cam.descriptor_read(Some(vec![9, 4, 2, 0, 0, 14, 1, 0, 0]));
    assert_eq!(cam.device_disconnected(), Some(3));
    assert!(!cam.is_attached());
    assert_eq!(cam.vc_info(), None);
    assert_eq!(cam.describe(), "detached");
    assert_eq!(cam.begin_snapshot(), Err("no camera attached".to_string()));
    let mut busy = open_camera(8);
    assert_eq!(busy.acquire(), Ok(8));
    assert_eq!(busy.device_disconnected(), None);
    assert!(busy.release());
    assert_eq!(busy.acquire(), Err(Denied::NoCamera));
}

#[test]
fn snapshot_waits_for_a_new_frame() {
    let mut cam = open_camera(3);
    let start = cam.begin_snapshot().unwrap();
    cam.stream_started();
    assert!(matches!(cam.poll_snapshot(start, 0, 0), Poll::Wait(8_000_000_000)));
    // The first two frames belong to the warm-up.
    assert!(!cam.frame_received(&[1, 1, 1, 1]));
    assert!(!cam.frame_received(&[2, 2, 2, 2]));
    assert!(matches!(cam.poll_snapshot(start, 0, 7_999_999_999), Poll::Wait(1)));
    assert!(cam.frame_received(&[3, 3, 3, 3]));
    assert!(matches!(cam.poll_snapshot(start, 0, 0), Poll::Deliver(d) if d == [3, 3, 3, 3]));
    // With two frames to let pass, the third one is the answer.
    assert!(matches!(cam.poll_snapshot(start, 2, 0), Poll::Wait(_)));
    assert!(cam.frame_received(&[4, 4, 4, 4]));
    assert!(!cam.frame_received(&[9, 9]));
    assert!(matches!(cam.poll_snapshot(start, 2, 0), Poll::Wait(_)));
    assert!(cam.frame_received(&[5, 5, 5, 5]));
    assert!(matches!(cam.poll_snapshot(start, 2, 0), Poll::Deliver(d) if d == [5, 5, 5, 5]));
    // A request that comes now is not answered with an old frame.
    let later = cam.begin_snapshot().unwrap();
    assert!(matches!(cam.poll_snapshot(later, 0, 0), Poll::Wait(_)));
}

#[test]
fn snapshot_is_fresh_across_a_restart() {
    let mut cam = open_camera(3);
    cam.stream_started();
    for n in 0..9 {
        cam.frame_received(&[n, n, n, n]);
    }
    let start = cam.begin_snapshot().unwrap();
    assert_eq!(start, 7);
    // A frame of the old run, then the stream starts again and warms up.
    assert!(cam.acquire().is_ok());
    assert!(cam.frame_received(&[20, 0, 0, 0]));
    assert!(!cam.release());
    cam.stream_started();
    assert!(matches!(cam.poll_snapshot(start, 1, 0), Poll::Wait(_)));
    assert!(!cam.frame_received(&[21, 0, 0, 0]));
    assert!(!cam.frame_received(&[22, 0, 0, 0]));
    assert!(cam.frame_received(&[23, 0, 0, 0]));
    assert!(matches!(cam.poll_snapshot(start, 1, 0), Poll::Deliver(d) if d == [23, 0, 0, 0]));
    // Opened anew, the count starts at 0 and the old frame is not delivered.
    let start = cam.begin_snapshot().unwrap();
    cam.device_disconnected();
    assert!(cam.device_connected(1, 0, &vec![raw(true, 640, 480)], Some(1)));
    cam.begin_open();
    cam.end_open(ESP_OK);
    cam.opened(4, fps30());
    cam.stream_started();
    for n in 0..2 + start as u8 {
        cam.frame_received(&[50 + n, 0, 0, 0]);
        assert!(matches!(cam.poll_snapshot(start, 0, 0), Poll::Wait(_)));
    }
    assert!(cam.frame_received(&[99, 0, 0, 0]));
    assert!(matches!(cam.poll_snapshot(start, 0, 0), Poll::Deliver(d) if d == [99, 0, 0, 0]));
}

#[test]
fn settings_survive_unplugging() {
    let mut cam = open_camera(3);
    let done = |line: &str| Ok(vec![line.to_string()]);
    cam.settings_finished(&pairs(&[("wb", "auto"), ("zoom", "5")]), &done("zoom=5"));
    cam.settings_finished(&pairs(&[("zoom", "6")]), &done("zoom=6"));
    assert_eq!(cam.device_disconnected(), Some(3));
    assert!(cam.device_connected(1, 0, &vec![raw(true, 640, 480)], Some(1)));
    cam.begin_open();
    cam.end_open(ESP_OK);
    cam.opened(4, fps30());
    assert_eq!(cam.descriptor_read(None), pairs(&[("wb", "auto"), ("zoom", "6")]));
}

#[test]
fn snapshot_gives_up() {
    let mut cam = open_camera(3);
    match cam.poll_snapshot(0, 0, 8_000_000_000) {
        Poll::Fail(e) => assert_eq!(e, "no frame within 8s"),
        other => panic!("{other:?}"),
    }
    assert_eq!(cam.frame_overflow(), Some(1));
    for _ in 1..49 {
        assert_eq!(cam.frame_overflow(), None);
    }
    assert_eq!(cam.frame_overflow(), Some(50));
    match cam.poll_snapshot(0, 0, 9_000_000_000) {
        Poll::Fail(e) => assert_eq!(
            e,
            "no frame within 8s: frames exceed the buffer (50 dropped); lower the resolution"
        ),
        other => panic!("{other:?}"),
    }
    cam.device_disconnected();
    match cam.poll_snapshot(0, 0, 0) {
        Poll::Fail(e) => assert_eq!(e, "camera detached"),
        other => panic!("{other:?}"),
    }
}

#[test]
fn opening_counts_anew() {
    let mut cam = open_camera(3);
    cam.stream_started();
    for _ in 0..3 {
        cam.frame_received(&[1, 2, 3, 4]);
    }
    cam.frame_overflow();
    assert_eq!((cam.frame.seq, cam.overflows, cam.dev.frames), (1, 1, 3));
    cam.device_disconnected();
    assert!(cam.device_connected(2, 0, &vec![raw(true, 320, 240)], Some(1)));
    cam.begin_open();
    assert_eq!(cam.end_open(ESP_OK), OpenEnd::Opened);
    cam.opened(4, fps30());
    assert_eq!((cam.frame.seq, cam.overflows, cam.dev.frames), (0, 0, 0));
}

fn pairs(list: &[(&str, &str)]) -> Vec<(String, String)> {
    list.iter().map(|(k, v)| (k.to_string(), v.to_string())).collect()
}

#[test]
fn settings_are_remembered() {
    let mut cam = Camera::start(None, None);
    cam.remember_settings(&pairs(&[("wb", "auto"), ("t", "1"), ("zoom", "5"), ("wb", "4500")]));
    assert_eq!(cam.last_settings, pairs(&[("zoom", "5"), ("wb", "4500")]));
    cam.remember_settings(&pairs(&[("focus", "7"), ("bogus", "1"), ("zoom", "6")]));
    assert_eq!(cam.last_settings, pairs(&[("wb", "4500"), ("focus", "7"), ("zoom", "6")]));
    cam.settings_finished(&pairs(&[("zoom", "7")]), &Err((500, "rejected".to_string())));
    assert_eq!(cam.last_settings, pairs(&[("wb", "4500"), ("focus", "7"), ("zoom", "6")]));
    cam.settings_finished(&pairs(&[("zoom", "7")]), &Ok(vec!["zoom=7".to_string()]));
    assert_eq!(cam.last_settings, pairs(&[("wb", "4500"), ("focus", "7"), ("zoom", "7")]));
    // What stays comes first, then the request in the order of last occurrence.
    let twice = pairs(&[("focus", "1"), ("gain", "2"), ("focus", "3")]);
    cam.remember_settings(&twice);
    let ordered = pairs(&[("wb", "4500"), ("zoom", "7"), ("gain", "2"), ("focus", "3")]);
    assert_eq!(cam.last_settings, ordered);
    cam.remember_settings(&twice);
    assert_eq!(cam.last_settings, ordered);
    // Applying them again changes nothing.
    let saved = cam.last_settings.clone();
    cam.remember_settings(&saved);
    assert_eq!(cam.last_settings, saved);
}

#[test]
fn settings_need_a_camera() {
    let cam = Camera::start(None, None);
    assert!(matches!(
        cam.apply_settings(&pairs(&[("zoom", "5")])),
        Apply::Failed((503, text)) if text == "no camera attached"
    ));
    assert!(matches!(cam.controls_plan(), Err((503, text)) if text == "no camera attached"));
    let mut cam = open_camera(1);
    assert!(matches!(
        cam.controls_plan(),
        Err((503, text)) if text == "camera has no VideoControl interface"
    ));
    cam.descriptor_read(Some(vec![9, 4, 2, 0, 0, 14, 1, 0, 0]));
    let (vc, plan) = cam.controls_plan().unwrap();
    assert_eq!((vc.interface, plan.len()), (2, 0));
    assert!(matches!(
        cam.apply_settings(&pairs(&[("zoom", "5")])),
        Apply::Failed((400, text)) if text == "zoom is not supported by this camera"
    ));
}
