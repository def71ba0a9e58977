use adapter_core::uvc::{
    auto_ae_mode, decode, display_value, encode, find, parse_setting, parse_vc, Entity, Setting,
    Unit,
};

/// Configuration descriptor with a VideoControl interface holding a
/// camera terminal (ID 1) and a processing unit (ID 2).
fn descriptor() -> Vec<u8> {
    let mut d = vec![
        // configuration
        9, 0x02, 0, 0, 2, 1, 0, 0x80, 250, // interface association
        8, 0x0b, 0, 2, 0x0e, 0x03, 0, 0, // VC interface 0
        9, 0x04, 0, 0, 1, 0x0e, 0x01, 0, 0, // VC header
        13, 0x24, 0x01, 0x10, 0x01, 0, 0, 0, 0, 0, 0, 1, 1,
        // camera terminal: ID 1, ITT_CAMERA, controls 3 bytes: 0x2a 0x02 0x02
        // (AE mode, exposure abs, focus abs, zoom abs, focus auto)
        18, 0x24, 0x02, 1, 0x01, 0x02, 0, 0, 0, 0, 0, 0, 0, 0, 3, 0x2a, 0x02, 0x02,
        // processing unit: ID 2, source 1, controls 2 bytes 0x5f 0x10
        // (brightness, contrast, hue, saturation, sharpness, wb temp, wb temp auto)
        11, 0x24, 0x05, 2, 1, 0, 0, 2, 0x5f, 0x10, 0, // output terminal
        9, 0x24, 0x03, 3, 0x01, 0x01, 0, 2, 0, // VS interface 1
        9, 0x04, 1, 0, 0, 0x0e, 0x02, 0, 0,
    ];
    let len = d.len() as u16;
    d[2..4].copy_from_slice(&len.to_le_bytes());
    d
}

#[test]
fn finds_units() {
    let vc = parse_vc(&descriptor()).unwrap();
    assert_eq!(vc.interface, 0);
    assert_eq!(
        vc.camera_terminal,
        Some(Entity {
            id: 1,
            controls: 0x0002_022a
        })
    );
    assert_eq!(
        vc.processing_unit,
        Some(Entity {
            id: 2,
            controls: 0x105f
        })
    );
    assert_eq!(parse_vc(&[9, 0x02, 9, 0, 0, 1, 0, 0x80, 250]), None);
    // Truncated descriptors do not panic.
    assert!(parse_vc(&descriptor()[..40]).is_some());
}

#[test]
fn settings() {
    let (d, s) = parse_setting("wb", "auto").unwrap();
    assert_eq!(d.name, "wb");
    assert_eq!(s, Setting::Auto);
    let (d, s) = parse_setting("brightness", "-10").unwrap();
    assert_eq!(d.unit, Unit::ProcessingUnit);
    assert_eq!(s, Setting::Value(-10));
    assert_eq!(
        parse_setting("powerline", "60").unwrap().1,
        Setting::Value(2)
    );
    assert!(parse_setting("zoom", "auto").is_err());
    assert!(parse_setting("zoom", "70000").is_err());
    assert!(parse_setting("contrast", "-1").is_err());
    assert!(parse_setting("bogus", "1").is_err());
    assert!(parse_setting("focus", "abc").is_err());
}

#[test]
fn codec() {
    let b = find("brightness").unwrap();
    let mut data = [0u8; 2];
    encode(b, -5, &mut data);
    assert_eq!(data, [0xfb, 0xff]);
    assert_eq!(decode(b, &data), Some(-5));
    let z = find("zoom").unwrap();
    encode(z, 300, &mut data);
    assert_eq!(decode(z, &data), Some(300));
    let mut pt = [0u8; 8];
    encode(find("pan").unwrap(), -36000, &mut pt);
    encode(find("tilt").unwrap(), 1800, &mut pt);
    assert_eq!(decode(find("pan").unwrap(), &pt), Some(-36000));
    assert_eq!(decode(find("tilt").unwrap(), &pt), Some(1800));
    assert_eq!(decode(z, &[1]), None);
    assert_eq!(display_value(find("powerline").unwrap(), 2), 60);
    assert_eq!(auto_ae_mode(0x0a), Some(8));
    assert_eq!(auto_ae_mode(0x03), Some(2));
    assert_eq!(auto_ae_mode(0x01), None);
}
