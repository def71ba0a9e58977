use adapter_core::http::{
    head_len, parse_request, percent_decode, percent_decode_bytes, reason, response_head, route,
    text_response, Request, Route,
};
use adapter_core::search::{position, split_fields};
use adapter_core::text::{append_hex_byte, append_int, append_nat, parse_i64, same};
use adapter_core::uvc::{
    auto_ae_mode, controls, decode, display_value, encode, find, is_other_param, parse_setting,
    parse_vc, Setting, VcInfo,
};

#[test]
fn decimal_numbers() {
    for v in [0, 7, 10, 99, -1, 1234567890123, i64::MAX, i64::MIN] {
        let mut s = String::from("x");
        append_int(&mut s, v);
        assert_eq!(s, format!("x{v}"));
        assert_eq!(parse_i64(&s[1..]), Some(v));
    }
    let mut s = String::new();
    append_nat(&mut s, u64::MAX);
    assert_eq!(s, "18446744073709551615");
    let mut s = String::new();
    append_hex_byte(&mut s, 0x0a);
    append_hex_byte(&mut s, 0xf3);
    assert_eq!(s, "0x0a0xf3");
    assert_eq!(parse_i64("+5"), Some(5));
    for bad in ["", "-", "+", "1x", " 1", "\u{661}", "9223372036854775808", "-9223372036854775809"] {
        assert_eq!(parse_i64(bad), None);
    }
    assert!(same("grün", "grün") && !same("a", "b") && !same("a", "ab"));
}

#[test]
fn searching() {
    assert_eq!(position(b"a b c", b' ', 0), 1);
    assert_eq!(position(b"a b c", b' ', 2), 3);
    assert_eq!(position(b"abc", b' ', 0), 3);
    let none: Vec<&[u8]> = Vec::new();
    assert_eq!(split_fields(b"", b' '), none);
    assert_eq!(split_fields(b" a  bc ", b' '), vec![&b"a"[..], &b"bc"[..]]);
}

#[test]
fn head_variants() {
    assert_eq!(head_len(b""), None);
    assert_eq!(head_len(b"\n\n"), Some(2));
    assert_eq!(head_len(b"a\r\n\r\nb\r\n\r\n"), Some(5));
    assert_eq!(head_len(b"a\n\nb\r\n\r\n"), Some(8));
}

#[test]
fn request_line_variants() {
    let r = parse_request(b"GET  /a?b#c   HTTP/1.9\r\r\n\r\n").unwrap();
    assert_eq!((r.method.as_str(), r.target.as_str(), r.path()), ("GET", "/a?b#c", "/a"));
    assert!(parse_request(b"").is_none());
    assert!(parse_request(b"GET / HTTP/1.1 x\r\n\r\n").is_none());
    // Header fields are skipped, whatever they hold; the first line is not.
    let skipped = parse_request(b"GET / HTTP/1.1\r\nX: \xff\r\n\r\n").unwrap();
    assert_eq!((skipped.method.as_str(), skipped.target.as_str()), ("GET", "/"));
    assert_eq!(parse_request(b"GET / HTTP/1.1\r"), Some(skipped));
    assert!(parse_request(b"GET /\xff HTTP/1.1\r\nX: y\r\n\r\n").is_none());
    assert!(parse_request("GÉT / HTTP/1.1\r\n\r\n".as_bytes()).is_none());
    let umlaut = parse_request("GET /ü?x=ö HTTP/1.0\n\n".as_bytes()).unwrap();
    assert_eq!(umlaut.path(), "/ü");
    assert_eq!(umlaut.query(), vec![("x".to_string(), "ö".to_string())]);
}

#[test]
fn query_variants() {
    let query = |target: &str| {
        Request { method: "GET".to_string(), target: target.to_string() }.query()
    };
    let pair = |k: &str, v: &str| (k.to_string(), v.to_string());
    assert_eq!(query("/?&&a=1&&b=2#c=3&d"), vec![pair("a", "1"), pair("b", "2")]);
    assert_eq!(query("/?a=b=c&=x"), vec![pair("a", "b=c"), pair("", "x")]);
    assert_eq!(query("/?n%61me=%E3%81%82"), vec![pair("name", "あ")]);
    // Bytes that are no UTF-8 are stood in for.
    assert_eq!(query("/?a=%ff"), vec![pair("a", "\u{fffd}")]);
    assert_eq!(query("/?"), vec![]);
}

#[test]
fn percent_decoding() {
    assert_eq!(percent_decode("a%2Bb+c%3d"), "a+b c=");
    assert_eq!(percent_decode("%"), "%");
    assert_eq!(percent_decode("%4"), "%4");
    assert_eq!(percent_decode("%4g%41"), "%4gA");
    assert_eq!(percent_decode("%+5"), "% 5");
    assert_eq!(percent_decode("%5+%-1"), "%5 %-1");
    assert_eq!(percent_decode("a%2fB%2Fc+d=%e3%81%82"), "a/B/c d=あ");
    assert_eq!(percent_decode("%f0%9f%98%80"), "\u{1f600}");
    assert_eq!(percent_decode("x%80y"), "x\u{fffd}y");
    let all: Vec<u8> = (0..=255).collect();
    let escaped: String = all.iter().map(|b| format!("%{b:02x}")).collect();
    assert_eq!(percent_decode_bytes(escaped.as_bytes()), all);
    assert_eq!(percent_decode_bytes(b"plain"), b"plain".to_vec());
}

#[test]
fn routes() {
    let of = |method: &str, target: &str| {
        route(&Request { method: method.to_string(), target: target.to_string() })
    };
    assert_eq!(of("GET", "/snapshot.jpg#x"), Route::Snapshot { head_only: false });
    assert_eq!(of("HEAD", "/?a"), Route::Snapshot { head_only: true });
    assert_eq!(of("HEAD", "/controls"), Route::Controls);
    assert_eq!(of("PATCH", "/snapshot.jpg"), Route::MethodNotAllowed);
    assert_eq!(of("PATCH", "/snapshot"), Route::NotFound);
    assert_eq!(of("GET", "/controls/"), Route::NotFound);
    assert_eq!(of("GET", "/index.html"), Route::NotFound);
}

#[test]
fn reasons() {
    let table = [
        (200, "OK"),
        (400, "Bad Request"),
        (404, "Not Found"),
        (405, "Method Not Allowed"),
        (408, "Request Timeout"),
        (431, "Request Header Fields Too Large"),
        (503, "Service Unavailable"),
        (504, "Gateway Timeout"),
        (418, "Unknown"),
    ];
    for (status, text) in table {
        assert_eq!(reason(status), text);
    }
    assert_eq!(
        String::from_utf8(response_head(405, "text/plain", 7)).unwrap(),
        "HTTP/1.1 405 Method Not Allowed\r\nContent-Type: text/plain\r\nContent-Length: 7\r\nCache-Control: no-store\r\nConnection: close\r\nAllow: GET, HEAD\r\n\r\n"
    );
    let r = text_response(503, "café");
    assert_eq!(head_len(&r), Some(r.len() - 6));
    assert_eq!(r[r.len() - 6..].to_vec(), "café\n".as_bytes().to_vec());
}

#[test]
fn control_table_entries() {
    assert_eq!(controls().len(), 17);
    for def in controls() {
        assert_eq!(find(def.name), Some(def));
        assert!(def.offset + def.len <= def.total);
    }
    assert_eq!(find("Zoom"), None);
    assert!(is_other_param("t") && is_other_param("_") && !is_other_param("zoom"));
}

#[test]
fn setting_messages() {
    let refused = |name: &str, value: &str| parse_setting(name, value).unwrap_err();
    assert_eq!(
        refused("bogus", "1"),
        "unknown parameter 'bogus'; known: exposure, focus, iris, zoom, pan, tilt, roll, brightness, contrast, hue, saturation, sharpness, gamma, wb, backlight, gain, powerline"
    );
    assert_eq!(refused("zoom", "auto"), "zoom has no automatic mode");
    assert_eq!(refused("zoom", "x"), "zoom must be a number or 'auto'");
    assert_eq!(refused("zoom", "65536"), "zoom must be between 0 and 65535");
    assert_eq!(refused("pan", "-2147483649"), "pan must be between -2147483648 and 2147483647");
    assert_eq!(refused("brightness", "32768"), "brightness must be between -32768 and 32767");
    assert_eq!(refused("powerline", "70"), "powerline must be 0, 50 or 60");
    assert_eq!(parse_setting("powerline", "off").map(|s| s.1), Ok(Setting::Value(0)));
    assert_eq!(parse_setting("exposure", "4294967295").map(|s| s.1), Ok(Setting::Value(4294967295)));
}

#[test]
fn shown_values_are_accepted() {
    for def in controls() {
        for raw in 0..3 {
            let shown = display_value(def, raw).to_string();
            let (found, setting) = parse_setting(def.name, &shown).unwrap();
            assert_eq!((found.name, setting), (def.name, Setting::Value(raw)));
        }
    }
}

#[test]
fn values_round_trip() {
    for def in controls() {
        let values: &[i64] = if def.signed { &[-2, -1, 0, 1, 100] } else { &[0, 1, 100] };
        for &v in values {
            let mut data: Vec<u8> = (1..=def.total).collect();
            let before = data.clone();
            encode(def, v, &mut data);
            assert_eq!(decode(def, &data), Some(v));
            for i in 0..data.len() {
                if i < def.offset as usize || i >= (def.offset + def.len) as usize {
                    assert_eq!(data[i], before[i]);
                }
            }
            let again = data.clone();
            encode(def, v, &mut data);
            assert_eq!(data, again);
        }
        assert_eq!(decode(def, &[]), None);
    }
}

#[test]
fn exposure_modes() {
    assert_eq!(auto_ae_mode(15), Some(8));
    assert_eq!(auto_ae_mode(7), Some(2));
    assert_eq!(auto_ae_mode(5), Some(4));
    assert_eq!(auto_ae_mode(1), None);
    assert_eq!(auto_ae_mode(0xf1), None);
}

#[test]
fn descriptor_variants() {
    assert_eq!(parse_vc(&[]), None);
    assert_eq!(parse_vc(&[0, 4]), None);
    let vc = [9, 4, 5, 0, 0, 14, 1, 0, 0];
    let other = [9, 4, 6, 0, 0, 3, 0, 0, 0];
    let unit = [10, 0x24, 5, 7, 0, 0, 0, 2, 0x34, 0x12];
    let bare = VcInfo { interface: 5, ..VcInfo::default() };
    assert_eq!(parse_vc(&vc), Some(bare));
    // A unit counts only inside the VideoControl interface.
    let outside = [&other[..], &unit[..]].concat();
    assert_eq!(parse_vc(&outside), None);
    let inside = [&vc[..], &unit[..]].concat();
    let found = parse_vc(&inside).unwrap();
    assert_eq!(found.processing_unit.map(|e| (e.id, e.controls)), Some((7, 0x1234)));
    let after = [&vc[..], &other[..], &unit[..]].concat();
    assert_eq!(parse_vc(&after), Some(bare));
    // What follows a descriptor of impossible length is not read.
    let broken = [&vc[..], &[1, 4][..], &unit[..]].concat();
    assert_eq!(parse_vc(&broken), Some(bare));
    // A descriptor that is cut off is taken in once the rest is there.
    assert_eq!(parse_vc(&inside[..inside.len() - 1]), Some(bare));
    let more = [&inside[..], &other[..], &[8, 0x24, 5, 9, 0, 0, 0, 0][..]].concat();
    assert_eq!(parse_vc(&more), Some(found));
}

#[test]
fn sent_requests_are_read_back() {
    let params = vec![
        ("wb".to_string(), "auto".to_string()),
        ("näme &=#?+%".to_string(), "välue\n \u{1f600}".to_string()),
        (String::new(), String::new()),
    ];
    let encode = |s: &str| s.bytes().map(|b| format!("%{b:02x}")).collect::<String>();
    let query: Vec<String> =
        params.iter().map(|(k, v)| format!("{}={}", encode(k), encode(v))).collect();
    let target = format!("/?{}", query.join("&"));
    let head = format!("GET {target} HTTP/1.1\r\nHost: camera\r\n\r\n");
    let request = parse_request(head.as_bytes()).unwrap();
    assert_eq!((request.method.as_str(), request.target.as_str()), ("GET", target.as_str()));
    assert_eq!(request.path(), "/");
    assert_eq!(request.query(), params);
}
