use hpsdr::rx200::{is_fresh, parse_packet, pick_fields, JsonField};

fn texts(packet: &[u8]) -> Option<(String, String, String)> {
    parse_packet(packet).map(|f| (f.fwd_watts, f.ref_watts, f.device_time))
}

fn own(a: &str, b: &str, c: &str) -> Option<(String, String, String)> {
    Some((a.to_string(), b.to_string(), c.to_string()))
}

#[test]
fn powers_come_as_text_or_as_numbers() {
    assert_eq!(
        texts(br#"{"pwrfwd": "12.3", "pwrref": "0.4", "time": "10:00"}"#),
        own("12.3", "0.4", "10:00")
    );
    assert_eq!(texts(br#"{"pwrfwd": 12.5, "pwrref": 3, "time": 77}"#), own("12.5", "3", "77"));
    assert_eq!(texts(br#"{"pwrfwd": " 1.0 ", "pwrref": -2}"#), own("1.0", "-2", ""));
    assert_eq!(texts(br#"{"pwrfwd": 1, "pwrref": 2, "time": null}"#), own("1", "2", ""));
}

#[test]
fn numbers_keep_their_value() {
    for n in [0.1f64, 1e30, 123456.789, 5e-324, 18446744073709551615.0] {
        let packet = format!("{{\"pwrfwd\": {n:?}, \"pwrref\": 0}}");
        let value: serde_json::Value = serde_json::from_str(&packet).unwrap();
        let got = parse_packet(packet.as_bytes()).unwrap().fwd_watts;
        assert_eq!(got.parse::<f64>().ok(), value["pwrfwd"].as_f64());
    }
}

#[test]
fn packets_without_both_powers_are_dropped() {
    assert!(texts(b"{}").is_none());
    assert!(texts(b"not json").is_none());
    assert!(texts(b"[1, 2]").is_none());
    assert!(texts(br#"{"pwrfwd": 1}"#).is_none());
    assert!(texts(br#"{"pwrref": 1}"#).is_none());
    assert!(texts(br#"{"pwrfwd": true, "pwrref": 1}"#).is_none());
    assert!(texts(br#"{"pwrfwd": 1, "pwrref": 2} x"#).is_none());
}

#[test]
fn fields_are_picked_by_their_kind() {
    let text = |s: &str| Some(JsonField::Text(s.to_string()));
    let number = |s: &str| Some(JsonField::Number(s.to_string()));
    let f = pick_fields(text("\t7 "), number("8"), text(" noon ")).unwrap();
    assert_eq!((f.fwd_watts, f.ref_watts, f.device_time), ("7".into(), "8".into(), " noon ".into()));
    assert!(pick_fields(None, number("8"), None).is_none());
    assert!(pick_fields(number("8"), Some(JsonField::Missing), None).is_none());
    assert!(pick_fields(number("8"), Some(JsonField::Other), None).is_none());
    assert_eq!(pick_fields(number("1"), number("2"), Some(JsonField::Other)).unwrap().device_time, "");
}

#[test]
fn readings_go_stale() {
    assert!(is_fresh(0));
    assert!(is_fresh(14_999_999_999));
    assert!(!is_fresh(15_000_000_000));
}
