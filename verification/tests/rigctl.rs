use hpsdr::rigctl::{
    argument, client_line, dump_state, hamlib_to_mode, handle_command, mode_named, mode_to_hamlib,
    parse_command, LineStep, Mode, Passband, RigCommand, RigNumbers, RigSettings, RigState,
};
use hpsdr::text::{
    after_bytes, chars_of, is_space, join_lines, parse_i32, push_decimal, push_signed,
    split_lines, split_words, string_of, trimmed,
};
use std::collections::VecDeque;

fn rig() -> RigState {
    RigState {
        settings: RigSettings {
            requested_frequency_hz: 7_100_000,
            rx_frequency_hz: 7_074_000,
            mode: Mode::Usb,
            passband: Passband { hz_bits: 2700.0f64.to_bits(), rounded_hz: 2700 },
            mox: false,
            rit_enabled: true,
            rit_offset_hz: -20,
            xit_enabled: false,
            xit_offset_hz: 30,
            cw_stop: false,
        },
        cw_pending: VecDeque::new(),
    }
}

fn numbers() -> RigNumbers {
    RigNumbers { frequency_hz: None, passband: None, strength_db: -7 }
}

fn ask(rig: &mut RigState, line: &str) -> String {
    handle_command(line, &numbers(), true, rig).unwrap()
}

#[test]
fn settings_can_be_read() {
    let mut r = rig();
    assert_eq!(ask(&mut r, "f"), "7074000\n");
    assert_eq!(ask(&mut r, "\\get_freq"), "7074000\n");
    assert_eq!(ask(&mut r, "j"), "-20\n");
    assert_eq!(ask(&mut r, "z"), "30\n");
    assert_eq!(ask(&mut r, "u RIT"), "1\n");
    assert_eq!(ask(&mut r, "u XIT"), "0\n");
    assert_eq!(ask(&mut r, "u NB"), "RPRT -1\n");
    assert_eq!(ask(&mut r, "m"), "USB\n2700\n");
    assert_eq!(ask(&mut r, "v"), "VFOA\n");
    assert_eq!(ask(&mut r, "t"), "0\n");
    assert_eq!(ask(&mut r, "l STRENGTH"), "-7\n");
    assert_eq!(ask(&mut r, "l SWR"), "RPRT -1\n");
    assert_eq!(ask(&mut r, "\\chk_vfo"), "CHKVFO 0\n");
    assert_eq!(ask(&mut r, "\\dump_state"), dump_state());
    assert_eq!(ask(&mut r, "V VFOA"), "RPRT 0\n");
    assert_eq!(ask(&mut r, "\\get_lock_mode"), "RPRT 0\n");
}

#[test]
fn settings_can_be_changed() {
    let mut r = rig();
    assert_eq!(ask(&mut r, "J 150"), "RPRT 0\n");
    assert_eq!(ask(&mut r, "J 99999"), "RPRT 0\n");
    assert_eq!(r.settings.rit_offset_hz, 9_999);
    assert_eq!(ask(&mut r, "Z -99999"), "RPRT 0\n");
    assert_eq!(r.settings.xit_offset_hz, -9_999);
    assert_eq!(ask(&mut r, "J abc"), "RPRT -1\n");
    assert_eq!(ask(&mut r, "U XIT 1"), "RPRT 0\n");
    assert!(r.settings.xit_enabled);
    assert_eq!(ask(&mut r, "U RIT 0"), "RPRT 0\n");
    assert!(!r.settings.rit_enabled);
    assert_eq!(ask(&mut r, "U RIT x"), "RPRT -1\n");
    assert_eq!(ask(&mut r, "\\stop_morse"), "RPRT 0\n");
    assert!(r.settings.cw_stop);
}

#[test]
fn frequency_and_mode_take_fractional_numbers_from_the_caller() {
    let mut r = rig();
    let n = RigNumbers { frequency_hz: Some(14_074_000), ..numbers() };
    assert_eq!(handle_command("F 14074000.4", &n, true, &mut r).unwrap(), "RPRT 0\n");
    assert_eq!(r.settings.requested_frequency_hz, 14_074_000);
    assert_eq!(ask(&mut r, "F nonsense"), "RPRT -1\n");
    assert_eq!(r.settings.requested_frequency_hz, 14_074_000);
    let p = Passband { hz_bits: 500.0f64.to_bits(), rounded_hz: 500 };
    let n = RigNumbers { passband: Some(p), ..numbers() };
    assert_eq!(handle_command("M cw 500", &n, true, &mut r).unwrap(), "RPRT 0\n");
    assert_eq!((r.settings.mode, r.settings.passband), (Mode::Cwu, p));
    assert_eq!(ask(&mut r, "M PKTUSB 0"), "RPRT 0\n");
    assert_eq!((r.settings.mode, r.settings.passband), (Mode::Digu, p));
    assert_eq!(ask(&mut r, "M XYZ 0"), "RPRT -1\n");
    assert_eq!(ask(&mut r, "M"), "RPRT -1\n");
    assert_eq!(r.settings.mode, Mode::Digu);
    for (line, mode) in [("M USB", Mode::Usb), ("\\set_mode lsb", Mode::Lsb), ("M Cwr 0", Mode::Cwl)] {
        assert_eq!(ask(&mut r, line), "RPRT 0\n");
        assert_eq!(r.settings.mode, mode);
    }
    assert_eq!(argument("F 14074000.4 x", 1).as_deref(), Some("14074000.4"));
    assert_eq!(argument("F", 1), None);
}

#[test]
fn keying_needs_permission_and_unkeying_does_not() {
    let mut r = rig();
    assert_eq!(handle_command("T 1", &numbers(), false, &mut r).unwrap(), "RPRT 0\n");
    assert!(!r.settings.mox);
    assert_eq!(ask(&mut r, "T 1"), "RPRT 0\n");
    assert!(r.settings.mox);
    assert_eq!(ask(&mut r, "t"), "1\n");
    assert_eq!(handle_command("T 0", &numbers(), false, &mut r).unwrap(), "RPRT 0\n");
    assert!(!r.settings.mox);
    assert_eq!(ask(&mut r, "T"), "RPRT -1\n");
}

#[test]
fn text_is_queued_for_keying() {
    let mut r = rig();
    assert_eq!(ask(&mut r, "b CQ  DE K1ABC "), "RPRT 0\n");
    assert_eq!(ask(&mut r, "\\send_morse 73"), "RPRT 0\n");
    assert_eq!(ask(&mut r, "b"), "RPRT 0\n");
    assert_eq!(r.cw_pending, VecDeque::from(vec!["CQ  DE K1ABC".to_string(), "73".to_string()]));
}

#[test]
fn only_quitting_ends_a_connection() {
    let mut r = rig();
    for q in ["q", "Q", "\\quit"] {
        assert!(handle_command(q, &numbers(), true, &mut r).is_none());
    }
    assert_eq!(ask(&mut r, "_"), "RPRT -1\n");
    assert_eq!(parse_command("q x"), RigCommand::Quit);
    assert_eq!(parse_command(""), RigCommand::Unsupported);
}

#[test]
fn modes_have_names() {
    assert_eq!(mode_to_hamlib(Mode::Cwl), "CWR");
    assert_eq!(mode_to_hamlib(Mode::Drm), "AM");
    assert_eq!(hamlib_to_mode("pktlsb"), Some(Mode::Digl));
    assert_eq!(hamlib_to_mode("RttyR"), Some(Mode::Digl));
    assert_eq!(hamlib_to_mode("wfm"), Some(Mode::Fmn));
    assert_eq!(hamlib_to_mode("ſam"), Some(Mode::Sam));
    assert_eq!(hamlib_to_mode("ſAm"), Some(Mode::Sam));
    assert_eq!(hamlib_to_mode("PkTuSb"), hamlib_to_mode("pKtUsB"));
    assert_eq!(hamlib_to_mode("x"), None);
    assert_eq!(hamlib_to_mode(""), None);
    for m in [Mode::Lsb, Mode::Usb, Mode::Dsb, Mode::Cwl, Mode::Cwu, Mode::Fmn, Mode::Am] {
        assert_eq!(hamlib_to_mode(mode_to_hamlib(m)), Some(m));
    }
    assert_eq!(mode_named(&['S', 'A', 'M']), Some(Mode::Sam));
    assert_eq!(mode_named(&['s', 'a', 'm']), None);
}

#[test]
fn lines_are_trimmed_before_they_are_run() {
    assert!(matches!(client_line(" \r\n"), LineStep::Skip));
    match client_line("  f \r\n") {
        LineStep::Run(c) => assert_eq!(c, "f"),
        LineStep::Skip => panic!("skipped"),
    }
}

#[test]
fn capabilities_end_with_done() {
    let s = dump_state();
    assert!(s.starts_with("0\n2\n2\n0 4000000000 "));
    assert!(s.ends_with("\ndone\n"));
}

fn words(s: &str) -> Vec<String> {
    split_words(&chars_of(s)).iter().map(|w| string_of(w)).collect()
}

fn lines(s: &str) -> Vec<String> {
    split_lines(&chars_of(s)).iter().map(|w| string_of(w)).collect()
}

#[test]
fn texts_are_taken_apart_like_the_standard_library_does() {
    for s in ["", " ", "a b", "  a\t\tb \u{3000}c\n", "\u{85}x\u{2028}y", "é ü"] {
        let want: Vec<String> = s.split_whitespace().map(|w| w.to_string()).collect();
        assert_eq!(words(s), want);
        assert_eq!(string_of(&trimmed(&chars_of(s))), s.trim());
    }
    for s in ["", "\n", "a", "a\n", "a\r\nb", "a\n\nb\r", "\r\n\r\n", "a\r\r\nb"] {
        let want: Vec<String> = s.lines().map(|w| w.to_string()).collect();
        assert_eq!(lines(s), want);
    }
    for u in 0..0x3100u32 {
        if let Some(c) = char::from_u32(u) {
            assert_eq!(is_space(c), c.is_whitespace(), "{u:x}");
        }
    }
}

#[test]
fn integers_are_read_like_the_standard_library_does() {
    let texts = [
        "0", "-0", "+7", "-2147483648", "2147483647", "2147483648", "-2147483649", "", "-", "+",
        "1a", " 1", "00012", "99999999999999999999",
    ];
    for s in texts {
        assert_eq!(parse_i32(&chars_of(s)), s.parse::<i32>().ok(), "{s}");
    }
}

#[test]
fn integers_are_written_in_decimal() {
    for n in [0i64, 7, -7, 10, 1_000_000, i64::MAX, i64::MIN + 1] {
        let mut v = Vec::new();
        push_signed(&mut v, n);
        assert_eq!(string_of(&v), n.to_string());
    }
    let mut v = vec!['x'];
    push_decimal(&mut v, u64::MAX);
    assert_eq!(string_of(&v), format!("x{}", u64::MAX));
}

#[test]
fn lines_put_together_split_again() {
    let ls = vec![chars_of("a"), chars_of(""), chars_of("b c")];
    let joined = string_of(&join_lines(&ls));
    assert_eq!(joined, "a\n\nb c\n");
    assert_eq!(lines(&joined), vec!["a", "", "b c"]);
}

#[test]
fn bytes_are_counted_in_utf8() {
    let v = chars_of("aé€𝄞z");
    assert_eq!(after_bytes(&v, 1), Some(1));
    assert_eq!(after_bytes(&v, 2), None);
    assert_eq!(after_bytes(&v, 3), Some(2));
    assert_eq!(after_bytes(&v, 6), Some(3));
    assert_eq!(after_bytes(&v, 10), Some(4));
    assert_eq!(after_bytes(&v, 12), None);
}
