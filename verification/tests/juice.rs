use hpsdr::juice::{
    beside, console_line, graceful_stop, is_elevated, is_running, log_path_for, props_path_for,
    read_fpga, relaunch_elevated, relaunch_script, reset_usb_device, set_fpga, shutdown_packet,
    stop_lines, AdminError, ChildStatus, Console, Fpga, HelperOutcome, MAX_CONSOLE_LINES,
};

#[test]
fn variants_have_exact_names() {
    assert_eq!(Fpga::Cl016.as_str(), "CL016");
    assert_eq!(Fpga::Cl025.as_str(), "CL025");
    assert_eq!(Fpga::from_str(" CL025 "), Some(Fpga::Cl025));
    assert_eq!(Fpga::from_str("cl025"), None);
    for f in Fpga::ALL {
        assert_eq!(Fpga::from_str(f.as_str()), Some(f));
    }
}

#[test]
fn the_first_known_value_counts() {
    assert_eq!(read_fpga(""), None);
    assert_eq!(read_fpga("gateware=x\r\n  fpga= CL016\r\nfpga=CL025\n"), Some(Fpga::Cl016));
    assert_eq!(read_fpga("fpga=CL040\nfpga=CL025"), Some(Fpga::Cl025));
    assert_eq!(read_fpga("fpga=CL040"), None);
    assert_eq!(read_fpga("#fpga=CL016"), None);
}

#[test]
fn setting_replaces_the_first_line_or_adds_one() {
    assert_eq!(set_fpga("", Fpga::Cl016), "fpga=CL016\n");
    assert_eq!(set_fpga("a=1", Fpga::Cl025), "a=1\nfpga=CL025\n");
    assert_eq!(
        set_fpga("a=1\r\n fpga=CL040 \nb=2\nfpga=CL025\n", Fpga::Cl016),
        "a=1\nfpga=CL016\nb=2\nfpga=CL025\n"
    );
}

#[test]
fn what_was_set_is_read_back() {
    for before in ["", "x\n", "fpga=CL025", "\r\r\nfpga=?\n fpga=CL025", "fpga=CL040\nq\r"] {
        for f in Fpga::ALL {
            let after = set_fpga(before, f);
            assert_eq!(read_fpga(&after), Some(f));
            assert_eq!(set_fpga(&after, f), after.replace("\r\n", "\n"));
        }
    }
}

#[test]
fn files_stand_beside_the_program() {
    let sep = std::path::MAIN_SEPARATOR;
    let join = |dir: &str, name: &str| format!("{dir}{sep}{name}");
    assert_eq!(props_path_for("/opt/juice/radioberry-juice"), join("/opt/juice", "radioberry.props"));
    assert_eq!(log_path_for("dist/juice"), join("dist", "radioberry-juice.log"));
    assert_eq!(props_path_for("radioberry-juice"), "radioberry.props");
    assert_eq!(log_path_for(""), "radioberry-juice.log");
    assert_eq!(props_path_for("/juice"), "/radioberry.props");
    assert_eq!(log_path_for("/"), "radioberry-juice.log");
    assert_eq!(
        log_path_for("/home/op/.local/My Radio/j\u{fc}ice 2"),
        join("/home/op/.local/My Radio", "radioberry-juice.log")
    );
    assert_eq!(props_path_for("../x/juice"), join("../x", "radioberry.props"));
    assert_eq!(beside(Some("/"), "x"), "/x");
    assert_eq!(beside(None, "x"), "x");
    assert_eq!(beside(Some(""), "x"), "x");
    assert_eq!(beside(Some("d"), "x"), join("d", "x"));
}

#[test]
fn other_paths_keep_their_meaning() {
    for exe in ["/juice", "a//b/juice", "./juice", "../x/juice", "a/./juice", "/", "d/"] {
        let path = std::path::Path::new(exe);
        let want = path
            .parent()
            .map(|dir| dir.join("radioberry.props"))
            .unwrap_or_else(|| std::path::PathBuf::from("radioberry.props"));
        assert_eq!(std::path::PathBuf::from(props_path_for(exe)), want);
    }
}

#[test]
fn the_console_keeps_the_newest_lines() {
    let mut c = Console::new();
    for i in 0..MAX_CONSOLE_LINES + 5 {
        c.push_line(i.to_string());
    }
    let lines = c.snapshot();
    assert_eq!(lines.len(), MAX_CONSOLE_LINES);
    assert_eq!((lines[0].as_str(), lines[1999].as_str()), ("5", "2004"));
}

#[test]
fn line_ends_are_not_shown() {
    assert_eq!(console_line("hello \r\n"), "hello ");
    assert_eq!(console_line("\n\r\n"), "");
    assert_eq!(console_line("a\rb"), "a\rb");
}

#[test]
fn the_shutdown_packet_has_a_fixed_form() {
    let p = shutdown_packet();
    assert_eq!(&p[..4], &[0xEF, 0xFE, 0x05, 0]);
    assert!(p[3..].iter().all(|&b| b == 0));
}

#[test]
fn a_process_counts_as_running_until_it_is_known_to_have_ended() {
    assert!(!is_running(None));
    assert!(!is_running(Some(ChildStatus::Exited)));
    assert!(is_running(Some(ChildStatus::Running)));
    assert!(is_running(Some(ChildStatus::Unknown)));
    assert_eq!(graceful_stop(false, ChildStatus::Running), None);
    assert_eq!(graceful_stop(false, ChildStatus::Exited), Some(true));
    assert_eq!(graceful_stop(false, ChildStatus::Unknown), Some(false));
    assert_eq!(graceful_stop(true, ChildStatus::Exited), Some(false));
}

#[test]
fn the_console_tells_how_a_stop_went() {
    assert!(stop_lines(None, false, false).is_empty());
    assert_eq!(
        stop_lines(Some(true), true, true),
        vec!["--- stopped (graceful shutdown, USB released cleanly) ---"]
    );
    let forced = stop_lines(Some(false), true, false);
    assert_eq!(forced[0], "--- forced kill sent (juice didn't exit on its own in time) ---");
    assert!(forced[1].starts_with("--- warning: hpsdr-rs is NOT running as Administrator -- the kill"));
    assert!(forced[1].ends_with("and try Stop again. ---"));
    assert_eq!(forced.len(), 2);
}

#[test]
fn rights_are_only_a_question_where_there_are_any() {
    assert!(is_elevated(None));
    assert!(is_elevated(Some(true)));
    assert!(!is_elevated(Some(false)));
}

fn outcome(success: bool, stderr: &str) -> Option<HelperOutcome> {
    Some(HelperOutcome { success, stderr: stderr.to_string() })
}

#[test]
fn administrative_actions_report_their_failure() {
    assert!(relaunch_elevated(outcome(true, "ignored")).is_ok());
    match relaunch_elevated(outcome(false, " denied \n")) {
        Err(AdminError::Failed(m)) => assert_eq!(m, "denied"),
        other => panic!("{other:?}"),
    }
    match relaunch_elevated(None) {
        Err(AdminError::Unsupported(m)) => assert_eq!(m, "Elevation is only meaningful on Windows"),
        other => panic!("{other:?}"),
    }
    assert!(reset_usb_device(outcome(true, "")).is_ok());
    match reset_usb_device(outcome(false, "no\n")) {
        Err(AdminError::Failed(m)) => {
            assert_eq!(m, "USB device reset failed (are you running hpsdr-rs as Administrator?): no")
        }
        other => panic!("{other:?}"),
    }
    match reset_usb_device(None) {
        Err(AdminError::Unsupported(m)) => {
            assert_eq!(m, "USB device reset is only implemented on Windows")
        }
        other => panic!("{other:?}"),
    }
}

#[test]
fn quotes_in_a_path_are_doubled() {
    assert_eq!(
        relaunch_script("C:\\it's\\x.exe"),
        "Start-Process -FilePath 'C:\\it''s\\x.exe' -Verb runas"
    );
}
