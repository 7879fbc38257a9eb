use hpsdr::recorder::{ReportRecorder, MAX_NS, MAX_SAMPLES, MAX_SECONDS, SAMPLE_RATE_HZ};

#[test]
fn a_recording_plays_back_in_order_and_ends() {
    let mut r = ReportRecorder::new();
    assert!(!r.has_recording());
    r.toggle_record(100);
    assert!(r.is_recording());
    for s in [5u32, 6, 7] {
        r.write_frame(s);
    }
    r.toggle_record(200);
    assert!(!r.is_recording() && r.has_recording());
    r.write_frame(8);
    r.toggle_play();
    assert!(r.is_playing());
    assert_eq!(r.play_progress(), Some((0, 3)));
    assert_eq!(r.next_sample(), Some(5));
    assert_eq!(r.next_sample(), Some(6));
    assert_eq!(r.next_sample(), Some(7));
    assert_eq!(r.play_progress(), Some((3, 3)));
    assert_eq!(r.next_sample(), None);
    assert!(!r.is_playing() && r.has_recording());
    assert_eq!(r.play_progress(), None);
}

#[test]
fn a_full_recording_ends_by_itself() {
    assert_eq!(MAX_SAMPLES, SAMPLE_RATE_HZ * MAX_SECONDS);
    let mut r = ReportRecorder::default();
    r.toggle_record(0);
    for s in 0..MAX_SAMPLES + 10 {
        r.write_frame(s as u32);
    }
    assert!(!r.is_recording());
    assert_eq!(r.buffer.len(), 2_880_000);
    assert!(r.buffer.iter().enumerate().all(|(k, s)| *s == k as u32));
    let fresh = ReportRecorder::default();
    assert_eq!((fresh.play_pos, fresh.started_at), (0, 0));
}

#[test]
fn recording_again_drops_the_old_one_and_ends_playback() {
    let mut r = ReportRecorder::new();
    r.toggle_record(0);
    r.write_frame(1);
    r.toggle_record(0);
    r.toggle_play();
    r.toggle_record(9);
    assert!(!r.is_playing() && r.is_recording() && !r.has_recording());
    assert_eq!(r.next_sample(), None);
}

#[test]
fn nothing_recorded_means_nothing_to_play() {
    let mut r = ReportRecorder::new();
    r.toggle_play();
    assert!(!r.is_playing());
    r.toggle_record(0);
    r.write_frame(1);
    r.toggle_record(0);
    r.toggle_play();
    r.toggle_play();
    assert!(!r.is_playing());
}

#[test]
fn progress_runs_up_to_a_full_recording() {
    let mut r = ReportRecorder::new();
    assert_eq!(r.record_progress(5), None);
    r.toggle_record(1_000);
    assert_eq!(r.record_progress(4_000), Some(3_000));
    assert_eq!(r.record_progress(500), Some(0));
    assert_eq!(r.record_progress(MAX_NS + 5_000), Some(MAX_NS));
}
