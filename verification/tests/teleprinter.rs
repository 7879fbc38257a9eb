use hpsdr::baudot::{
    encode, figure_char, figure_code, letter_char, letter_code, to_upper, BaudotRx, FIGS, LTRS,
};
use hpsdr::rtty_link::{set_settings, RxText, SettingsChange, TxChange};
use hpsdr::rtty_rx::{ClockAction, RttyFramer, LOCK_MAX};
use hpsdr::rtty_tx::RttyTx;

#[test]
fn baudot_roundtrip() {
    for c in 'A'..='Z' {
        let v = letter_code(c).unwrap();
        assert_eq!(letter_char(v), Some(c));
    }
    for (v, _) in (0u8..32).filter_map(|v| figure_char(v).map(|c| (v, c))) {
        let c = figure_char(v).unwrap();
        assert_eq!(figure_code(c), Some(v));
    }
}

#[test]
fn shift_codes_select_letters_and_figures() {
    let mut rx = BaudotRx::new();
    assert_eq!(rx.decode(letter_code('E').unwrap()), Some('E'));
    assert_eq!(rx.decode(FIGS), None);
    assert_eq!(rx.decode(1), Some('3'));
    assert_eq!(rx.decode(4), Some(' '));
    assert_eq!(rx.decode(LTRS), None);
    assert_eq!(rx.decode(1), Some('E'));
    assert_eq!(rx.decode(8), Some('\n'));
    assert_eq!(rx.decode(2), None);
    assert_eq!(rx.decode(0), None);
}

#[test]
fn characters_know_the_shift_they_need() {
    assert_eq!(encode('A').unwrap().needs_figs, Some(false));
    assert_eq!(encode('7').unwrap().needs_figs, Some(true));
    assert_eq!(encode(' ').unwrap().needs_figs, None);
    assert!(encode('%').is_none());
    assert_eq!(to_upper('q'), 'Q');
    assert_eq!(to_upper('7'), '7');
}

/// Sends a text bit by bit and frames the bits again.
fn over_the_line(msg: &str) -> (String, RttyTx) {
    const SPB: usize = 4;
    let mut tx = RttyTx::new(SPB);
    let mut rx = RttyFramer::new();
    let mut out = String::new();
    let mut phase = 0;
    tx.push_text(msg);
    let mut bits = vec![true; 3 * SPB];
    while tx.sent_chars() < tx.total_chars() {
        bits.extend(tx.next_block(SPB));
    }
    for b in bits {
        match rx.sample(b) {
            ClockAction::Acquire => phase = SPB / 2,
            _ => phase += 1,
        }
        if !rx.hunting() && phase % SPB == 0 {
            out.push_str(&rx.strobe(b));
        }
    }
    (out, tx)
}

#[test]
fn a_text_arrives_as_it_was_sent() {
    let (got, tx) = over_the_line("cq cq de AB1CD k");
    assert_eq!(got, "CQ CQ DE AB1CD K");
    assert_eq!((tx.sent_chars(), tx.total_chars()), (16, 16));
}

#[test]
fn a_text_with_figures_arrives_in_the_right_shift() {
    let (got, _) = over_the_line("RYRYRY 599 TU");
    assert_eq!(got, "RYRYRY 599 TU");
}

#[test]
fn a_code_is_framed_by_one_start_and_two_stop_bits() {
    let mut tx = RttyTx::new(1);
    tx.push_text("E");
    assert_eq!(tx.next_block(8), vec![false, true, false, false, false, false, true, true]);
    assert!(tx.drained());
    assert_eq!(tx.sent_chars(), 0);
    assert_eq!(tx.next_block(2), vec![true, true]);
    assert_eq!(tx.sent_chars(), 1);
}

#[test]
fn a_bit_lasts_its_number_of_samples() {
    let mut tx = RttyTx::new(3);
    tx.push_text("E");
    assert_eq!(tx.next_block(6), vec![false, false, false, true, true, true]);
    tx.clear();
    assert!(tx.drained());
    assert_eq!((tx.sent_chars(), tx.total_chars()), (0, 0));
    assert_eq!(tx.next_block(3), vec![true, true, true]);
}

#[test]
fn characters_without_a_code_count_as_sent() {
    let mut tx = RttyTx::new(1);
    tx.push_text("%");
    assert_eq!((tx.sent_chars(), tx.total_chars()), (1, 1));
    assert!(tx.drained());
}

#[test]
fn the_sent_count_never_goes_back() {
    for text in ["A~", "A%", "~A", "A~B~~", "%%"] {
        let mut tx = RttyTx::new(2);
        tx.push_text(text);
        assert_eq!(tx.total_chars(), text.len());
        let mut seen = tx.sent_chars();
        for _ in 0..200 {
            tx.next_block(1);
            assert!(tx.sent_chars() >= seen);
            seen = tx.sent_chars();
        }
        assert_eq!((seen, tx.drained()), (text.len(), true));
    }
}

#[test]
fn clearing_inside_the_last_bit_forgets_its_character() {
    let mut tx = RttyTx::new(2);
    tx.push_text("E");
    tx.next_block(15);
    assert!(!tx.drained());
    tx.clear();
    assert!(tx.drained());
    assert_eq!(tx.next_block(1), vec![true]);
    assert_eq!((tx.sent_chars(), tx.total_chars()), (0, 0));
    assert_eq!(tx.next_block(4), vec![true; 4]);
    assert_eq!((tx.sent_chars(), tx.total_chars()), (0, 0));
}

#[test]
fn every_queued_bit_plays_in_turn() {
    let mut each = RttyTx::new(1);
    let mut slow = RttyTx::new(5);
    each.push_text("RY 73");
    slow.push_text("RY 73");
    let bits = each.next_block(8 * 6);
    let samples = slow.next_block(5 * bits.len());
    for (k, b) in samples.iter().enumerate() {
        assert_eq!(*b, bits[k / 5]);
    }
}

fn strobe_frame(rx: &mut RttyFramer, code: u8, stop: bool) -> String {
    rx.sample(true);
    assert_eq!(rx.sample(false), ClockAction::Acquire);
    let mut out = rx.strobe(false);
    for i in 0..5 {
        out.push_str(&rx.strobe(code >> i & 1 == 1));
    }
    out.push_str(&rx.strobe(stop));
    out
}

#[test]
fn characters_are_held_back_until_framing_has_proved_itself() {
    let mut rx = RttyFramer::new();
    assert_eq!(strobe_frame(&mut rx, 3, true), "");
    assert_eq!(strobe_frame(&mut rx, 25, true), "");
    assert_eq!(strobe_frame(&mut rx, 14, true), "ABC");
    assert_eq!(strobe_frame(&mut rx, 9, true), "D");
    assert_eq!(rx.lock_count(), 4);
    for _ in 0..5 {
        strobe_frame(&mut rx, 9, true);
    }
    assert_eq!(rx.lock_count(), LOCK_MAX);
    assert_eq!(strobe_frame(&mut rx, 9, false), "");
    assert_eq!(rx.lock_count(), 4);
    rx.configure();
    assert_eq!(rx.lock_count(), 0);
    assert!(rx.hunting());
}

#[test]
fn a_false_start_costs_lock() {
    let mut rx = RttyFramer::new();
    strobe_frame(&mut rx, 3, true);
    assert_eq!(rx.lock_count(), 1);
    rx.sample(true);
    rx.sample(false);
    assert_eq!(rx.strobe(true), "");
    assert_eq!(rx.lock_count(), 0);
    assert!(rx.hunting());
    // What was held back is lost with the lock.
    assert_eq!(strobe_frame(&mut rx, 25, true), "");
    assert_eq!(strobe_frame(&mut rx, 14, true), "");
    assert_eq!(strobe_frame(&mut rx, 9, true), "BCD");
}

#[test]
fn edges_move_the_clock() {
    let mut rx = RttyFramer::new();
    assert_eq!(rx.sample(false), ClockAction::Run);
    assert_eq!(rx.sample(true), ClockAction::Run);
    assert_eq!(rx.sample(false), ClockAction::Acquire);
    assert_eq!(rx.sample(true), ClockAction::Track);
    rx.hunt();
    assert!(rx.hunting());
}

#[test]
fn settings_touch_only_what_changed() {
    let same = SettingsChange { center: false, baud: false, shift: false, reverse: false, afc: false };
    let none = set_settings(same);
    assert!(!none.retune_rx && !none.set_reverse && !none.set_afc);
    assert_eq!(none.tx, TxChange::Keep);
    let shift = set_settings(SettingsChange { shift: true, ..same });
    assert!(shift.retune_rx);
    assert_eq!(shift.tx, TxChange::Retune);
    let baud = set_settings(SettingsChange { baud: true, center: true, ..same });
    assert!(baud.retune_rx);
    assert_eq!(baud.tx, TxChange::Rebuild);
    let flags = set_settings(SettingsChange { reverse: true, afc: true, ..same });
    assert!(flags.set_reverse && flags.set_afc && !flags.retune_rx);
    assert_eq!(flags.tx, TxChange::Keep);
}

#[test]
fn received_text_scrolls_off_at_the_front() {
    let mut t = RxText::new();
    t.append("old ");
    t.append(&"x".repeat(19_990));
    assert_eq!(t.text().len(), 19_994);
    t.append("0123456789");
    let s = t.text();
    assert_eq!(s.len(), 20_000);
    assert!(s.starts_with("xxxx") && s.ends_with("0123456789"));
    // A character of several bytes leaves whole.
    t.clear();
    t.append("é");
    t.append(&"y".repeat(19_999));
    assert_eq!(t.text().len(), 19_999);
    t.clear();
    assert_eq!(t.text(), "");
}
