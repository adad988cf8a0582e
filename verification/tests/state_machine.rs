use mynmon::state::{history_entry, poll_timeout_nanos, refresh_due, Control, DiffKind, Key, KeyKind, MonitorState, ProcessDiff};

fn press(s: &mut MonitorState, k: Key) -> Control {
    s.handle_key(k, KeyKind::Press)
}

fn typed(s: &mut MonitorState, text: &str) {
    for c in text.chars() {
        press(s, Key::Char(c));
    }
}

fn diff(kind: DiffKind, v: &str) -> ProcessDiff {
    ProcessDiff { kind, value: v.to_string() }
}

#[test]
fn starts_with_everything_hidden() {
    let s = MonitorState::new();
    assert!(s.all_hidden());
    assert_eq!(s.tick_rate, 1);
    assert!(!s.is_filtering && !s.is_setting_interval);
    assert!(s.filter_query.is_empty() && s.spawn_exit_log.is_empty());
}

#[test]
fn section_keys_toggle() {
    let mut s = MonitorState::new();
    assert_eq!(press(&mut s, Key::Char('c')), Control::Continue);
    assert!(s.show_cpu_cores && !s.show_cpu_total);
    press(&mut s, Key::Char('C'));
    assert!(s.show_cpu_total);
    press(&mut s, Key::Char('m'));
    press(&mut s, Key::Char('d'));
    press(&mut s, Key::Char('n'));
    press(&mut s, Key::Char('p'));
    press(&mut s, Key::Char('g'));
    assert!(s.show_mem && s.show_disk && s.show_net && s.show_proc && s.show_diff);
    assert!(!s.all_hidden());
    press(&mut s, Key::Char('t'));
    press(&mut s, Key::Char('l'));
    assert!(!s.show_proc && !s.show_diff);
}

#[test]
fn toggling_twice_restores() {
    for c in ['c', 'C', 'm', 'd', 'n', 'p', 't', 'g', 'l'] {
        let mut s = MonitorState::new();
        press(&mut s, Key::Char(c));
        assert!(!s.all_hidden());
        press(&mut s, Key::Char(c));
        assert!(s.all_hidden(), "{}", c);
    }
}

#[test]
fn q_and_esc_quit_in_normal_mode() {
    let mut s = MonitorState::new();
    assert_eq!(press(&mut s, Key::Char('q')), Control::Quit);
    assert_eq!(press(&mut s, Key::Esc), Control::Quit);
    assert_eq!(press(&mut s, Key::Char('x')), Control::Continue);
    assert_eq!(press(&mut s, Key::Enter), Control::Continue);
}

#[test]
fn releases_and_repeats_are_ignored() {
    let mut s = MonitorState::new();
    assert_eq!(s.handle_key(Key::Char('m'), KeyKind::Release), Control::Continue);
    assert_eq!(s.handle_key(Key::Char('m'), KeyKind::Repeat), Control::Continue);
    assert_eq!(s.handle_key(Key::Char('q'), KeyKind::Release), Control::Continue);
    assert!(s.all_hidden());
}

#[test]
fn filter_mode_collects_text() {
    let mut s = MonitorState::new();
    press(&mut s, Key::Char('f'));
    assert!(s.is_filtering);
    assert_eq!(press(&mut s, Key::Char('q')), Control::Continue);
    typed(&mut s, "ux");
    assert_eq!(s.filter_query, "qux");
    press(&mut s, Key::Backspace);
    assert_eq!(s.filter_query, "qu");
    press(&mut s, Key::Other);
    assert_eq!(press(&mut s, Key::Esc), Control::Continue);
    assert!(!s.is_filtering);
    assert_eq!(s.filter_query, "qu");
    press(&mut s, Key::Char('f'));
    press(&mut s, Key::Backspace);
    press(&mut s, Key::Backspace);
    press(&mut s, Key::Backspace);
    assert_eq!(s.filter_query, "");
    press(&mut s, Key::Enter);
    assert!(!s.is_filtering);
}

#[test]
fn interval_editing_applies_on_enter() {
    let mut s = MonitorState::new();
    press(&mut s, Key::Char('r'));
    assert!(s.is_setting_interval);
    assert_eq!(s.interval_input, "1");
    press(&mut s, Key::Backspace);
    typed(&mut s, "3x");
    assert_eq!(s.interval_input, "3");
    press(&mut s, Key::Enter);
    assert!(!s.is_setting_interval);
    assert_eq!(s.tick_rate, 3);
    press(&mut s, Key::Char('r'));
    assert_eq!(s.interval_input, "3");
    press(&mut s, Key::Enter);
    assert_eq!(s.tick_rate, 3);
}

#[test]
fn interval_editing_refuses_zero_and_cancels() {
    let mut s = MonitorState::new();
    press(&mut s, Key::Char('r'));
    press(&mut s, Key::Backspace);
    typed(&mut s, "0");
    press(&mut s, Key::Enter);
    assert_eq!(s.tick_rate, 1);
    press(&mut s, Key::Char('r'));
    typed(&mut s, "5");
    assert_eq!(s.interval_input, "15");
    assert_eq!(press(&mut s, Key::Esc), Control::Continue);
    assert!(!s.is_setting_interval);
    assert_eq!(s.tick_rate, 1);
    press(&mut s, Key::Char('r'));
    press(&mut s, Key::Backspace);
    press(&mut s, Key::Enter);
    assert_eq!(s.tick_rate, 1);
}

#[test]
fn interval_editing_takes_numeric_characters_only() {
    let mut s = MonitorState::new();
    press(&mut s, Key::Char('r'));
    press(&mut s, Key::Backspace);
    typed(&mut s, "a٣");
    assert_eq!(s.interval_input, "٣");
    press(&mut s, Key::Enter);
    assert_eq!(s.tick_rate, 1);
    press(&mut s, Key::Char('r'));
    assert_eq!(press(&mut s, Key::Char('q')), Control::Continue);
}

#[test]
fn first_snapshot_is_only_remembered() {
    let mut s = MonitorState::new();
    s.observe_processes("1:init".to_string(), &vec![diff(DiffKind::Added, "1:init")]);
    assert_eq!(s.last_process_list, "1:init");
    assert!(s.spawn_exit_log.is_empty());
}

#[test]
fn later_snapshots_record_starts_and_exits() {
    let mut s = MonitorState::new();
    s.observe_processes("1:init\n2:sh".to_string(), &vec![]);
    let diffs = vec![
        diff(DiffKind::Unchanged, "1:init"),
        diff(DiffKind::Removed, "2:sh"),
        diff(DiffKind::Added, "3:vim"),
        diff(DiffKind::Added, "garbage"),
    ];
    s.observe_processes("1:init\n3:vim".to_string(), &diffs);
    assert_eq!(s.spawn_exit_log, vec!["- sh (PID: 2)".to_string(), "+ vim (PID: 3)".to_string()]);
    assert_eq!(s.last_process_list, "1:init\n3:vim");
}

#[test]
fn history_keeps_newest_fifty() {
    let mut s = MonitorState::new();
    s.observe_processes("0:x".to_string(), &vec![]);
    let diffs: Vec<ProcessDiff> = (0..60).map(|i| diff(DiffKind::Added, &format!("{}:p{}", i, i))).collect();
    s.observe_processes("0:y".to_string(), &diffs);
    assert_eq!(s.spawn_exit_log.len(), 50);
    assert_eq!(s.spawn_exit_log[0], "+ p10 (PID: 10)");
    assert_eq!(s.spawn_exit_log[49], "+ p59 (PID: 59)");
    s.observe_processes("0:z".to_string(), &vec![diff(DiffKind::Removed, "7:q")]);
    assert_eq!(s.spawn_exit_log.len(), 50);
    assert_eq!(s.spawn_exit_log[49], "- q (PID: 7)");
    assert_eq!(s.spawn_exit_log[0], "+ p11 (PID: 11)");
}

#[test]
fn history_entries() {
    assert_eq!(history_entry(&diff(DiffKind::Added, "12:a:b")), Some("+ a:b (PID: 12)".to_string()));
    assert_eq!(history_entry(&diff(DiffKind::Removed, "9:")), Some("-  (PID: 9)".to_string()));
    assert_eq!(history_entry(&diff(DiffKind::Unchanged, "9:x")), None);
    assert_eq!(history_entry(&diff(DiffKind::Added, "nocolon")), None);
}

#[test]
fn refresh_timing() {
    assert_eq!(poll_timeout_nanos(1, 0), 1_000_000_000);
    assert_eq!(poll_timeout_nanos(1, 400_000_000), 600_000_000);
    assert_eq!(poll_timeout_nanos(2, 3_000_000_000), 0);
    assert_eq!(poll_timeout_nanos(u64::MAX, 0), (u64::MAX as u128) * 1_000_000_000);
    assert!(!refresh_due(1, 999_999_999));
    assert!(refresh_due(1, 1_000_000_000));
    assert!(refresh_due(3, 5_000_000_000));
}
