use mynmon::procs::{matches_filter, process_list_text, process_names_text, sort_processes, ProcEntry};
use mynmon::state::{DiffKind, Key, KeyKind, MonitorState, ProcessDiff};
use mynmon::ui::{
    draw_diff_log, draw_header, draw_help, draw_network, draw_processes, draw_size_error, draw_status_bar,
    draw_welcome_screen, screen_layout, sort_process_rows, text_less_or_equal, Color, Line, NetRow, Panel, ProcessRow, Style,
};

fn text(l: &Line) -> String {
    l.spans.iter().map(|s| s.text.as_str()).collect()
}

fn texts(ls: &[Line]) -> Vec<String> {
    ls.iter().map(text).collect()
}

fn press(s: &mut MonitorState, c: char) {
    s.handle_key(Key::Char(c), KeyKind::Press);
}

fn entry(pid: u32, name: &str) -> ProcEntry {
    ProcEntry { pid, name: name.to_string() }
}

#[test]
fn help_line() {
    let l = draw_help();
    assert_eq!(
        text(&l),
        " [C]:CPU-Total  [c]:CPU-Cores  [m]:Mem  [d]:Disk  [n]:Net  [p]:Proc  [g]:DiffLog | [f]:Filter | [r]:Interval  [q] to quit"
    );
    assert_eq!(l.spans[1].style.fg, Some(Color::Green));
    assert!(l.spans[13].style.bold);
    assert_eq!(l.spans[16].style.fg, Some(Color::Red));
}

#[test]
fn welcome_screen_lines() {
    let ls = draw_welcome_screen();
    let t = texts(&ls);
    assert_eq!(t.len(), 19);
    assert_eq!(t[0], "");
    assert_eq!(t[1], "  Welcome to MyNMON!");
    assert_eq!(t[6], "    C : Toggle Total CPU utilization display");
    assert_eq!(t[15], "    q : Quit the application (also 'Esc' key)");
    assert_eq!(t[17], "  Press any key above to start monitoring.");
    assert!(ls[17].spans[1].style.italic);
}

#[test]
fn header_adapts_to_width() {
    let wide = draw_header(110, 3, "0.5.0", Some("box".to_string()), Some("Linux".to_string()), Some("6.1".to_string()), 90061);
    assert_eq!(text(&wide[0]), " MyNMON v0.5.0  | Host: box | OS: Linux | Kernel: 6.1 | Uptime: 1d 01:01:01 | Interval: 3s");
    assert_eq!(text(&wide[1]), "-".repeat(110));
    assert_eq!(wide[0].spans[0].style.bg, Some(Color::Green));
    let mid = draw_header(95, 1, "1", Some("box".to_string()), None, Some("6.1".to_string()), 5);
    assert_eq!(text(&mid[0]), " MyNMON v1  | Host: box | OS: Unknown OS | Uptime: 00:00:05 | Interval: 1s");
    let narrow = draw_header(80, 1, "1", None, Some("Linux".to_string()), None, 0);
    assert_eq!(text(&narrow[0]), " MyNMON v1  | Host: Unknown | Uptime: 00:00:00 | Interval: 1s");
    assert_eq!(text(&narrow[1]).len(), 80);
}

#[test]
fn status_bar_modes() {
    let mut s = MonitorState::new();
    let idle = draw_status_bar(80, &s, 0);
    assert_eq!(texts(&idle), vec!["=".repeat(80)]);
    press(&mut s, 'f');
    press(&mut s, 'v');
    let typing = draw_status_bar(80, &s, 0);
    assert_eq!(text(&typing[0]), " FILTER INPUT (Enter/Esc to close):  v");
    assert!(typing[0].spans[2].style.underlined);
    s.handle_key(Key::Enter, KeyKind::Press);
    let active = draw_status_bar(80, &s, 12);
    assert_eq!(text(&active[0]), " Filter Active:  v | Matches: 12");
    assert_eq!(text(&active[1]), "-".repeat(80));
    press(&mut s, 'r');
    let interval = draw_status_bar(80, &s, 12);
    assert_eq!(text(&interval[0]), " SET INTERVAL (seconds, Enter/Esc):  1");
}

#[test]
fn diff_log_sections() {
    let mut s = MonitorState::new();
    assert_eq!(
        texts(&draw_diff_log(&s)),
        vec!["--- Process Spawn/Exit History Log ---", "  No process changes detected yet.", ""]
    );
    s.observe_processes("0:a".to_string(), &vec![]);
    let diffs: Vec<ProcessDiff> = (1..=12)
        .map(|i| ProcessDiff { kind: if i % 2 == 0 { DiffKind::Added } else { DiffKind::Removed }, value: format!("{}:Proc{}", i, i) })
        .collect();
    s.observe_processes("0:b".to_string(), &diffs);
    let all = draw_diff_log(&s);
    assert_eq!(all.len(), 12);
    assert_eq!(text(&all[1]), "  - Proc3 (PID: 3)");
    assert_eq!(all[1].spans[1].style.fg, Some(Color::Red));
    assert_eq!(text(&all[10]), "  + Proc12 (PID: 12)");
    assert_eq!(all[10].spans[1].style.fg, Some(Color::Green));
    s.filter_query = "PROC1".to_string();
    let some = texts(&draw_diff_log(&s));
    assert_eq!(some, vec![
        "--- Process Spawn/Exit History Log ---",
        "  - Proc1 (PID: 1)",
        "  + Proc10 (PID: 10)",
        "  - Proc11 (PID: 11)",
        "  + Proc12 (PID: 12)",
        "",
    ]);
    s.filter_query = "zzz".to_string();
    assert_eq!(texts(&draw_diff_log(&s))[1], "  No changes matching filter query.");
}

fn row(pid: u32, name: &str) -> ProcessRow {
    ProcessRow { pid, name: name.to_string(), cpu_rank: 7, cpu_text: "1.5%".to_string(), mem_text: "20.0 MB".to_string() }
}

fn ranked(pid: u32, rank: u32) -> ProcessRow {
    ProcessRow { pid, name: format!("p{}", pid), cpu_rank: rank, cpu_text: format!("{}%", rank), mem_text: "1.0 MB".to_string() }
}

#[test]
fn process_table_orders_by_cpu() {
    let rows = vec![ranked(1, 5), ranked(2, 90), ranked(3, 5), ranked(4, 40)];
    let t = texts(&draw_processes(&rows, ""));
    let pids: Vec<String> = t[2..6].iter().map(|l| l[2..8].trim().to_string()).collect();
    assert_eq!(pids, vec!["2", "4", "1", "3"]);
    let sorted = sort_process_rows(&rows);
    assert_eq!(sorted.iter().map(|r| r.pid).collect::<Vec<_>>(), vec![2, 4, 1, 3]);
}

#[test]
fn process_table() {
    let rows: Vec<ProcessRow> = (1..=10).map(|i| row(i, &format!("worker{}", i))).collect();
    let t = texts(&draw_processes(&rows, ""));
    assert_eq!(t.len(), 11);
    assert_eq!(t[0], "--- Top Active Processes by CPU Usage ---");
    assert_eq!(t[1], "     PID Process Name              CPU %    Memory (MB)");
    assert_eq!(t[2], "       1 worker1                    1.5%        20.0 MB");
    assert_eq!(t[9], "       8 worker8                    1.5%        20.0 MB");
    assert_eq!(t[10], "");
    let filtered = texts(&draw_processes(&rows, "KER1"));
    assert_eq!(filtered.len(), 5);
    assert_eq!(filtered[2], "       1 worker1                    1.5%        20.0 MB");
    assert_eq!(filtered[3], "      10 worker10                   1.5%        20.0 MB");
    let long = texts(&draw_processes(&vec![row(1234567, "a-process-with-a-long-name")], ""));
    assert_eq!(long[2], "  1234567 a-process-with-a-lon       1.5%        20.0 MB");
}

#[test]
fn network_section_sorted_by_name() {
    let r = |n: &str| NetRow { name: n.to_string(), rx_text: "    1.00".to_string(), tx_text: "    2.50".to_string() };
    let t = texts(&draw_network(&vec![r("wlan0"), r("eth0"), r("lo"), r("Eth1")]));
    assert_eq!(t, vec![
        "--- Network Interface I/O speeds ---",
        "  Eth1             : Rx:     1.00 KB/s | Tx:     2.50 KB/s",
        "  eth0             : Rx:     1.00 KB/s | Tx:     2.50 KB/s",
        "  lo               : Rx:     1.00 KB/s | Tx:     2.50 KB/s",
        "  wlan0            : Rx:     1.00 KB/s | Tx:     2.50 KB/s",
        "",
    ]);
}

#[test]
fn text_order_matches_string_order() {
    let words = ["", "a", "ab", "b", "B", "é", "z", "aa", "日本"];
    for a in words {
        for b in words {
            assert_eq!(text_less_or_equal(a, b), a.to_string() <= b.to_string(), "{} {}", a, b);
        }
    }
}

#[test]
fn size_error_screen() {
    assert_eq!(texts(&draw_size_error(70, 15)), vec![
        "--- Terminal Size Error ---",
        "Current size: 70x15",
        "Please resize your terminal to at least 80x20.",
    ]);
}

#[test]
fn layout_follows_switches() {
    let mut s = MonitorState::new();
    assert_eq!(screen_layout(&s, 79, 40), None);
    assert_eq!(screen_layout(&s, 80, 19), None);
    assert_eq!(screen_layout(&s, 80, 20), Some(vec![Panel::Welcome]));
    press(&mut s, 'g');
    press(&mut s, 'c');
    press(&mut s, 'C');
    assert_eq!(screen_layout(&s, 120, 50), Some(vec![Panel::CpuTotal, Panel::CpuCores, Panel::DiffLog]));
}

#[test]
fn process_listing_sorted_by_pid() {
    let procs = vec![entry(30, "c"), entry(2, "a"), entry(30, "b"), entry(7, "x:y")];
    assert_eq!(process_list_text(&procs), "2:a\n7:x:y\n30:c\n30:b");
    let sorted = sort_processes(&procs);
    assert_eq!(sorted.iter().map(|e| e.pid).collect::<Vec<_>>(), vec![2, 7, 30, 30]);
    assert_eq!(process_list_text(&vec![]), "");
    assert_eq!(process_list_text(&vec![entry(1, "init")]), "1:init");
}

#[test]
fn process_names_joined_by_spaces() {
    let names = vec!["bash".to_string(), "vim".to_string(), "top".to_string()];
    assert_eq!(process_names_text(&names), "bash vim top");
    assert_eq!(process_names_text(&vec![]), "");
}

#[test]
fn filter_ignores_case() {
    assert!(matches_filter("Firefox", "fire"));
    assert!(matches_filter("firefox", "FOX"));
    assert!(matches_filter("anything", ""));
    assert!(!matches_filter("bash", "zsh"));
    assert!(matches_filter("ÉCOLE", "éco"));
}

#[test]
fn styles_are_plain_values() {
    assert_eq!(Style::bold(Color::Red).fg, Some(Color::Red));
    assert!(Style::banner(Color::Cyan).bold);
    assert_eq!(Style::plain().bg, None);
}
