use mynmon::sections::{
    compose_frame, draw_cpu_cores, draw_cpu_total, draw_disk, draw_memory, CoreRow, DiskRow, LoadLevel, MemoryFigures,
};
use mynmon::ui::{draw_help, Color, Line, Style};
use mynmon::utils::ascii_bar;

fn text(l: &Line) -> String {
    l.spans.iter().map(|s| s.text.as_str()).collect()
}

fn texts(ls: &[Line]) -> Vec<String> {
    ls.iter().map(text).collect()
}

#[test]
fn cpu_total_section() {
    let ls = draw_cpu_total(" 55.0", &ascii_bar(14, 25), LoadLevel::Medium);
    assert_eq!(texts(&ls), vec![
        "--- CPU Utilization (Total) ---".to_string(),
        format!("  Total CPU:  55.0% {}", ascii_bar(14, 25)),
        String::new(),
    ]);
    assert_eq!(ls[1].spans[1].style.fg, Some(Color::Yellow));
    assert_eq!(draw_cpu_total("  5.0", "[]", LoadLevel::Low)[1].spans[1].style.fg, Some(Color::Green));
    assert_eq!(draw_cpu_total(" 95.0", "[]", LoadLevel::High)[1].spans[1].style.fg, Some(Color::Red));
}

#[test]
fn cpu_cores_section() {
    let cores: Vec<CoreRow> = (0..11)
        .map(|i| CoreRow { load_text: format!("{:5.1}", i as f64), bar: "[]".to_string(), level: LoadLevel::Low })
        .collect();
    let t = texts(&draw_cpu_cores(&cores));
    assert_eq!(t.len(), 13);
    assert_eq!(t[0], "--- CPU Utilization (Individual Cores) ---");
    assert_eq!(t[1], "  Core  0:   0.0% []");
    assert_eq!(t[11], "  Core 10:  10.0% []");
    assert_eq!(t[12], "");
    assert_eq!(texts(&draw_cpu_cores(&vec![])).len(), 2);
}

#[test]
fn memory_section() {
    let m = MemoryFigures {
        ram_total: "15.50".to_string(),
        ram_used: "7.25".to_string(),
        ram_free: "8.25".to_string(),
        ram_pct: " 46.8".to_string(),
        ram_bar: "[RAM]".to_string(),
        ram_high: false,
        swap_total: "2.00".to_string(),
        swap_used: "1.90".to_string(),
        swap_free: "0.10".to_string(),
        swap_pct: " 95.0".to_string(),
        swap_bar: "[SWAP]".to_string(),
        swap_high: true,
    };
    let ls = draw_memory(&m);
    assert_eq!(texts(&ls), vec![
        "--- Memory Allocation ---",
        "  Physical RAM : 15.50 GB Total | 7.25 GB Used | 8.25 GB Free",
        "  RAM Usage    :  46.8% [RAM]",
        "  Swap/Pagefile: 2.00 GB Total | 1.90 GB Used | 0.10 GB Free",
        "  Swap Usage   :  95.0% [SWAP]",
        "",
    ]);
    assert_eq!(ls[2].spans[1].style.fg, Some(Color::Magenta));
    assert_eq!(ls[4].spans[1].style.fg, Some(Color::Red));
}

#[test]
fn disk_section() {
    let d = |m: &str| DiskRow {
        mount: m.to_string(),
        fs_text: "\"ext4\"".to_string(),
        available_text: "10.5".to_string(),
        total_text: "100.0".to_string(),
        pct_text: "89.5".to_string(),
    };
    assert_eq!(texts(&draw_disk(&vec![d("/"), d("/a/very/long/mount")])), vec![
        "--- Disk Mounts & Space ---",
        "  /            (\"ext4\"): 10.5GB / 100.0GB free (89.5% used)",
        "  /a/very/long/mount (\"ext4\"): 10.5GB / 100.0GB free (89.5% used)",
        "",
    ]);
}

#[test]
fn frame_order() {
    let header = vec![Line::of("H1", Style::plain()), Line::of("H2", Style::plain())];
    let status = vec![Line::of("S", Style::plain())];
    let panels = vec![vec![Line::of("A", Style::plain())], vec![], vec![Line::of("B1", Style::plain()), Line::of("B2", Style::plain())]];
    let f = compose_frame(header, draw_help(), status, panels);
    let t = texts(&f);
    assert_eq!(t.len(), 7);
    assert_eq!(t[0], "H1");
    assert_eq!(t[1], "H2");
    assert_eq!(t[2], text(&draw_help()));
    assert_eq!(&t[3..], &["S", "A", "B1", "B2"]);
}
