//! The CPU, memory and disk sections, whose figures arrive already
//! formatted, and the composition of a whole frame.
use vstd::prelude::*;
use crate::text::{align_left, align_right, decimal, decimal_string, pad_left, pad_right, push_str};
use crate::ui::{bold_style, fg_style, lines_view, plain_style, push_line, Color, Line, Span, Style};

verus! {

/// How busy a CPU is, which sets the color of its bar.
#[derive(Clone, Copy, Debug, PartialEq, Eq, Structural)]
pub enum LoadLevel {
    /// 40% or less.
    Low,
    /// Above 40% and up to 80%.
    Medium,
    /// Above 80%.
    High,
}

/// The bar color for a load level: green, yellow or red.
pub open spec fn level_color(level: LoadLevel) -> Color {
    match level {
        LoadLevel::Low => Color::Green,
        LoadLevel::Medium => Color::Yellow,
        LoadLevel::High => Color::Red,
    }
}

fn level_style(level: LoadLevel) -> (r: Style)
    ensures
        r == fg_style(level_color(level)),
{
    match level {
        LoadLevel::Low => Style::fg(Color::Green),
        LoadLevel::Medium => Style::fg(Color::Yellow),
        LoadLevel::High => Style::fg(Color::Red),
    }
}

/// A label in plain text followed by a bar in a style.
pub open spec fn bar_line_spec(label: Seq<char>, bar: Seq<char>, style: Style) -> Seq<(Seq<char>, Style)> {
    seq![(label, plain_style()), (bar, style)]
}

fn bar_line(label: String, bar: &str, style: Style) -> (r: Line)
    ensures
        r@ == bar_line_spec(label@, bar@, style),
{
    let mut l = Line::empty();
    l.push(Span::from_string(label, Style::plain()));
    l.push_str(bar, style);
    assert(l@ =~= bar_line_spec(label@, bar@, style));
    l
}

/// The total CPU section: a title, the load (formatted to `{:5.1}`) with
/// its bar colored by level, and an empty line.
pub open spec fn cpu_total_spec(load_text: Seq<char>, bar: Seq<char>, level: LoadLevel) -> Seq<Seq<(Seq<char>, Style)>> {
    seq![
        seq![("--- CPU Utilization (Total) ---"@, bold_style(Color::Cyan))],
        bar_line_spec("  Total CPU: "@ + load_text + "% "@, bar, fg_style(level_color(level))),
        Seq::empty(),
    ]
}

/// The total CPU section for an already formatted load and its bar.
pub fn draw_cpu_total(load_text: &str, bar: &str, level: LoadLevel) -> (r: Vec<Line>)
    ensures
        lines_view(r@) == cpu_total_spec(load_text@, bar@, level),
{
    let mut r: Vec<Line> = Vec::new();
    push_line(&mut r, Line::of("--- CPU Utilization (Total) ---", Style::bold(Color::Cyan)));
    let mut label = String::new();
    push_str(&mut label, "  Total CPU: ");
    push_str(&mut label, load_text);
    push_str(&mut label, "% ");
    push_line(&mut r, bar_line(label, bar, level_style(level)));
    push_line(&mut r, Line::empty());
    assert(lines_view(r@) =~~= cpu_total_spec(load_text@, bar@, level));
    r
}

/// One CPU core as its section shows it.
#[derive(Clone, Debug)]
pub struct CoreRow {
    pub load_text: String,
    pub bar: String,
    pub level: LoadLevel,
}

/// The line of core number `i`: its number right-aligned in 2 columns,
/// its load and its bar.
pub open spec fn core_line_spec(i: nat, c: CoreRow) -> Seq<(Seq<char>, Style)> {
    bar_line_spec(
        "  Core "@ + align_right(decimal(i), 2) + ": "@ + c.load_text@ + "% "@,
        c.bar@,
        fg_style(level_color(c.level)),
    )
}

/// The per-core section: a title, one line per core, and an empty line.
pub open spec fn cpu_cores_spec(cores: Seq<CoreRow>) -> Seq<Seq<(Seq<char>, Style)>> {
    seq![seq![("--- CPU Utilization (Individual Cores) ---"@, bold_style(Color::Cyan))]]
        + Seq::new(cores.len(), |i: int| core_line_spec(i as nat, cores[i])) + seq![Seq::empty()]
}

/// The per-core section for already formatted loads and bars.
pub fn draw_cpu_cores(cores: &Vec<CoreRow>) -> (r: Vec<Line>)
    ensures
        lines_view(r@) == cpu_cores_spec(cores@),
{
    let mut r: Vec<Line> = Vec::new();
    push_line(&mut r, Line::of("--- CPU Utilization (Individual Cores) ---", Style::bold(Color::Cyan)));
    let ghost r0 = lines_view(r@);
    let n = cores.len();
    for i in 0..n
        invariant
            n == cores@.len(),
            lines_view(r@) == r0 + Seq::new(i as nat, |k: int| core_line_spec(k as nat, cores@[k])),
    {
        let c = &cores[i];
        let mut label = String::new();
        push_str(&mut label, "  Core ");
        push_str(&mut label, pad_left(decimal_string(i as u64).as_str(), 2).as_str());
        push_str(&mut label, ": ");
        push_str(&mut label, c.load_text.as_str());
        push_str(&mut label, "% ");
        let l = bar_line(label, c.bar.as_str(), level_style(c.level));
        assert(l@ == core_line_spec(i as nat, cores@[i as int]));
        let ghost before = lines_view(r@);
        push_line(&mut r, l);
        assert(lines_view(r@) =~= r0 + Seq::new((i + 1) as nat, |k: int| core_line_spec(k as nat, cores@[k])));
    }
    push_line(&mut r, Line::empty());
    assert(lines_view(r@) =~~= cpu_cores_spec(cores@));
    r
}

/// Memory and swap figures, formatted: sizes in GB, usage in percent, the
/// usage bars, and whether each usage is high (above 85%).
#[derive(Clone, Debug)]
pub struct MemoryFigures {
    pub ram_total: String,
    pub ram_used: String,
    pub ram_free: String,
    pub ram_pct: String,
    pub ram_bar: String,
    pub ram_high: bool,
    pub swap_total: String,
    pub swap_used: String,
    pub swap_free: String,
    pub swap_pct: String,
    pub swap_bar: String,
    pub swap_high: bool,
}

/// A usage bar's style: red when usage is high, magenta otherwise.
pub open spec fn usage_style(high: bool) -> Style {
    fg_style(if high { Color::Red } else { Color::Magenta })
}

fn usage_style_of(high: bool) -> (r: Style)
    ensures
        r == usage_style(high),
{
    if high {
        Style::fg(Color::Red)
    } else {
        Style::fg(Color::Magenta)
    }
}

/// A sizes line: the label, then total, used and free in GB.
pub open spec fn sizes_text(label: Seq<char>, total: Seq<char>, used: Seq<char>, free: Seq<char>) -> Seq<char> {
    label + total + " GB Total | "@ + used + " GB Used | "@ + free + " GB Free"@
}

fn sizes_line(label: &str, total: &str, used: &str, free: &str) -> (r: Line)
    ensures
        r@ == seq![(sizes_text(label@, total@, used@, free@), plain_style())],
{
    let mut t = String::new();
    push_str(&mut t, label);
    push_str(&mut t, total);
    push_str(&mut t, " GB Total | ");
    push_str(&mut t, used);
    push_str(&mut t, " GB Used | ");
    push_str(&mut t, free);
    push_str(&mut t, " GB Free");
    let mut l = Line::empty();
    l.push(Span::from_string(t, Style::plain()));
    assert(l@ =~= seq![(sizes_text(label@, total@, used@, free@), plain_style())]);
    l
}

fn usage_line(label: &str, pct: &str, bar: &str, high: bool) -> (r: Line)
    ensures
        r@ == bar_line_spec(label@ + pct@ + "% "@, bar@, usage_style(high)),
{
    let mut t = String::new();
    push_str(&mut t, label);
    push_str(&mut t, pct);
    push_str(&mut t, "% ");
    bar_line(t, bar, usage_style_of(high))
}

/// The memory section: a title, physical memory sizes and usage, swap sizes
/// and usage, and an empty line.
pub open spec fn memory_spec(m: MemoryFigures) -> Seq<Seq<(Seq<char>, Style)>> {
    seq![
        seq![("--- Memory Allocation ---"@, bold_style(Color::Magenta))],
        seq![(sizes_text("  Physical RAM : "@, m.ram_total@, m.ram_used@, m.ram_free@), plain_style())],
        bar_line_spec("  RAM Usage    : "@ + m.ram_pct@ + "% "@, m.ram_bar@, usage_style(m.ram_high)),
        seq![(sizes_text("  Swap/Pagefile: "@, m.swap_total@, m.swap_used@, m.swap_free@), plain_style())],
        bar_line_spec("  Swap Usage   : "@ + m.swap_pct@ + "% "@, m.swap_bar@, usage_style(m.swap_high)),
        Seq::empty(),
    ]
}

/// The memory section for already formatted figures.
pub fn draw_memory(m: &MemoryFigures) -> (r: Vec<Line>)
    ensures
        lines_view(r@) == memory_spec(*m),
{
    let mut r: Vec<Line> = Vec::new();
    push_line(&mut r, Line::of("--- Memory Allocation ---", Style::bold(Color::Magenta)));
    push_line(&mut r, sizes_line("  Physical RAM : ", m.ram_total.as_str(), m.ram_used.as_str(), m.ram_free.as_str()));
    push_line(&mut r, usage_line("  RAM Usage    : ", m.ram_pct.as_str(), m.ram_bar.as_str(), m.ram_high));
    push_line(&mut r, sizes_line("  Swap/Pagefile: ", m.swap_total.as_str(), m.swap_used.as_str(), m.swap_free.as_str()));
    push_line(&mut r, usage_line("  Swap Usage   : ", m.swap_pct.as_str(), m.swap_bar.as_str(), m.swap_high));
    push_line(&mut r, Line::empty());
    assert(lines_view(r@) =~~= memory_spec(*m));
    r
}

/// A mounted disk as its section shows it, with formatted figures.
#[derive(Clone, Debug)]
pub struct DiskRow {
    pub mount: String,
    pub fs_text: String,
    pub available_text: String,
    pub total_text: String,
    pub pct_text: String,
}

/// One disk: its mount point left-aligned in 12 columns, file system, free
/// and total space and usage.
pub open spec fn disk_line_spec(d: DiskRow) -> Seq<(Seq<char>, Style)> {
    seq![(
        "  "@ + align_left(d.mount@, 12) + " ("@ + d.fs_text@ + "): "@ + d.available_text@ + "GB / "@
            + d.total_text@ + "GB free ("@ + d.pct_text@ + "% used)"@,
        plain_style(),
    )]
}

/// The disk section: a title, one line per disk, and an empty line.
pub open spec fn disk_spec(disks: Seq<DiskRow>) -> Seq<Seq<(Seq<char>, Style)>> {
    seq![seq![("--- Disk Mounts & Space ---"@, bold_style(Color::Yellow))]]
        + disks.map_values(|d: DiskRow| disk_line_spec(d)) + seq![Seq::empty()]
}

/// The disk section for already formatted figures.
pub fn draw_disk(disks: &Vec<DiskRow>) -> (r: Vec<Line>)
    ensures
        lines_view(r@) == disk_spec(disks@),
{
    let mut r: Vec<Line> = Vec::new();
    push_line(&mut r, Line::of("--- Disk Mounts & Space ---", Style::bold(Color::Yellow)));
    let ghost r0 = lines_view(r@);
    let n = disks.len();
    for i in 0..n
        invariant
            n == disks@.len(),
            lines_view(r@) == r0 + disks@.take(i as int).map_values(|d: DiskRow| disk_line_spec(d)),
    {
        let d = &disks[i];
        let mut t = String::new();
        push_str(&mut t, "  ");
        push_str(&mut t, pad_right(d.mount.as_str(), 12).as_str());
        push_str(&mut t, " (");
        push_str(&mut t, d.fs_text.as_str());
        push_str(&mut t, "): ");
        push_str(&mut t, d.available_text.as_str());
        push_str(&mut t, "GB / ");
        push_str(&mut t, d.total_text.as_str());
        push_str(&mut t, "GB free (");
        push_str(&mut t, d.pct_text.as_str());
        push_str(&mut t, "% used)");
        let mut l = Line::empty();
        l.push(Span::from_string(t, Style::plain()));
        assert(l@ =~= disk_line_spec(*d));
        let ghost before = disks@.take(i as int).map_values(|x: DiskRow| disk_line_spec(x));
        push_line(&mut r, l);
        assert(disks@.take(i + 1).map_values(|x: DiskRow| disk_line_spec(x)) =~= before.push(l@));
        assert(r0 + before.push(l@) =~= (r0 + before).push(l@));
    }
    assert(disks@.take(n as int) == disks@);
    push_line(&mut r, Line::empty());
    assert(lines_view(r@) =~~= disk_spec(disks@));
    r
}

/// The panels' lines one after another.
pub open spec fn concat_lines(parts: Seq<Seq<Seq<(Seq<char>, Style)>>>) -> Seq<Seq<(Seq<char>, Style)>>
    decreases parts.len(),
{
    if parts.len() == 0 {
        Seq::empty()
    } else {
        concat_lines(parts.drop_last()) + parts.last()
    }
}

/// A frame: the header, the shortcut line, the status bar, then the panels
/// in order.
pub open spec fn frame_spec(
    header: Seq<Seq<(Seq<char>, Style)>>,
    help: Seq<(Seq<char>, Style)>,
    status: Seq<Seq<(Seq<char>, Style)>>,
    panels: Seq<Seq<Seq<(Seq<char>, Style)>>>,
) -> Seq<Seq<(Seq<char>, Style)>> {
    header + seq![help] + status + concat_lines(panels)
}

/// Composes a frame from its parts: the header, the shortcut line, the
/// status bar, then the panels in the order given.
pub fn compose_frame(header: Vec<Line>, help: Line, status: Vec<Line>, panels: Vec<Vec<Line>>) -> (r: Vec<Line>)
    ensures
        lines_view(r@) == frame_spec(
            lines_view(header@),
            help@,
            lines_view(status@),
            panels@.map_values(|p: Vec<Line>| lines_view(p@)),
        ),
{
    let ghost pv = panels@.map_values(|p: Vec<Line>| lines_view(p@));
    let mut r = header;
    let mut status = status;
    let mut panels = panels;
    push_line(&mut r, help);
    let ghost r1 = r@;
    let ghost s1 = status@;
    r.append(&mut status);
    assert(r@ == r1 + s1);
    assert(lines_view(r@) =~= lines_view(r1) + lines_view(s1));
    let ghost base = lines_view(r@);
    let ghost all = panels@;
    let n = panels.len();
    for i in 0..n
        invariant
            n == all.len(),
            pv == all.map_values(|p: Vec<Line>| lines_view(p@)),
            panels@ == all.skip(i as int),
            lines_view(r@) == base + concat_lines(pv.take(i as int)),
    {
        let mut part = panels.remove(0);
        assert(part == all[i as int]);
        assert(panels@ =~= all.skip(i + 1));
        let ghost before = r@;
        let ghost pseq = part@;
        r.append(&mut part);
        assert(r@ == before + pseq);
        assert(lines_view(r@) =~= lines_view(before) + lines_view(pseq));
        assert(pv.take(i + 1).drop_last() == pv.take(i as int));
        assert(pv.take(i + 1).last() == lines_view(pseq));
        assert(base + concat_lines(pv.take(i + 1)) =~= base + concat_lines(pv.take(i as int)) + lines_view(pseq));
    }
    assert(pv.take(n as int) == pv);
    r
}

} // verus!
