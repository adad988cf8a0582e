//! The screen as data: lines of styled text spans for each part of the
//! monitor, which a terminal renderer writes out one line at a time.
use vstd::prelude::*;
use crate::text::{align_left, align_right, chars_of, decimal, decimal_string, pad_left, pad_right, push_str, repeat, repeat_char};
use crate::state::{keep_last, MonitorModel, MonitorState};
use crate::procs::{matches_filter, passes_filter};
use crate::sorting::{insertion_point, insertion_sort, law_insertion_sort_sorted_permutation, lemma_insertion_point_bound, lemma_insertion_sort_step, total_preorder};
use crate::utils::{fit_to_width, format_uptime, pad_or_truncate, uptime_text};

verus! {

/// A terminal color.
#[derive(Clone, Copy, Debug, PartialEq, Eq, Structural)]
pub enum Color {
    Black,
    Red,
    Green,
    Yellow,
    Blue,
    Magenta,
    Cyan,
    Grey,
    DarkGrey,
}

/// How a span of text looks: foreground and background colors and attributes.
#[derive(Clone, Copy, Debug, PartialEq, Eq, Structural)]
pub struct Style {
    pub fg: Option<Color>,
    pub bg: Option<Color>,
    pub bold: bool,
    pub italic: bool,
    pub underlined: bool,
}

/// Text in one style.
#[derive(Clone, Debug)]
pub struct Span {
    pub text: String,
    pub style: Style,
}

/// One line of the screen.
#[derive(Clone, Debug)]
pub struct Line {
    pub spans: Vec<Span>,
}

impl View for Span {
    type V = (Seq<char>, Style);

    open spec fn view(&self) -> (Seq<char>, Style) {
        (self.text@, self.style)
    }
}

impl View for Line {
    type V = Seq<(Seq<char>, Style)>;

    open spec fn view(&self) -> Seq<(Seq<char>, Style)> {
        self.spans@.map_values(|s: Span| s@)
    }
}

/// The plain values of a list of lines.
pub open spec fn lines_view(lines: Seq<Line>) -> Seq<Seq<(Seq<char>, Style)>> {
    lines.map_values(|l: Line| l@)
}

/// No color and no attribute.
pub open spec fn plain_style() -> Style {
    Style { fg: None, bg: None, bold: false, italic: false, underlined: false }
}

/// A foreground color and nothing else.
pub open spec fn fg_style(c: Color) -> Style {
    Style { fg: Some(c), ..plain_style() }
}

/// A bold foreground color.
pub open spec fn bold_style(c: Color) -> Style {
    Style { fg: Some(c), bold: true, ..plain_style() }
}

/// Bold black text on a colored background, as the banners use.
pub open spec fn banner_style(bg: Color) -> Style {
    Style { fg: Some(Color::Black), bg: Some(bg), bold: true, ..plain_style() }
}

impl Style {
    /// No color and no attribute.
    pub fn plain() -> (r: Style)
        ensures
            r == plain_style(),
    {
        Style { fg: None, bg: None, bold: false, italic: false, underlined: false }
    }

    /// A foreground color and nothing else.
    pub fn fg(c: Color) -> (r: Style)
        ensures
            r == fg_style(c),
    {
        Style { fg: Some(c), bg: None, bold: false, italic: false, underlined: false }
    }

    /// A bold foreground color.
    pub fn bold(c: Color) -> (r: Style)
        ensures
            r == bold_style(c),
    {
        Style { fg: Some(c), bg: None, bold: true, italic: false, underlined: false }
    }

    /// Bold black text on a colored background.
    pub fn banner(bg: Color) -> (r: Style)
        ensures
            r == banner_style(bg),
    {
        Style { fg: Some(Color::Black), bg: Some(bg), bold: true, italic: false, underlined: false }
    }
}

impl Span {
    /// A span of the given text and style.
    pub fn new(text: &str, style: Style) -> (r: Span)
        ensures
            r@ == (text@, style),
    {
        Span { text: text.to_string(), style }
    }

    /// A span that owns its text.
    pub fn from_string(text: String, style: Style) -> (r: Span)
        ensures
            r@ == (text@, style),
    {
        Span { text, style }
    }
}

impl Line {
    /// A line without text.
    pub fn empty() -> (r: Line)
        ensures
            r@ == Seq::<(Seq<char>, Style)>::empty(),
    {
        Line { spans: Vec::new() }
    }

    /// Appends a span.
    pub fn push(&mut self, span: Span)
        ensures
            final(self)@ == old(self)@.push(span@),
    {
        self.spans.push(span);
        assert(self@ =~= old(self)@.push(span@));
    }

    /// Appends text in a style.
    pub fn push_str(&mut self, text: &str, style: Style)
        ensures
            final(self)@ == old(self)@.push((text@, style)),
    {
        self.push(Span::new(text, style));
    }

    /// A line of one span.
    pub fn of(text: &str, style: Style) -> (r: Line)
        ensures
            r@ == seq![(text@, style)],
    {
        let mut l = Line::empty();
        l.push_str(text, style);
        l
    }
}

/// The shortcut line under the header.
pub open spec fn help_line_spec() -> Seq<(Seq<char>, Style)> {
    seq![
        (" "@, plain_style()),
        ("[C]:CPU-Total  [c]:CPU-Cores"@, fg_style(Color::Green)),
        ("  "@, plain_style()),
        ("[m]:Mem"@, fg_style(Color::Green)),
        ("  "@, plain_style()),
        ("[d]:Disk"@, fg_style(Color::Green)),
        ("  "@, plain_style()),
        ("[n]:Net"@, fg_style(Color::Green)),
        ("  "@, plain_style()),
        ("[p]:Proc"@, fg_style(Color::Green)),
        ("  "@, plain_style()),
        ("[g]:DiffLog"@, fg_style(Color::Green)),
        (" | "@, plain_style()),
        ("[f]:Filter"@, bold_style(Color::Yellow)),
        (" | "@, plain_style()),
        ("[r]:Interval"@, bold_style(Color::Cyan)),
        ("  [q]"@, bold_style(Color::Red)),
        (" to quit"@, plain_style()),
    ]
}

/// The line of keyboard shortcuts shown under the header.
pub fn draw_help() -> (r: Line)
    ensures
        r@ == help_line_spec(),
{
    let plain = Style::plain();
    let green = Style::fg(Color::Green);
    let mut l = Line::empty();
    l.push_str(" ", plain);
    l.push_str("[C]:CPU-Total  [c]:CPU-Cores", green);
    l.push_str("  ", plain);
    l.push_str("[m]:Mem", green);
    l.push_str("  ", plain);
    l.push_str("[d]:Disk", green);
    l.push_str("  ", plain);
    l.push_str("[n]:Net", green);
    l.push_str("  ", plain);
    l.push_str("[p]:Proc", green);
    l.push_str("  ", plain);
    l.push_str("[g]:DiffLog", green);
    l.push_str(" | ", plain);
    l.push_str("[f]:Filter", Style::bold(Color::Yellow));
    l.push_str(" | ", plain);
    l.push_str("[r]:Interval", Style::bold(Color::Cyan));
    l.push_str("  [q]", Style::bold(Color::Red));
    l.push_str(" to quit", plain);
    assert(l@ =~= help_line_spec());
    l
}

/// A key of the welcome screen's guide and what it does.
pub open spec fn key_line_spec(key: Seq<char>, what: Seq<char>) -> Seq<(Seq<char>, Style)> {
    seq![("    "@, plain_style()), (key, bold_style(Color::Cyan)), (what, plain_style())]
}

fn key_line(key: &str, what: &str) -> (r: Line)
    ensures
        r@ == key_line_spec(key@, what@),
{
    let mut l = Line::empty();
    l.push_str("    ", Style::plain());
    l.push_str(key, Style::bold(Color::Cyan));
    l.push_str(what, Style::plain());
    assert(l@ =~= key_line_spec(key@, what@));
    l
}

/// The welcome screen: a greeting and a guide to the keys.
pub open spec fn welcome_screen_spec() -> Seq<Seq<(Seq<char>, Style)>> {
    seq![
        Seq::empty(),
        seq![("  "@, plain_style()), ("Welcome to MyNMON!"@, bold_style(Color::Green))],
        seq![("  A lightweight, cross-platform CLI system monitor inspired by nmon."@, plain_style())],
        seq![("  It monitors CPU, Memory, Disk, Network, and Processes in real-time."@, plain_style())],
        Seq::empty(),
        seq![("  "@, plain_style()), ("--- Interactive Keys to Show Sections ---"@, bold_style(Color::Yellow))],
        key_line_spec("C"@, " : Toggle Total CPU utilization display"@),
        key_line_spec("c"@, " : Toggle Individual CPU Core utilization display"@),
        key_line_spec("m"@, " : Toggle Memory allocation display"@),
        key_line_spec("d"@, " : Toggle Disk mounts & space display"@),
        key_line_spec("n"@, " : Toggle Network interface speed display"@),
        key_line_spec("p"@, " : Toggle Top processes display (also 't' key)"@),
        key_line_spec("g"@, " : Toggle Process Spawn/Exit history log (also 'l' key)"@),
        key_line_spec("f"@, " : Search/Filter processes by name (Enter/Esc to exit)"@),
        key_line_spec("r"@, " : Set screen refresh interval in seconds"@),
        key_line_spec("q"@, " : Quit the application (also 'Esc' key)"@),
        Seq::empty(),
        seq![
            ("  "@, plain_style()),
            ("Press any key above to start monitoring."@, Style { italic: true, ..fg_style(Color::DarkGrey) }),
        ],
        Seq::empty(),
    ]
}

/// Appends a line to a screen.
pub fn push_line(lines: &mut Vec<Line>, l: Line)
    ensures
        lines_view(final(lines)@) == lines_view(old(lines)@).push(l@),
{
    lines.push(l);
    assert(lines_view(lines@) =~= lines_view(old(lines)@).push(l@));
}

/// The welcome screen shown while every section is hidden: a greeting and a
/// guide to the keys that show sections.
pub fn draw_welcome_screen() -> (r: Vec<Line>)
    ensures
        lines_view(r@) == welcome_screen_spec(),
{
    let mut r: Vec<Line> = Vec::new();
    push_line(&mut r, Line::empty());
    let mut l = Line::empty();
    l.push_str("  ", Style::plain());
    l.push_str("Welcome to MyNMON!", Style::bold(Color::Green));
    push_line(&mut r, l);
    push_line(&mut r, Line::of("  A lightweight, cross-platform CLI system monitor inspired by nmon.", Style::plain()));
    push_line(&mut r, Line::of("  It monitors CPU, Memory, Disk, Network, and Processes in real-time.", Style::plain()));
    push_line(&mut r, Line::empty());
    let mut l = Line::empty();
    l.push_str("  ", Style::plain());
    l.push_str("--- Interactive Keys to Show Sections ---", Style::bold(Color::Yellow));
    push_line(&mut r, l);
    push_line(&mut r, key_line("C", " : Toggle Total CPU utilization display"));
    push_line(&mut r, key_line("c", " : Toggle Individual CPU Core utilization display"));
    push_line(&mut r, key_line("m", " : Toggle Memory allocation display"));
    push_line(&mut r, key_line("d", " : Toggle Disk mounts & space display"));
    push_line(&mut r, key_line("n", " : Toggle Network interface speed display"));
    push_line(&mut r, key_line("p", " : Toggle Top processes display (also 't' key)"));
    push_line(&mut r, key_line("g", " : Toggle Process Spawn/Exit history log (also 'l' key)"));
    push_line(&mut r, key_line("f", " : Search/Filter processes by name (Enter/Esc to exit)"));
    push_line(&mut r, key_line("r", " : Set screen refresh interval in seconds"));
    push_line(&mut r, key_line("q", " : Quit the application (also 'Esc' key)"));
    push_line(&mut r, Line::empty());
    let mut l = Line::empty();
    l.push_str("  ", Style::plain());
    let hint = Style { fg: Some(Color::DarkGrey), bg: None, bold: false, italic: true, underlined: false };
    l.push_str("Press any key above to start monitoring.", hint);
    push_line(&mut r, l);
    push_line(&mut r, Line::empty());
    assert(lines_view(r@) =~~= welcome_screen_spec());
    r
}

/// The text of an optional value, or `fallback` when there is none.
pub open spec fn text_or(o: Option<String>, fallback: Seq<char>) -> Seq<char> {
    match o {
        Some(t) => t@,
        None => fallback,
    }
}

fn string_or(o: Option<String>, fallback: &str) -> (r: String)
    ensures
        r@ == text_or(o, fallback@),
{
    match o {
        Some(t) => t,
        None => fallback.to_string(),
    }
}

/// A rule of `width` copies of `c` in a style.
pub open spec fn rule_spec(c: char, width: nat, style: Style) -> Seq<(Seq<char>, Style)> {
    seq![(repeat_char(c, width), style)]
}

fn rule(c: char, width: usize, style: Style) -> (r: Line)
    ensures
        r@ == rule_spec(c, width as nat, style),
{
    let mut l = Line::empty();
    l.push(Span::from_string(repeat(c, width), style));
    assert(l@ =~= rule_spec(c, width as nat, style));
    l
}

/// The header: program and version, host, operating system, kernel,
/// uptime and refresh interval. Narrow terminals drop the kernel (below 105
/// columns) and the operating system (below 90 columns) so the line never
/// wraps. A dashed rule follows.
pub open spec fn header_spec(
    width: u16,
    tick_rate: u64,
    version: Seq<char>,
    host: Seq<char>,
    os: Seq<char>,
    kernel: Seq<char>,
    uptime_secs: u64,
) -> Seq<Seq<(Seq<char>, Style)>> {
    let title = (" MyNMON v"@ + version + " "@, banner_style(Color::Green));
    let host_part = seq![(" | Host: "@, plain_style()), (host, fg_style(Color::Cyan))];
    let os_part = seq![(" | OS: "@, plain_style()), (os, fg_style(Color::Yellow))];
    let kernel_part = seq![(" | Kernel: "@, plain_style()), (kernel, fg_style(Color::Magenta))];
    let tail = seq![
        (" | Uptime: "@, plain_style()),
        (uptime_text(uptime_secs as nat), fg_style(Color::Green)),
        (" | Interval: "@, plain_style()),
        (decimal(tick_rate as nat), bold_style(Color::Yellow)),
        ("s"@, plain_style()),
    ];
    let line = if width >= 105 {
        seq![title] + host_part + os_part + kernel_part + tail
    } else if width >= 90 {
        seq![title] + host_part + os_part + tail
    } else {
        seq![title] + host_part + tail
    };
    seq![line, rule_spec('-', width as nat, fg_style(Color::DarkGrey))]
}

/// The header lines for a terminal `width` columns wide. A missing host
/// name, operating system name or kernel version shows as `Unknown`,
/// `Unknown OS` and `Unknown`.
pub fn draw_header(
    width: u16,
    tick_rate: u64,
    version: &str,
    host: Option<String>,
    os: Option<String>,
    kernel: Option<String>,
    uptime_secs: u64,
) -> (r: Vec<Line>)
    ensures
        lines_view(r@) == header_spec(
            width,
            tick_rate,
            version@,
            text_or(host, "Unknown"@),
            text_or(os, "Unknown OS"@),
            text_or(kernel, "Unknown"@),
            uptime_secs,
        ),
{
    let ghost (h0, o0, k0) = (host, os, kernel);
    let host = string_or(host, "Unknown");
    let os = string_or(os, "Unknown OS");
    let kernel = string_or(kernel, "Unknown");
    let mut title = String::new();
    push_str(&mut title, " MyNMON v");
    push_str(&mut title, version);
    push_str(&mut title, " ");
    let plain = Style::plain();
    let mut l = Line::empty();
    l.push(Span::from_string(title, Style::banner(Color::Green)));
    l.push_str(" | Host: ", plain);
    l.push(Span::from_string(host, Style::fg(Color::Cyan)));
    if width >= 90 {
        l.push_str(" | OS: ", plain);
        l.push(Span::from_string(os, Style::fg(Color::Yellow)));
    }
    if width >= 105 {
        l.push_str(" | Kernel: ", plain);
        l.push(Span::from_string(kernel, Style::fg(Color::Magenta)));
    }
    l.push_str(" | Uptime: ", plain);
    l.push(Span::from_string(format_uptime(uptime_secs), Style::fg(Color::Green)));
    l.push_str(" | Interval: ", plain);
    l.push(Span::from_string(decimal_string(tick_rate), Style::bold(Color::Yellow)));
    l.push_str("s", plain);
    let mut r: Vec<Line> = Vec::new();
    push_line(&mut r, l);
    push_line(&mut r, rule('-', width as usize, Style::fg(Color::DarkGrey)));
    assert(lines_view(r@) =~~= header_spec(
        width,
        tick_rate,
        version@,
        text_or(h0, "Unknown"@),
        text_or(o0, "Unknown OS"@),
        text_or(k0, "Unknown"@),
        uptime_secs,
    ));
    r
}

/// The status bar: the filter being typed, the interval being typed, the
/// active filter with its number of matches, or a plain rule, in that order
/// of precedence. The first three are followed by a dashed rule.
pub open spec fn status_bar_spec(width: u16, m: MonitorModel, matches_count: usize) -> Seq<Seq<(Seq<char>, Style)>> {
    let dashes = rule_spec('-', width as nat, fg_style(Color::DarkGrey));
    if m.is_filtering {
        seq![
            seq![
                (" FILTER INPUT (Enter/Esc to close): "@, banner_style(Color::Yellow)),
                (" "@, plain_style()),
                (m.filter_query, Style { underlined: true, ..plain_style() }),
            ],
            dashes,
        ]
    } else if m.is_setting_interval {
        seq![
            seq![
                (" SET INTERVAL (seconds, Enter/Esc): "@, banner_style(Color::Cyan)),
                (" "@, plain_style()),
                (m.interval_input, Style { underlined: true, ..plain_style() }),
            ],
            dashes,
        ]
    } else if m.filter_query.len() > 0 {
        seq![
            seq![
                (" Filter Active: "@, banner_style(Color::Cyan)),
                (" "@, plain_style()),
                (m.filter_query, Style { underlined: true, ..fg_style(Color::Cyan) }),
                (" | Matches: "@, plain_style()),
                (decimal(matches_count as nat), bold_style(Color::Yellow)),
            ],
            dashes,
        ]
    } else {
        seq![rule_spec('=', width as nat, fg_style(Color::Grey))]
    }
}

/// The status bar under the shortcut line. `matches_count` is the number of
/// matches of the filter among the process names; it is shown only while a
/// filter is active and not being edited.
pub fn draw_status_bar(width: u16, state: &MonitorState, matches_count: usize) -> (r: Vec<Line>)
    ensures
        lines_view(r@) == status_bar_spec(width, state@, matches_count),
{
    let mut r: Vec<Line> = Vec::new();
    let plain = Style::plain();
    let underlined = Style { fg: None, bg: None, bold: false, italic: false, underlined: true };
    if state.is_filtering {
        let mut l = Line::empty();
        l.push_str(" FILTER INPUT (Enter/Esc to close): ", Style::banner(Color::Yellow));
        l.push_str(" ", plain);
        l.push_str(state.filter_query.as_str(), underlined);
        push_line(&mut r, l);
        push_line(&mut r, rule('-', width as usize, Style::fg(Color::DarkGrey)));
    } else if state.is_setting_interval {
        let mut l = Line::empty();
        l.push_str(" SET INTERVAL (seconds, Enter/Esc): ", Style::banner(Color::Cyan));
        l.push_str(" ", plain);
        l.push_str(state.interval_input.as_str(), underlined);
        push_line(&mut r, l);
        push_line(&mut r, rule('-', width as usize, Style::fg(Color::DarkGrey)));
    } else if !state.filter_query.as_str().is_empty() {
        let mut l = Line::empty();
        l.push_str(" Filter Active: ", Style::banner(Color::Cyan));
        l.push_str(" ", plain);
        let cyan_underlined = Style { fg: Some(Color::Cyan), bg: None, bold: false, italic: false, underlined: true };
        l.push_str(state.filter_query.as_str(), cyan_underlined);
        l.push_str(" | Matches: ", plain);
        l.push(Span::from_string(decimal_string(matches_count as u64), Style::bold(Color::Yellow)));
        push_line(&mut r, l);
        push_line(&mut r, rule('-', width as usize, Style::fg(Color::DarkGrey)));
    } else {
        push_line(&mut r, rule('=', width as usize, Style::fg(Color::Grey)));
    }
    assert(lines_view(r@) =~~= status_bar_spec(width, state@, matches_count));
    r
}

/// The history entries that pass the filter (all of them without a filter).
pub open spec fn filtered_log(log: Seq<Seq<char>>, query: Seq<char>) -> Seq<Seq<char>> {
    log.filter(|e: Seq<char>| passes_filter(e, query))
}

/// Most history entries shown at once.
pub const LOG_LINES_SHOWN: usize = 10;

/// A history entry as shown: green for a started process, red otherwise.
pub open spec fn log_line_spec(entry: Seq<char>) -> Seq<(Seq<char>, Style)> {
    let color = if entry.len() > 0 && entry[0] == '+' { Color::Green } else { Color::Red };
    seq![("  "@, plain_style()), (entry, fg_style(color))]
}

/// The history section: a title, then the newest `LOG_LINES_SHOWN` entries
/// that pass the filter, or a note when there is no entry at all or none
/// passes, then an empty line.
pub open spec fn diff_log_spec(m: MonitorModel) -> Seq<Seq<(Seq<char>, Style)>> {
    let title = seq![("--- Process Spawn/Exit History Log ---"@, bold_style(Color::Magenta))];
    let shown = filtered_log(m.spawn_exit_log, m.filter_query);
    let body = if m.spawn_exit_log.len() == 0 {
        seq![seq![("  No process changes detected yet."@, plain_style())]]
    } else if shown.len() == 0 {
        seq![seq![("  No changes matching filter query."@, plain_style())]]
    } else {
        keep_last(shown, LOG_LINES_SHOWN as nat).map_values(|e: Seq<char>| log_line_spec(e))
    };
    seq![title] + body + seq![Seq::empty()]
}

fn log_line(entry: &String) -> (r: Line)
    ensures
        r@ == log_line_spec(entry@),
{
    let chars = chars_of(entry.as_str());
    let color = if chars.len() > 0 && chars[0] == '+' { Color::Green } else { Color::Red };
    let mut l = Line::empty();
    l.push_str("  ", Style::plain());
    l.push_str(entry.as_str(), Style::fg(color));
    assert(l@ =~= log_line_spec(entry@));
    l
}

/// The process start/exit history section, filtered by the process filter
/// and limited to the newest `LOG_LINES_SHOWN` entries.
pub fn draw_diff_log(state: &MonitorState) -> (r: Vec<Line>)
    ensures
        lines_view(r@) == diff_log_spec(state@),
{
    let ghost m = state@;
    let ghost shown_spec = filtered_log(m.spawn_exit_log, m.filter_query);
    let mut r: Vec<Line> = Vec::new();
    push_line(&mut r, Line::of("--- Process Spawn/Exit History Log ---", Style::bold(Color::Magenta)));
    let log = &state.spawn_exit_log;
    if log.len() == 0 {
        push_line(&mut r, Line::of("  No process changes detected yet.", Style::plain()));
    } else {
        // the entries that pass the filter, oldest first
        let mut shown: Vec<&String> = Vec::new();
        let n = log.len();
        for i in 0..n
            invariant
                n == log@.len(),
                log.deep_view() == m.spawn_exit_log,
                m == state@,
                shown@.map_values(|e: &String| e@) == filtered_log(m.spawn_exit_log.take(i as int), m.filter_query),
        {
            proof {
                let pre = m.spawn_exit_log.take(i + 1);
                assert(pre.drop_last() == m.spawn_exit_log.take(i as int));
                assert(pre.last() == log@[i as int]@);
                reveal_with_fuel(Seq::filter, 1);
            }
            let ghost before = shown@;
            if matches_filter(log[i].as_str(), state.filter_query.as_str()) {
                shown.push(&log[i]);
                assert(shown@.map_values(|e: &String| e@) =~= before.map_values(|e: &String| e@).push(log@[i as int]@));
            }
        }
        assert(m.spawn_exit_log.take(n as int) == m.spawn_exit_log);
        if shown.len() == 0 {
            push_line(&mut r, Line::of("  No changes matching filter query.", Style::plain()));
        } else {
            let k = shown.len();
            let start: usize = if k > LOG_LINES_SHOWN { k - LOG_LINES_SHOWN } else { 0 };
            let ghost kept = keep_last(shown_spec, LOG_LINES_SHOWN as nat);
            assert(kept == shown_spec.skip(start as int));
            let ghost r0 = lines_view(r@);
            for j in start..k
                invariant
                    start <= k,
                    k == shown@.len(),
                    shown@.map_values(|e: &String| e@) == shown_spec,
                    kept == shown_spec.skip(start as int),
                    lines_view(r@) == r0 + kept.take(j - start).map_values(|e: Seq<char>| log_line_spec(e)),
            {
                let l = log_line(shown[j]);
                let ghost before = lines_view(r@);
                push_line(&mut r, l);
                assert(kept.take(j + 1 - start) == kept.take(j - start).push(shown_spec[j as int]));
                assert(kept.take(j + 1 - start).map_values(|e: Seq<char>| log_line_spec(e)) =~= kept.take(
                    j - start,
                ).map_values(|e: Seq<char>| log_line_spec(e)).push(log_line_spec(shown_spec[j as int])));
            }
            assert(kept.take(k - start) == kept);
        }
    }
    push_line(&mut r, Line::empty());
    assert(lines_view(r@) =~~= diff_log_spec(m));
    r
}

/// A process as the process table shows it. The CPU and memory figures
/// arrive already formatted; `cpu_rank` orders processes as their CPU shares
/// do (a larger share has a larger rank, equal shares an equal rank).
#[derive(Clone, Debug)]
pub struct ProcessRow {
    pub pid: u32,
    pub name: String,
    pub cpu_rank: u32,
    pub cpu_text: String,
    pub mem_text: String,
}

/// Row `a` may come before row `b` in the process table: its CPU rank is
/// not smaller.
pub open spec fn by_rank() -> spec_fn(ProcessRow, ProcessRow) -> bool {
    |a: ProcessRow, b: ProcessRow| a.cpu_rank >= b.cpu_rank
}

/// The rows ordered by CPU rank, highest first, keeping the given order
/// among equal ranks (a stable sort).
pub open spec fn sort_by_rank(s: Seq<ProcessRow>) -> Seq<ProcessRow> {
    insertion_sort(s, by_rank())
}

/// `s` is ordered by CPU rank, highest first.
pub open spec fn sorted_by_rank(s: Seq<ProcessRow>) -> bool {
    forall|i: int, j: int| 0 <= i <= j < s.len() ==> s[i].cpu_rank >= s[j].cpu_rank
}

/// Ordering by CPU rank yields rows with ranks from highest to lowest that
/// are exactly the given rows.
pub proof fn law_sort_by_rank_sorted_permutation(s: Seq<ProcessRow>)
    ensures
        sorted_by_rank(sort_by_rank(s)),
        sort_by_rank(s).to_multiset() == s.to_multiset(),
{
    law_insertion_sort_sorted_permutation(s, by_rank());
    let r = sort_by_rank(s);
    assert forall|i: int, j: int| 0 <= i <= j < r.len() implies r[i].cpu_rank >= r[j].cpu_rank by {
        assert(by_rank()(r[i], r[j]));
    }
}

fn find_rank_position(sorted: &Vec<ProcessRow>, row: &ProcessRow) -> (r: usize)
    ensures
        r == insertion_point(sorted@, *row, by_rank()),
{
    let mut k = sorted.len();
    assert(sorted@.take(k as int) == sorted@);
    while k > 0
        invariant
            k <= sorted@.len(),
            insertion_point(sorted@, *row, by_rank()) == insertion_point(sorted@.take(k as int), *row, by_rank()),
        decreases k,
    {
        assert(sorted@.take(k as int).drop_last() == sorted@.take(k - 1));
        if sorted[k - 1].cpu_rank >= row.cpu_rank {
            return k;
        }
        k = k - 1;
    }
    k
}

/// The rows ordered by CPU rank, highest first (stably).
pub fn sort_process_rows(rows: &Vec<ProcessRow>) -> (r: Vec<ProcessRow>)
    ensures
        r@ == sort_by_rank(rows@),
{
    let mut sorted: Vec<ProcessRow> = Vec::new();
    let n = rows.len();
    for i in 0..n
        invariant
            n == rows@.len(),
            sorted@ == sort_by_rank(rows@.take(i as int)),
    {
        let row = ProcessRow {
            pid: rows[i].pid,
            name: rows[i].name.clone(),
            cpu_rank: rows[i].cpu_rank,
            cpu_text: rows[i].cpu_text.clone(),
            mem_text: rows[i].mem_text.clone(),
        };
        assert(row == rows@[i as int]);
        let pos = find_rank_position(&sorted, &row);
        proof {
            lemma_insertion_sort_step(rows@, i as int, by_rank());
            lemma_insertion_point_bound(sorted@, row, by_rank());
        }
        sorted.insert(pos, row);
    }
    assert(rows@.take(n as int) == rows@);
    sorted
}

/// Most processes the table shows.
pub const PROCESS_ROWS_SHOWN: usize = 8;

/// The column titles of the process table.
pub open spec fn process_header_text() -> Seq<char> {
    "  "@ + align_right("PID"@, 6) + " "@ + align_left("Process Name"@, 20) + " "@ + align_right(
        "CPU %"@,
        10,
    ) + " "@ + align_right("Memory (MB)"@, 14)
}

/// One row of the process table: id right-aligned in 6 columns, name cut
/// or padded to 20 cells, CPU share in 10 columns and memory in 14.
pub open spec fn process_row_text(r: ProcessRow) -> Seq<char> {
    "  "@ + align_right(decimal(r.pid as nat), 6) + " "@ + fit_to_width(r.name@, 20) + " "@
        + align_right(r.cpu_text@, 10) + " "@ + align_right(r.mem_text@, 14)
}

/// The rows whose process name passes the filter, in the given order.
pub open spec fn filtered_rows(rows: Seq<ProcessRow>, query: Seq<char>) -> Seq<ProcessRow> {
    rows.filter(|r: ProcessRow| passes_filter(r.name@, query))
}

/// The first `n` elements of `s` (all of them when there are fewer).
pub open spec fn keep_first<T>(s: Seq<T>, n: nat) -> Seq<T> {
    if s.len() > n {
        s.take(n as int)
    } else {
        s
    }
}

/// The process table: a title, the column titles, the first
/// `PROCESS_ROWS_SHOWN` rows by CPU rank that pass the filter, and an empty
/// line.
pub open spec fn processes_spec(rows: Seq<ProcessRow>, query: Seq<char>) -> Seq<Seq<(Seq<char>, Style)>> {
    seq![
        seq![("--- Top Active Processes by CPU Usage ---"@, bold_style(Color::DarkGrey))],
        seq![(process_header_text(), plain_style())],
    ] + keep_first(filtered_rows(sort_by_rank(rows), query), PROCESS_ROWS_SHOWN as nat).map_values(
        |r: ProcessRow| process_row_view(r),
    ) + seq![Seq::empty()]
}

/// A row of the process table as a line.
pub open spec fn process_row_view(r: ProcessRow) -> Seq<(Seq<char>, Style)> {
    seq![(process_row_text(r), plain_style())]
}

fn push_padded_right(s: &mut String, text: &str, width: usize)
    ensures
        final(s)@ == old(s)@ + align_right(text@, width as nat),
{
    let p = pad_left(text, width);
    push_str(s, p.as_str());
}

fn process_row_line(row: &ProcessRow) -> (r: Line)
    ensures
        r@ == process_row_view(*row),
{
    let mut t = String::new();
    push_str(&mut t, "  ");
    push_padded_right(&mut t, decimal_string(row.pid as u64).as_str(), 6);
    push_str(&mut t, " ");
    push_str(&mut t, pad_or_truncate(row.name.as_str(), 20).as_str());
    push_str(&mut t, " ");
    push_padded_right(&mut t, row.cpu_text.as_str(), 10);
    push_str(&mut t, " ");
    push_padded_right(&mut t, row.mem_text.as_str(), 14);
    let mut l = Line::empty();
    l.push(Span::from_string(t, Style::plain()));
    assert(l@ =~= process_row_view(*row));
    l
}

/// The process table: the processes whose name passes the filter `query`,
/// highest CPU share first, at most `PROCESS_ROWS_SHOWN` of them.
pub fn draw_processes(all_rows: &Vec<ProcessRow>, query: &str) -> (r: Vec<Line>)
    ensures
        lines_view(r@) == processes_spec(all_rows@, query@),
{
    let sorted = sort_process_rows(all_rows);
    let rows = &sorted;
    let mut r: Vec<Line> = Vec::new();
    push_line(&mut r, Line::of("--- Top Active Processes by CPU Usage ---", Style::bold(Color::DarkGrey)));
    let mut h = String::new();
    push_str(&mut h, "  ");
    push_padded_right(&mut h, "PID", 6);
    push_str(&mut h, " ");
    push_str(&mut h, pad_right("Process Name", 20).as_str());
    push_str(&mut h, " ");
    push_padded_right(&mut h, "CPU %", 10);
    push_str(&mut h, " ");
    push_padded_right(&mut h, "Memory (MB)", 14);
    let mut hl = Line::empty();
    hl.push(Span::from_string(h, Style::plain()));
    push_line(&mut r, hl);
    let ghost r0 = lines_view(r@);
    let mut shown: usize = 0;
    let n = rows.len();
    for i in 0..n
        invariant
            n == rows@.len(),
            shown == keep_first(filtered_rows(rows@.take(i as int), query@), PROCESS_ROWS_SHOWN as nat).len(),
            lines_view(r@) == r0 + keep_first(filtered_rows(rows@.take(i as int), query@), PROCESS_ROWS_SHOWN as nat).map_values(|x: ProcessRow| process_row_view(x)),
    {
        let ghost pre = rows@.take(i + 1);
        proof {
            assert(pre.drop_last() == rows@.take(i as int));
            reveal_with_fuel(Seq::filter, 1);
        }
        let ghost f0 = filtered_rows(rows@.take(i as int), query@);
        if matches_filter(rows[i].name.as_str(), query) {
            assert(filtered_rows(pre, query@) == f0.push(rows@[i as int]));
            if shown < PROCESS_ROWS_SHOWN {
                let ghost before = lines_view(r@);
                let l = process_row_line(&rows[i]);
                assert(l@ == process_row_view(rows@[i as int]));
                push_line(&mut r, l);
                shown = shown + 1;
                let ghost kf = keep_first(f0, PROCESS_ROWS_SHOWN as nat).map_values(|x: ProcessRow| process_row_view(x));
                assert(r0 + kf.push(l@) =~= (r0 + kf).push(l@));
                assert(keep_first(f0.push(rows@[i as int]), PROCESS_ROWS_SHOWN as nat) =~= keep_first(f0, PROCESS_ROWS_SHOWN as nat).push(rows@[i as int]));
                assert(keep_first(f0.push(rows@[i as int]), PROCESS_ROWS_SHOWN as nat).map_values(|x: ProcessRow| process_row_view(x)) =~= keep_first(f0, PROCESS_ROWS_SHOWN as nat).map_values(|x: ProcessRow| process_row_view(x)).push(process_row_view(rows@[i as int])));
            } else {
                assert(keep_first(f0.push(rows@[i as int]), PROCESS_ROWS_SHOWN as nat) =~= keep_first(f0, PROCESS_ROWS_SHOWN as nat));
            }
        } else {
            assert(filtered_rows(pre, query@) == f0);
        }
    }
    assert(rows@.take(n as int) == rows@);
    push_line(&mut r, Line::empty());
    assert(lines_view(r@) =~~= processes_spec(all_rows@, query@));
    r
}

/// `a` comes before `b` or equals it in dictionary order of code points,
/// which is the order of `String` comparison.
pub open spec fn text_le(a: Seq<char>, b: Seq<char>) -> bool
    decreases a.len(),
{
    if a.len() == 0 {
        true
    } else if b.len() == 0 {
        false
    } else if a[0] != b[0] {
        a[0] < b[0]
    } else {
        text_le(a.drop_first(), b.drop_first())
    }
}

proof fn lemma_text_le_total(a: Seq<char>, b: Seq<char>)
    ensures
        text_le(a, b) || text_le(b, a),
    decreases a.len(),
{
    if a.len() > 0 && b.len() > 0 {
        if a[0] == b[0] {
            lemma_text_le_total(a.drop_first(), b.drop_first());
        } else {
        }
    }
}

proof fn lemma_text_le_transitive(a: Seq<char>, b: Seq<char>, c: Seq<char>)
    requires
        text_le(a, b),
        text_le(b, c),
    ensures
        text_le(a, c),
    decreases a.len(),
{
    if a.len() > 0 && b.len() > 0 && c.len() > 0 && a[0] == b[0] && b[0] == c[0] {
        lemma_text_le_transitive(a.drop_first(), b.drop_first(), c.drop_first());
    }
}

/// Whether `a` comes before `b` or equals it in dictionary order.
pub fn text_less_or_equal(a: &str, b: &str) -> (r: bool)
    ensures
        r == text_le(a@, b@),
{
    let x = chars_of(a);
    let y = chars_of(b);
    let mut i: usize = 0;
    assert(a@.skip(0) == a@ && b@.skip(0) == b@);
    while i < x.len() && i < y.len()
        invariant
            x@ == a@,
            y@ == b@,
            i <= x@.len(),
            i <= y@.len(),
            text_le(a@, b@) == text_le(a@.skip(i as int), b@.skip(i as int)),
        decreases x@.len() - i,
    {
        assert(a@.skip(i as int)[0] == x@[i as int]);
        assert(b@.skip(i as int)[0] == y@[i as int]);
        if x[i] != y[i] {
            return x[i] < y[i];
        }
        assert(a@.skip(i as int).drop_first() == a@.skip(i + 1));
        assert(b@.skip(i as int).drop_first() == b@.skip(i + 1));
        i = i + 1;
    }
    i == x.len()
}

/// A network interface as the network section shows it. The speeds arrive
/// already formatted.
#[derive(Clone, Debug)]
pub struct NetRow {
    pub name: String,
    pub rx_text: String,
    pub tx_text: String,
}

/// Row `a` may come before row `b` in the network list: its name does not
/// come after `b`'s in dictionary order.
pub open spec fn by_name() -> spec_fn(NetRow, NetRow) -> bool {
    |a: NetRow, b: NetRow| text_le(a.name@, b.name@)
}

/// The rows sorted by interface name, stably.
pub open spec fn sort_by_name(s: Seq<NetRow>) -> Seq<NetRow> {
    insertion_sort(s, by_name())
}

/// `s` is in dictionary order of interface names.
pub open spec fn sorted_by_name(s: Seq<NetRow>) -> bool {
    forall|i: int, j: int| 0 <= i <= j < s.len() ==> text_le(s[i].name@, s[j].name@)
}

proof fn lemma_by_name_total_preorder()
    ensures
        total_preorder(by_name()),
{
    assert forall|a: NetRow, b: NetRow| #[trigger] by_name()(a, b) || by_name()(b, a) by {
        lemma_text_le_total(a.name@, b.name@);
    }
    assert forall|a: NetRow, b: NetRow, c: NetRow|
        #[trigger] by_name()(a, b) && #[trigger] by_name()(b, c) implies by_name()(a, c) by {
        lemma_text_le_transitive(a.name@, b.name@, c.name@);
    }
}

/// Sorting by name yields rows in dictionary order of their names that are
/// exactly the given rows.
pub proof fn law_sort_by_name_sorted_permutation(s: Seq<NetRow>)
    ensures
        sorted_by_name(sort_by_name(s)),
        sort_by_name(s).to_multiset() == s.to_multiset(),
{
    lemma_by_name_total_preorder();
    law_insertion_sort_sorted_permutation(s, by_name());
    let r = sort_by_name(s);
    assert forall|i: int, j: int| 0 <= i <= j < r.len() implies text_le(r[i].name@, r[j].name@) by {
        assert(by_name()(r[i], r[j]));
    }
}

fn find_name_position(sorted: &Vec<NetRow>, row: &NetRow) -> (r: usize)
    ensures
        r == insertion_point(sorted@, *row, by_name()),
{
    let mut k = sorted.len();
    assert(sorted@.take(k as int) == sorted@);
    while k > 0
        invariant
            k <= sorted@.len(),
            insertion_point(sorted@, *row, by_name()) == insertion_point(sorted@.take(k as int), *row, by_name()),
        decreases k,
    {
        assert(sorted@.take(k as int).drop_last() == sorted@.take(k - 1));
        if text_less_or_equal(sorted[k - 1].name.as_str(), row.name.as_str()) {
            return k;
        }
        k = k - 1;
    }
    k
}

/// The rows sorted by interface name (stably), as the network section lists them.
pub fn sort_net_rows(rows: &Vec<NetRow>) -> (r: Vec<NetRow>)
    ensures
        r@ == sort_by_name(rows@),
{
    let mut sorted: Vec<NetRow> = Vec::new();
    let n = rows.len();
    for i in 0..n
        invariant
            n == rows@.len(),
            sorted@ == sort_by_name(rows@.take(i as int)),
    {
        let row = NetRow {
            name: rows[i].name.clone(),
            rx_text: rows[i].rx_text.clone(),
            tx_text: rows[i].tx_text.clone(),
        };
        assert(row == rows@[i as int]);
        let pos = find_name_position(&sorted, &row);
        proof {
            lemma_insertion_sort_step(rows@, i as int, by_name());
            lemma_insertion_point_bound(sorted@, row, by_name());
        }
        sorted.insert(pos, row);
    }
    assert(rows@.take(n as int) == rows@);
    sorted
}

/// One interface of the network section: its name cut or padded to 16
/// cells, then the receive and transmit speeds.
pub open spec fn net_row_view(r: NetRow) -> Seq<(Seq<char>, Style)> {
    seq![(
        "  "@ + fit_to_width(r.name@, 16) + " : Rx: "@ + r.rx_text@ + " KB/s | Tx: "@ + r.tx_text@
            + " KB/s"@,
        plain_style(),
    )]
}

/// The network section: a title, one line per interface in dictionary order
/// of names, and an empty line.
pub open spec fn network_spec(rows: Seq<NetRow>) -> Seq<Seq<(Seq<char>, Style)>> {
    seq![seq![("--- Network Interface I/O speeds ---"@, bold_style(Color::Blue))]]
        + sort_by_name(rows).map_values(|r: NetRow| net_row_view(r)) + seq![Seq::empty()]
}

/// The network section for the given interfaces, listed in dictionary order
/// of their names.
pub fn draw_network(rows: &Vec<NetRow>) -> (r: Vec<Line>)
    ensures
        lines_view(r@) == network_spec(rows@),
{
    let sorted = sort_net_rows(rows);
    let mut r: Vec<Line> = Vec::new();
    push_line(&mut r, Line::of("--- Network Interface I/O speeds ---", Style::bold(Color::Blue)));
    let ghost r0 = lines_view(r@);
    let n = sorted.len();
    for i in 0..n
        invariant
            n == sorted@.len(),
            lines_view(r@) == r0 + sorted@.take(i as int).map_values(|x: NetRow| net_row_view(x)),
    {
        let row = &sorted[i];
        let mut t = String::new();
        push_str(&mut t, "  ");
        push_str(&mut t, pad_or_truncate(row.name.as_str(), 16).as_str());
        push_str(&mut t, " : Rx: ");
        push_str(&mut t, row.rx_text.as_str());
        push_str(&mut t, " KB/s | Tx: ");
        push_str(&mut t, row.tx_text.as_str());
        push_str(&mut t, " KB/s");
        let mut l = Line::empty();
        l.push(Span::from_string(t, Style::plain()));
        assert(l@ =~= net_row_view(*row));
        let ghost before = sorted@.take(i as int).map_values(|x: NetRow| net_row_view(x));
        push_line(&mut r, l);
        assert(sorted@.take(i + 1).map_values(|x: NetRow| net_row_view(x)) =~= before.push(l@));
        assert(r0 + before.push(l@) =~= (r0 + before).push(l@));
    }
    assert(sorted@.take(n as int) == sorted@);
    push_line(&mut r, Line::empty());
    assert(lines_view(r@) =~~= network_spec(rows@));
    r
}

/// Smallest terminal the monitor draws on.
pub const MIN_WIDTH: u16 = 80;
/// Smallest terminal the monitor draws on.
pub const MIN_HEIGHT: u16 = 20;

/// A part of the screen below the header, help line and status bar.
#[derive(Clone, Copy, Debug, PartialEq, Eq, Structural)]
pub enum Panel {
    Welcome,
    CpuTotal,
    CpuCores,
    Memory,
    Disk,
    Network,
    Processes,
    DiffLog,
}

/// `p` when `shown`, nothing otherwise.
pub open spec fn panel_if(shown: bool, p: Panel) -> Seq<Panel> {
    if shown {
        seq![p]
    } else {
        Seq::empty()
    }
}

/// What the screen shows: nothing but a size warning on a terminal smaller
/// than `MIN_WIDTH` by `MIN_HEIGHT`; otherwise the welcome screen when every
/// section is hidden, then the shown sections in a fixed order.
pub open spec fn layout_spec(m: MonitorModel, width: u16, height: u16) -> Option<Seq<Panel>> {
    if width < MIN_WIDTH || height < MIN_HEIGHT {
        None
    } else {
        Some(
            panel_if(m.all_hidden(), Panel::Welcome) + panel_if(m.show_cpu_total, Panel::CpuTotal)
                + panel_if(m.show_cpu_cores, Panel::CpuCores) + panel_if(m.show_mem, Panel::Memory)
                + panel_if(m.show_disk, Panel::Disk) + panel_if(m.show_net, Panel::Network)
                + panel_if(m.show_proc, Panel::Processes) + panel_if(m.show_diff, Panel::DiffLog),
        )
    }
}

fn push_panel_if(panels: &mut Vec<Panel>, shown: bool, p: Panel)
    ensures
        final(panels)@ == old(panels)@ + panel_if(shown, p),
{
    if shown {
        panels.push(p);
    }
    assert(panels@ =~= old(panels)@ + panel_if(shown, p));
}

/// Decides what a frame shows on a `width` by `height` terminal: `None` for
/// the size warning, otherwise the panels to draw below the status bar, in
/// order.
pub fn screen_layout(state: &MonitorState, width: u16, height: u16) -> (r: Option<Vec<Panel>>)
    ensures
        match layout_spec(state@, width, height) {
            None => r is None,
            Some(ps) => r matches Some(v) && v@ == ps,
        },
{
    if width < MIN_WIDTH || height < MIN_HEIGHT {
        return None;
    }
    let mut panels: Vec<Panel> = Vec::new();
    push_panel_if(&mut panels, state.all_hidden(), Panel::Welcome);
    push_panel_if(&mut panels, state.show_cpu_total, Panel::CpuTotal);
    push_panel_if(&mut panels, state.show_cpu_cores, Panel::CpuCores);
    push_panel_if(&mut panels, state.show_mem, Panel::Memory);
    push_panel_if(&mut panels, state.show_disk, Panel::Disk);
    push_panel_if(&mut panels, state.show_net, Panel::Network);
    push_panel_if(&mut panels, state.show_proc, Panel::Processes);
    push_panel_if(&mut panels, state.show_diff, Panel::DiffLog);
    Some(panels)
}

/// The warning shown instead of the monitor on a terminal that is too small.
pub open spec fn size_error_spec(width: u16, height: u16) -> Seq<Seq<(Seq<char>, Style)>> {
    seq![
        seq![("--- Terminal Size Error ---"@, bold_style(Color::Red))],
        seq![("Current size: "@ + decimal(width as nat) + "x"@ + decimal(height as nat), plain_style())],
        seq![("Please resize your terminal to at least 80x20."@, plain_style())],
    ]
}

/// The size warning for a `width` by `height` terminal.
pub fn draw_size_error(width: u16, height: u16) -> (r: Vec<Line>)
    ensures
        lines_view(r@) == size_error_spec(width, height),
{
    let mut r: Vec<Line> = Vec::new();
    push_line(&mut r, Line::of("--- Terminal Size Error ---", Style::bold(Color::Red)));
    let mut t = String::new();
    push_str(&mut t, "Current size: ");
    push_str(&mut t, decimal_string(width as u64).as_str());
    push_str(&mut t, "x");
    push_str(&mut t, decimal_string(height as u64).as_str());
    let mut l = Line::empty();
    l.push(Span::from_string(t, Style::plain()));
    push_line(&mut r, l);
    push_line(&mut r, Line::of("Please resize your terminal to at least 80x20.", Style::plain()));
    assert(lines_view(r@) =~~= size_error_spec(width, height));
    r
}

/// Whether the layout of a frame that fits on the terminal holds panel `p`.
pub open spec fn panel_wanted(m: MonitorModel, p: Panel) -> bool {
    match p {
        Panel::Welcome => m.all_hidden(),
        Panel::CpuTotal => m.show_cpu_total,
        Panel::CpuCores => m.show_cpu_cores,
        Panel::Memory => m.show_mem,
        Panel::Disk => m.show_disk,
        Panel::Network => m.show_net,
        Panel::Processes => m.show_proc,
        Panel::DiffLog => m.show_diff,
    }
}

proof fn lemma_contains_concat(a: Seq<Panel>, b: Seq<Panel>, p: Panel)
    ensures
        (a + b).contains(p) <==> a.contains(p) || b.contains(p),
{
    if a.contains(p) {
        let i = choose|i: int| 0 <= i < a.len() && a[i] == p;
        assert((a + b)[i] == p);
    }
    if b.contains(p) {
        let i = choose|i: int| 0 <= i < b.len() && b[i] == p;
        assert((a + b)[a.len() + i] == p);
    }
    if (a + b).contains(p) {
        let i = choose|i: int| 0 <= i < (a + b).len() && (a + b)[i] == p;
        if i < a.len() {
            assert(a[i] == p);
        } else {
            assert(b[i - a.len()] == p);
        }
    }
}

proof fn lemma_panel_if_contains(shown: bool, q: Panel, p: Panel)
    ensures
        panel_if(shown, q).contains(p) <==> shown && q == p,
{
    if shown {
        assert(panel_if(shown, q)[0] == q);
    }
}

/// The welcome screen and the sections exclude each other: on a terminal
/// large enough, a frame shows each section exactly when it is switched on,
/// and the welcome screen exactly when every section is off.
pub proof fn law_layout_shows_what_is_switched_on(m: MonitorModel, width: u16, height: u16, p: Panel)
    requires
        width >= MIN_WIDTH,
        height >= MIN_HEIGHT,
    ensures
        layout_spec(m, width, height) is Some,
        layout_spec(m, width, height).unwrap().contains(p) <==> panel_wanted(m, p),
{
    let s0 = panel_if(m.all_hidden(), Panel::Welcome);
    let s1 = panel_if(m.show_cpu_total, Panel::CpuTotal);
    let s2 = panel_if(m.show_cpu_cores, Panel::CpuCores);
    let s3 = panel_if(m.show_mem, Panel::Memory);
    let s4 = panel_if(m.show_disk, Panel::Disk);
    let s5 = panel_if(m.show_net, Panel::Network);
    let s6 = panel_if(m.show_proc, Panel::Processes);
    let s7 = panel_if(m.show_diff, Panel::DiffLog);
    lemma_contains_concat(s0, s1, p);
    lemma_contains_concat(s0 + s1, s2, p);
    lemma_contains_concat(s0 + s1 + s2, s3, p);
    lemma_contains_concat(s0 + s1 + s2 + s3, s4, p);
    lemma_contains_concat(s0 + s1 + s2 + s3 + s4, s5, p);
    lemma_contains_concat(s0 + s1 + s2 + s3 + s4 + s5, s6, p);
    lemma_contains_concat(s0 + s1 + s2 + s3 + s4 + s5 + s6, s7, p);
    lemma_panel_if_contains(m.all_hidden(), Panel::Welcome, p);
    lemma_panel_if_contains(m.show_cpu_total, Panel::CpuTotal, p);
    lemma_panel_if_contains(m.show_cpu_cores, Panel::CpuCores, p);
    lemma_panel_if_contains(m.show_mem, Panel::Memory, p);
    lemma_panel_if_contains(m.show_disk, Panel::Disk, p);
    lemma_panel_if_contains(m.show_net, Panel::Network, p);
    lemma_panel_if_contains(m.show_proc, Panel::Processes, p);
    lemma_panel_if_contains(m.show_diff, Panel::DiffLog, p);
}


/// Where a panel stands in the screen's fixed top-to-bottom order: the
/// welcome screen, total CPU, per-core CPU, memory, disks, network,
/// processes, then the history.
pub open spec fn panel_position(p: Panel) -> nat {
    match p {
        Panel::Welcome => 0,
        Panel::CpuTotal => 1,
        Panel::CpuCores => 2,
        Panel::Memory => 3,
        Panel::Disk => 4,
        Panel::Network => 5,
        Panel::Processes => 6,
        Panel::DiffLog => 7,
    }
}

/// Each panel of `ps` stands above every panel that comes later in the
/// fixed order, and none occurs twice.
pub open spec fn in_screen_order(ps: Seq<Panel>) -> bool {
    forall|i: int, j: int|
        0 <= i < j < ps.len() ==> panel_position(#[trigger] ps[i]) < panel_position(#[trigger] ps[j])
}

proof fn lemma_in_screen_order_step(a: Seq<Panel>, shown: bool, p: Panel)
    requires
        in_screen_order(a),
        forall|i: int| 0 <= i < a.len() ==> panel_position(#[trigger] a[i]) < panel_position(p),
    ensures
        in_screen_order(a + panel_if(shown, p)),
        forall|i: int|
            0 <= i < (a + panel_if(shown, p)).len() ==> panel_position(#[trigger] (a + panel_if(shown, p))[i])
                <= panel_position(p),
{
    let b = a + panel_if(shown, p);
    assert forall|i: int| 0 <= i < b.len() implies panel_position(#[trigger] b[i]) <= panel_position(p) by {
        if i < a.len() {
            assert(b[i] == a[i]);
        } else {
            assert(b[i] == p);
        }
    }
    assert forall|i: int, j: int| 0 <= i < j < b.len() implies panel_position(#[trigger] b[i]) < panel_position(
        #[trigger] b[j],
    ) by {
        if j < a.len() {
            assert(b[i] == a[i] && b[j] == a[j]);
        } else {
            assert(b[j] == p);
            assert(b[i] == a[i]);
        }
    }
}

/// The panels of a frame keep the fixed screen order: whatever is switched
/// on, of any two panels shown the one earlier in the order welcome, total
/// CPU, per-core CPU, memory, disks, network, processes, history stands
/// above the other, and no panel is shown twice.
pub proof fn law_layout_keeps_screen_order(m: MonitorModel, width: u16, height: u16)
    requires
        width >= MIN_WIDTH,
        height >= MIN_HEIGHT,
    ensures
        layout_spec(m, width, height) is Some,
        in_screen_order(layout_spec(m, width, height).unwrap()),
{
    let e = Seq::<Panel>::empty();
    let s0 = panel_if(m.all_hidden(), Panel::Welcome);
    let s1 = panel_if(m.show_cpu_total, Panel::CpuTotal);
    let s2 = panel_if(m.show_cpu_cores, Panel::CpuCores);
    let s3 = panel_if(m.show_mem, Panel::Memory);
    let s4 = panel_if(m.show_disk, Panel::Disk);
    let s5 = panel_if(m.show_net, Panel::Network);
    let s6 = panel_if(m.show_proc, Panel::Processes);
    let s7 = panel_if(m.show_diff, Panel::DiffLog);
    assert(e + s0 == s0);
    lemma_in_screen_order_step(e, m.all_hidden(), Panel::Welcome);
    lemma_in_screen_order_step(s0, m.show_cpu_total, Panel::CpuTotal);
    lemma_in_screen_order_step(s0 + s1, m.show_cpu_cores, Panel::CpuCores);
    lemma_in_screen_order_step(s0 + s1 + s2, m.show_mem, Panel::Memory);
    lemma_in_screen_order_step(s0 + s1 + s2 + s3, m.show_disk, Panel::Disk);
    lemma_in_screen_order_step(s0 + s1 + s2 + s3 + s4, m.show_net, Panel::Network);
    lemma_in_screen_order_step(s0 + s1 + s2 + s3 + s4 + s5, m.show_proc, Panel::Processes);
    lemma_in_screen_order_step(s0 + s1 + s2 + s3 + s4 + s5 + s6, m.show_diff, Panel::DiffLog);
}

} // verus!
