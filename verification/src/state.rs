//! The monitor's interactive state and the rules by which key presses and
//! process snapshots change it.
use vstd::prelude::*;
use crate::text::{decimal, decimal_string, is_numeric, law_parse_decimal_roundtrip, numeric_char, parse_u64, parse_u64_spec, push_char, push_str};
use crate::utils::{parse_proc_line, proc_fields};

verus! {

/// Most entries the spawn/exit history keeps.
pub const LOG_CAPACITY: usize = 50;

/// A key as the monitor sees it.
#[derive(Clone, Copy, Debug, PartialEq, Eq, Structural)]
pub enum Key {
    Char(char),
    Enter,
    Esc,
    Backspace,
    Other,
}

/// Whether a key went down, repeats while held, or went up.
#[derive(Clone, Copy, Debug, PartialEq, Eq, Structural)]
pub enum KeyKind {
    Press,
    Repeat,
    Release,
}

/// What the event loop does after a key.
#[derive(Clone, Copy, Debug, PartialEq, Eq, Structural)]
pub enum Control {
    Continue,
    Quit,
}

/// How one line of the process list changed between two snapshots.
#[derive(Clone, Copy, Debug, PartialEq, Eq, Structural)]
pub enum DiffKind {
    Added,
    Removed,
    Unchanged,
}

/// One line of a line-by-line comparison of two process lists.
#[derive(Clone, Debug)]
pub struct ProcessDiff {
    pub kind: DiffKind,
    pub value: String,
}

/// The monitor's state: which sections are shown, the process filter, the
/// history of started and ended processes, and the refresh interval.
pub struct MonitorState {
    /// Show the total CPU utilization.
    pub show_cpu_total: bool,
    /// Show the utilization of each CPU core.
    pub show_cpu_cores: bool,
    /// Show memory usage.
    pub show_mem: bool,
    /// Show free disk space.
    pub show_disk: bool,
    /// Show network speeds.
    pub show_net: bool,
    /// Show the process list.
    pub show_proc: bool,
    /// Show the process start/exit history.
    pub show_diff: bool,
    /// The process name filter.
    pub filter_query: String,
    /// Keys currently edit the filter.
    pub is_filtering: bool,
    /// The process list of the previous snapshot, one `PID:name` line per process.
    pub last_process_list: String,
    /// History of started (`+`) and ended (`-`) processes, oldest first.
    pub spawn_exit_log: Vec<String>,
    /// The refresh interval, in whole seconds.
    pub tick_rate: u64,
    /// Keys currently edit the refresh interval.
    pub is_setting_interval: bool,
    /// The refresh interval being typed.
    pub interval_input: String,
}

/// The mathematical content of a `MonitorState`.
#[verifier::ext_equal]
pub struct MonitorModel {
    pub show_cpu_total: bool,
    pub show_cpu_cores: bool,
    pub show_mem: bool,
    pub show_disk: bool,
    pub show_net: bool,
    pub show_proc: bool,
    pub show_diff: bool,
    pub filter_query: Seq<char>,
    pub is_filtering: bool,
    pub last_process_list: Seq<char>,
    pub spawn_exit_log: Seq<Seq<char>>,
    pub tick_rate: u64,
    pub is_setting_interval: bool,
    pub interval_input: Seq<char>,
}

impl View for MonitorState {
    type V = MonitorModel;

    open spec fn view(&self) -> MonitorModel {
        MonitorModel {
            show_cpu_total: self.show_cpu_total,
            show_cpu_cores: self.show_cpu_cores,
            show_mem: self.show_mem,
            show_disk: self.show_disk,
            show_net: self.show_net,
            show_proc: self.show_proc,
            show_diff: self.show_diff,
            filter_query: self.filter_query@,
            is_filtering: self.is_filtering,
            last_process_list: self.last_process_list@,
            spawn_exit_log: self.spawn_exit_log.deep_view(),
            tick_rate: self.tick_rate,
            is_setting_interval: self.is_setting_interval,
            interval_input: self.interval_input@,
        }
    }
}

impl MonitorModel {
    /// The states the monitor can be in: a refresh interval of at least a
    /// second, a bounded history, and at most one input mode at a time.
    pub open spec fn wf(self) -> bool {
        &&& self.tick_rate >= 1
        &&& self.spawn_exit_log.len() <= LOG_CAPACITY
        &&& !(self.is_filtering && self.is_setting_interval)
    }

    /// Neither the filter nor the interval is being edited.
    pub open spec fn in_normal_mode(self) -> bool {
        !self.is_filtering && !self.is_setting_interval
    }

    /// No section is shown.
    pub open spec fn all_hidden(self) -> bool {
        !self.show_cpu_total && !self.show_cpu_cores && !self.show_mem && !self.show_disk
            && !self.show_net && !self.show_proc && !self.show_diff
    }
}

/// `s` without its last character (unchanged when empty), as `String::pop` leaves it.
pub open spec fn without_last(s: Seq<char>) -> Seq<char> {
    if s.len() > 0 {
        s.drop_last()
    } else {
        s
    }
}

/// The state after a key press while the filter is edited.
pub open spec fn filter_step(m: MonitorModel, key: Key) -> MonitorModel {
    match key {
        Key::Enter | Key::Esc => MonitorModel { is_filtering: false, ..m },
        Key::Backspace => MonitorModel { filter_query: without_last(m.filter_query), ..m },
        Key::Char(c) => MonitorModel { filter_query: m.filter_query.push(c), ..m },
        Key::Other => m,
    }
}

/// The state after a key press while the refresh interval is edited: Enter
/// applies a typed whole number of seconds of at least one, Esc cancels,
/// Backspace deletes, and only numeric characters are typed.
pub open spec fn interval_step(m: MonitorModel, key: Key) -> MonitorModel {
    match key {
        Key::Enter => {
            let tick_rate = match parse_u64_spec(m.interval_input) {
                Some(secs) => if secs >= 1 { secs } else { m.tick_rate },
                None => m.tick_rate,
            };
            MonitorModel { tick_rate, is_setting_interval: false, ..m }
        },
        Key::Esc => MonitorModel { is_setting_interval: false, ..m },
        Key::Backspace => MonitorModel { interval_input: without_last(m.interval_input), ..m },
        Key::Char(c) => if numeric_char(c) {
            MonitorModel { interval_input: m.interval_input.push(c), ..m }
        } else {
            m
        },
        Key::Other => m,
    }
}

/// The state after a key press in normal mode: section toggles, `f` to edit
/// the filter and `r` to edit the interval, starting from the current one.
pub open spec fn normal_step(m: MonitorModel, key: Key) -> MonitorModel {
    match key {
        Key::Char(c) => {
            if c == 'c' {
                MonitorModel { show_cpu_cores: !m.show_cpu_cores, ..m }
            } else if c == 'C' {
                MonitorModel { show_cpu_total: !m.show_cpu_total, ..m }
            } else if c == 'm' {
                MonitorModel { show_mem: !m.show_mem, ..m }
            } else if c == 'd' {
                MonitorModel { show_disk: !m.show_disk, ..m }
            } else if c == 'n' {
                MonitorModel { show_net: !m.show_net, ..m }
            } else if c == 'p' || c == 't' {
                MonitorModel { show_proc: !m.show_proc, ..m }
            } else if c == 'g' || c == 'l' {
                MonitorModel { show_diff: !m.show_diff, ..m }
            } else if c == 'f' {
                MonitorModel { is_filtering: true, ..m }
            } else if c == 'r' {
                MonitorModel {
                    interval_input: decimal(m.tick_rate as nat),
                    is_setting_interval: true,
                    ..m
                }
            } else {
                m
            }
        },
        _ => m,
    }
}

/// A key quits the monitor: `q` or Esc pressed in normal mode.
pub open spec fn quits(m: MonitorModel, key: Key, kind: KeyKind) -> bool {
    kind == KeyKind::Press && m.in_normal_mode() && (key == Key::Char('q') || key == Key::Esc)
}

/// The state after a key event. Only presses count; a key that quits leaves
/// the state as it is.
pub open spec fn key_step(m: MonitorModel, key: Key, kind: KeyKind) -> MonitorModel {
    if kind != KeyKind::Press || quits(m, key, kind) {
        m
    } else if m.is_filtering {
        filter_step(m, key)
    } else if m.is_setting_interval {
        interval_step(m, key)
    } else {
        normal_step(m, key)
    }
}

/// The history entry for one diff line: `+ name (PID: id)` for a started
/// process, `- name (PID: id)` for an ended one, none for an unchanged line or
/// a line without `:`.
pub open spec fn diff_entry(kind: DiffKind, value: Seq<char>) -> Option<Seq<char>> {
    match proc_fields(value) {
        Some((pid, name)) => match kind {
            DiffKind::Added => Some("+ "@ + name + " (PID: "@ + pid + ")"@),
            DiffKind::Removed => Some("- "@ + name + " (PID: "@ + pid + ")"@),
            DiffKind::Unchanged => None,
        },
        None => None,
    }
}

/// The history entries for a sequence of diff lines, in order.
pub open spec fn diff_entries(diffs: Seq<(DiffKind, Seq<char>)>) -> Seq<Seq<char>>
    decreases diffs.len(),
{
    if diffs.len() == 0 {
        Seq::empty()
    } else {
        let prefix = diff_entries(diffs.drop_last());
        match diff_entry(diffs.last().0, diffs.last().1) {
            Some(e) => prefix.push(e),
            None => prefix,
        }
    }
}

/// The last `n` elements of `s` (all of them when there are fewer).
pub open spec fn keep_last<T>(s: Seq<T>, n: nat) -> Seq<T> {
    if s.len() > n {
        s.skip(s.len() - n)
    } else {
        s
    }
}

/// The plain values of a list of diff lines.
pub open spec fn diffs_view(diffs: Seq<ProcessDiff>) -> Seq<(DiffKind, Seq<char>)> {
    diffs.map_values(|d: ProcessDiff| (d.kind, d.value@))
}

/// The state after a new process snapshot `current`. The first snapshot is
/// only remembered; later ones extend the history by the entries for the
/// lines that differ from the previous snapshot, of which the history keeps
/// the newest `LOG_CAPACITY`.
pub open spec fn snapshot_step(m: MonitorModel, current: Seq<char>, diffs: Seq<(DiffKind, Seq<char>)>) -> MonitorModel {
    if m.last_process_list.len() == 0 {
        MonitorModel { last_process_list: current, ..m }
    } else {
        MonitorModel {
            last_process_list: current,
            spawn_exit_log: keep_last(m.spawn_exit_log + diff_entries(diffs), LOG_CAPACITY as nat),
            ..m
        }
    }
}

/// Removes the last character of a string, as std's `String::pop` does:
/// `None` and no change for an empty string.
#[verifier::external_body]
fn pop_char(s: &mut String) -> (r: Option<char>)
    ensures
        final(s)@ == without_last(old(s)@),
        old(s)@.len() > 0 ==> r == Some(old(s)@.last()),
        old(s)@.len() == 0 ==> r is None,
{
    s.pop()
}

/// The history entry for one diff line, if it describes a started or ended process.
pub fn history_entry(d: &ProcessDiff) -> (r: Option<String>)
    ensures
        match diff_entry(d.kind, d.value@) {
            None => r is None,
            Some(e) => r matches Some(x) && x@ == e,
        },
{
    match d.kind {
        DiffKind::Unchanged => None,
        DiffKind::Added | DiffKind::Removed => {
            match parse_proc_line(d.value.as_str()) {
                Some((pid, name)) => {
                    let mut entry = String::new();
                    if d.kind == DiffKind::Added {
                        push_str(&mut entry, "+ ");
                    } else {
                        push_str(&mut entry, "- ");
                    }
                    push_str(&mut entry, name.as_str());
                    push_str(&mut entry, " (PID: ");
                    push_str(&mut entry, pid.as_str());
                    push_str(&mut entry, ")");
                    Some(entry)
                },
                None => None,
            }
        },
    }
}

/// The history entries of the diff lines one past a prefix: those of the
/// prefix, followed by the entry of the next line if it has one.
proof fn lemma_diff_entries_step(diffs: Seq<ProcessDiff>, i: int)
    requires
        0 <= i < diffs.len(),
    ensures
        diff_entries(diffs_view(diffs).take(i + 1)) == match diff_entry(diffs[i].kind, diffs[i].value@) {
            Some(e) => diff_entries(diffs_view(diffs).take(i)).push(e),
            None => diff_entries(diffs_view(diffs).take(i)),
        },
{
    let dv = diffs_view(diffs);
    assert(dv.take(i + 1).drop_last() == dv.take(i));
    assert(dv.take(i + 1).last() == (diffs[i].kind, diffs[i].value@));
}

/// The history entries for a list of diff lines, in order.
pub fn history_entries(diffs: &Vec<ProcessDiff>) -> (r: Vec<String>)
    ensures
        r.deep_view() == diff_entries(diffs_view(diffs@)),
{
    let mut r: Vec<String> = Vec::new();
    let n = diffs.len();
    for i in 0..n
        invariant
            n == diffs@.len(),
            r.deep_view() == diff_entries(diffs_view(diffs@).take(i as int)),
    {
        proof {
            lemma_diff_entries_step(diffs@, i as int);
        }
        match history_entry(&diffs[i]) {
            Some(entry) => {
                let ghost before = r.deep_view();
                r.push(entry);
                assert(r.deep_view() =~= before.push(entry@));
            },
            None => {},
        }
    }
    assert(diffs_view(diffs@).take(n as int) == diffs_view(diffs@));
    r
}

impl MonitorState {
    /// The state at start-up: every section hidden, no filter, no history, a
    /// refresh interval of one second.
    pub fn new() -> (r: Self)
        ensures
            r@.all_hidden(),
            r@.filter_query.len() == 0,
            !r@.is_filtering,
            r@.last_process_list.len() == 0,
            r@.spawn_exit_log.len() == 0,
            r@.tick_rate == 1,
            !r@.is_setting_interval,
            r@.interval_input.len() == 0,
            r@.wf(),
    {
        MonitorState {
            show_cpu_total: false,
            show_cpu_cores: false,
            show_mem: false,
            show_disk: false,
            show_net: false,
            show_proc: false,
            show_diff: false,
            filter_query: String::new(),
            is_filtering: false,
            last_process_list: String::new(),
            spawn_exit_log: Vec::new(),
            tick_rate: 1,
            is_setting_interval: false,
            interval_input: String::new(),
        }
    }

    /// No section is shown, so the welcome screen takes their place.
    pub fn all_hidden(&self) -> (r: bool)
        ensures
            r == self@.all_hidden(),
    {
        !self.show_cpu_total && !self.show_cpu_cores && !self.show_mem && !self.show_disk
            && !self.show_net && !self.show_proc && !self.show_diff
    }

    /// Applies one key event and says whether the monitor goes on or quits.
    pub fn handle_key(&mut self, key: Key, kind: KeyKind) -> (r: Control)
        ensures
            final(self)@ == key_step(old(self)@, key, kind),
            (r == Control::Quit) == quits(old(self)@, key, kind),
    {
        if kind != KeyKind::Press {
            return Control::Continue;
        }
        if self.is_filtering {
            match key {
                Key::Enter | Key::Esc => {
                    self.is_filtering = false;
                },
                Key::Backspace => {
                    pop_char(&mut self.filter_query);
                },
                Key::Char(c) => {
                    push_char(&mut self.filter_query, c);
                },
                Key::Other => {},
            }
        } else if self.is_setting_interval {
            match key {
                Key::Enter => {
                    match parse_u64(self.interval_input.as_str()) {
                        Some(secs) => {
                            if secs >= 1 {
                                self.tick_rate = secs;
                            }
                        },
                        None => {},
                    }
                    self.is_setting_interval = false;
                },
                Key::Esc => {
                    self.is_setting_interval = false;
                },
                Key::Backspace => {
                    pop_char(&mut self.interval_input);
                },
                Key::Char(c) => {
                    if is_numeric(c) {
                        push_char(&mut self.interval_input, c);
                    }
                },
                Key::Other => {},
            }
        } else {
            match key {
                Key::Esc => {
                    return Control::Quit;
                },
                Key::Char(c) => {
                    if c == 'q' {
                        return Control::Quit;
                    } else if c == 'c' {
                        self.show_cpu_cores = !self.show_cpu_cores;
                    } else if c == 'C' {
                        self.show_cpu_total = !self.show_cpu_total;
                    } else if c == 'm' {
                        self.show_mem = !self.show_mem;
                    } else if c == 'd' {
                        self.show_disk = !self.show_disk;
                    } else if c == 'n' {
                        self.show_net = !self.show_net;
                    } else if c == 'p' || c == 't' {
                        self.show_proc = !self.show_proc;
                    } else if c == 'g' || c == 'l' {
                        self.show_diff = !self.show_diff;
                    } else if c == 'f' {
                        self.is_filtering = true;
                    } else if c == 'r' {
                        self.interval_input = decimal_string(self.tick_rate);
                        self.is_setting_interval = true;
                    }
                },
                _ => {},
            }
        }
        Control::Continue
    }

    /// Takes in a new process snapshot: the first one is only remembered; for
    /// later ones the history gains an entry for each started or ended process
    /// in `diffs` (the line-by-line comparison of the previous snapshot with
    /// `current`) and keeps its newest `LOG_CAPACITY` entries.
    pub fn observe_processes(&mut self, current: String, diffs: &Vec<ProcessDiff>)
        ensures
            final(self)@ == snapshot_step(old(self)@, current@, diffs_view(diffs@)),
    {
        if self.last_process_list.as_str().is_empty() {
            self.last_process_list = current;
            return;
        }
        let ghost old_log = self.spawn_exit_log.deep_view();
        let mut entries = history_entries(diffs);
        let ghost added = entries.deep_view();
        self.spawn_exit_log.append(&mut entries);
        assert(self.spawn_exit_log.deep_view() =~= old_log + added);
        let len = self.spawn_exit_log.len();
        if len > LOG_CAPACITY {
            let kept = self.spawn_exit_log.split_off(len - LOG_CAPACITY);
            self.spawn_exit_log = kept;
            assert(self.spawn_exit_log.deep_view() =~= keep_last(old_log + added, LOG_CAPACITY as nat));
        }
        self.last_process_list = current;
    }
}

/// Nanoseconds in a second.
pub const NANOS_PER_SEC: u128 = 1_000_000_000;

/// How long to wait for a key before the next refresh, in nanoseconds: what
/// is left of the refresh interval of `tick_rate` seconds after `elapsed`
/// nanoseconds since the last refresh, or nothing once it has passed.
pub fn poll_timeout_nanos(tick_rate: u64, elapsed: u128) -> (r: u128)
    ensures
        r == if elapsed < tick_rate * NANOS_PER_SEC { tick_rate * NANOS_PER_SEC - elapsed } else { 0 },
{
    assert(tick_rate * NANOS_PER_SEC <= u64::MAX * NANOS_PER_SEC) by (nonlinear_arith)
        requires
            tick_rate <= u64::MAX,
    ;
    let interval = (tick_rate as u128) * NANOS_PER_SEC;
    if elapsed < interval {
        interval - elapsed
    } else {
        0
    }
}

/// Whether the refresh interval of `tick_rate` seconds has passed after
/// `elapsed` nanoseconds, so that the next one starts now.
pub fn refresh_due(tick_rate: u64, elapsed: u128) -> (r: bool)
    ensures
        r == (elapsed >= tick_rate * NANOS_PER_SEC),
{
    assert(tick_rate * NANOS_PER_SEC <= u64::MAX * NANOS_PER_SEC) by (nonlinear_arith)
        requires
            tick_rate <= u64::MAX,
    ;
    elapsed >= (tick_rate as u128) * NANOS_PER_SEC
}

/// The keys that show or hide a section.
pub open spec fn is_toggle_char(c: char) -> bool {
    c == 'c' || c == 'C' || c == 'm' || c == 'd' || c == 'n' || c == 'p' || c == 't' || c == 'g'
        || c == 'l'
}

/// Section keys are switches: in normal mode, pressing the same section key
/// twice gives back the state before the first press.
pub proof fn law_toggle_twice(m: MonitorModel, c: char)
    requires
        m.in_normal_mode(),
        is_toggle_char(c),
    ensures
        key_step(key_step(m, Key::Char(c), KeyKind::Press), Key::Char(c), KeyKind::Press) == m,
{
    let m1 = key_step(m, Key::Char(c), KeyKind::Press);
    assert(m1 == normal_step(m, Key::Char(c)));
    assert(m1.in_normal_mode());
    assert(key_step(m1, Key::Char(c), KeyKind::Press) =~= m);
}

/// Only presses count: a key that repeats or is released changes nothing and
/// never quits.
pub proof fn law_only_presses_count(m: MonitorModel, key: Key, kind: KeyKind)
    requires
        kind != KeyKind::Press,
    ensures
        key_step(m, key, kind) == m,
        !quits(m, key, kind),
{
}

/// While the filter is edited every key stays in the filter: no key quits,
/// and a typed character is appended to the query.
pub proof fn law_filter_captures_keys(m: MonitorModel, c: char)
    requires
        m.is_filtering,
    ensures
        !quits(m, Key::Char(c), KeyKind::Press),
        !quits(m, Key::Esc, KeyKind::Press),
        key_step(m, Key::Char(c), KeyKind::Press).filter_query == m.filter_query.push(c),
        key_step(m, Key::Char(c), KeyKind::Press).is_filtering,
{
}

/// Backspace undoes typing: in the filter, typing a character and then
/// Backspace gives back the state before.
pub proof fn law_filter_backspace_undoes_typing(m: MonitorModel, c: char)
    requires
        m.is_filtering,
    ensures
        key_step(key_step(m, Key::Char(c), KeyKind::Press), Key::Backspace, KeyKind::Press) == m,
{
    let m1 = key_step(m, Key::Char(c), KeyKind::Press);
    assert(m1.filter_query.drop_last() == m.filter_query);
    assert(key_step(m1, Key::Backspace, KeyKind::Press) =~= m);
}

/// Every key event keeps the monitor's state well formed: the interval stays
/// at one second or more, the history stays bounded, and the two input modes
/// never overlap.
pub proof fn law_key_step_keeps_wf(m: MonitorModel, key: Key, kind: KeyKind)
    requires
        m.wf(),
    ensures
        key_step(m, key, kind).wf(),
{
}

/// Every snapshot keeps the state well formed; in particular the history
/// never holds more than `LOG_CAPACITY` entries.
pub proof fn law_snapshot_keeps_wf(m: MonitorModel, current: Seq<char>, diffs: Seq<(DiffKind, Seq<char>)>)
    requires
        m.wf(),
    ensures
        snapshot_step(m, current, diffs).wf(),
        snapshot_step(m, current, diffs).last_process_list == current,
{
}

/// Opening the interval editor shows the current interval, and confirming
/// it unchanged keeps that interval: `r` then Enter changes nothing but the
/// editor's text.
pub proof fn law_interval_edit_confirm_keeps_rate(m: MonitorModel)
    requires
        m.in_normal_mode(),
    ensures
        key_step(m, Key::Char('r'), KeyKind::Press).interval_input == decimal(m.tick_rate as nat),
        key_step(key_step(m, Key::Char('r'), KeyKind::Press), Key::Enter, KeyKind::Press) == (MonitorModel {
            interval_input: decimal(m.tick_rate as nat),
            ..m
        }),
{
    law_parse_decimal_roundtrip(m.tick_rate);
    let m1 = key_step(m, Key::Char('r'), KeyKind::Press);
    assert(m1.is_setting_interval && !m1.is_filtering);
    assert(key_step(m1, Key::Enter, KeyKind::Press) =~= (MonitorModel {
        interval_input: decimal(m.tick_rate as nat),
        ..m
    }));
}

/// Cancelling the interval editor keeps the interval: `r` then Esc changes
/// nothing but the editor's text.
pub proof fn law_interval_edit_cancel_keeps_rate(m: MonitorModel)
    requires
        m.in_normal_mode(),
    ensures
        key_step(key_step(m, Key::Char('r'), KeyKind::Press), Key::Esc, KeyKind::Press) == (MonitorModel {
            interval_input: decimal(m.tick_rate as nat),
            ..m
        }),
{
    let m1 = key_step(m, Key::Char('r'), KeyKind::Press);
    assert(key_step(m1, Key::Esc, KeyKind::Press) =~= (MonitorModel {
        interval_input: decimal(m.tick_rate as nat),
        ..m
    }));
}

/// A typed interval of one second or more is applied on Enter; zero is
/// refused and the interval stays as it was.
pub proof fn law_interval_enter_applies(m: MonitorModel, secs: u64)
    requires
        m.is_setting_interval,
        !m.is_filtering,
        m.interval_input == decimal(secs as nat),
    ensures
        secs >= 1 ==> key_step(m, Key::Enter, KeyKind::Press).tick_rate == secs,
        secs == 0 ==> key_step(m, Key::Enter, KeyKind::Press).tick_rate == m.tick_rate,
        !key_step(m, Key::Enter, KeyKind::Press).is_setting_interval,
{
    law_parse_decimal_roundtrip(secs);
}


/// Each section key switches its own section and nothing else: in normal
/// mode `c` flips the per-core view, `C` the total CPU, `m` memory, `d`
/// disks, `n` network, `p` and `t` the process table, and `g` and `l` the
/// history; every other part of the state stays as it was.
pub proof fn law_section_keys(m: MonitorModel)
    requires
        m.in_normal_mode(),
    ensures
        key_step(m, Key::Char('c'), KeyKind::Press) == (MonitorModel { show_cpu_cores: !m.show_cpu_cores, ..m }),
        key_step(m, Key::Char('C'), KeyKind::Press) == (MonitorModel { show_cpu_total: !m.show_cpu_total, ..m }),
        key_step(m, Key::Char('m'), KeyKind::Press) == (MonitorModel { show_mem: !m.show_mem, ..m }),
        key_step(m, Key::Char('d'), KeyKind::Press) == (MonitorModel { show_disk: !m.show_disk, ..m }),
        key_step(m, Key::Char('n'), KeyKind::Press) == (MonitorModel { show_net: !m.show_net, ..m }),
        key_step(m, Key::Char('p'), KeyKind::Press) == (MonitorModel { show_proc: !m.show_proc, ..m }),
        key_step(m, Key::Char('t'), KeyKind::Press) == (MonitorModel { show_proc: !m.show_proc, ..m }),
        key_step(m, Key::Char('g'), KeyKind::Press) == (MonitorModel { show_diff: !m.show_diff, ..m }),
        key_step(m, Key::Char('l'), KeyKind::Press) == (MonitorModel { show_diff: !m.show_diff, ..m }),
        key_step(m, Key::Char('f'), KeyKind::Press) == (MonitorModel { is_filtering: true, ..m }),
{
}

/// Backspace in the interval editor deletes exactly the last typed
/// character: typing a numeric character and then Backspace gives back the
/// state before, and on a non-empty input Backspace keeps every character
/// but the last.
pub proof fn law_interval_backspace_undoes_typing(m: MonitorModel, c: char)
    requires
        m.is_setting_interval,
        !m.is_filtering,
        numeric_char(c),
    ensures
        key_step(key_step(m, Key::Char(c), KeyKind::Press), Key::Backspace, KeyKind::Press) == m,
        m.interval_input.len() > 0 ==> key_step(m, Key::Backspace, KeyKind::Press).interval_input.push(
            m.interval_input.last(),
        ) == m.interval_input,
        m.interval_input.len() > 0 ==> key_step(m, Key::Backspace, KeyKind::Press) == (MonitorModel {
            interval_input: m.interval_input.take(m.interval_input.len() - 1),
            ..m
        }),
{
    let m1 = key_step(m, Key::Char(c), KeyKind::Press);
    assert(m1.interval_input.drop_last() == m.interval_input);
    assert(key_step(m1, Key::Backspace, KeyKind::Press) =~= m);
    if m.interval_input.len() > 0 {
        assert(m.interval_input.drop_last().push(m.interval_input.last()) =~= m.interval_input);
        assert(key_step(m, Key::Backspace, KeyKind::Press) =~= (MonitorModel {
            interval_input: m.interval_input.take(m.interval_input.len() - 1),
            ..m
        }));
    }
}

} // verus!
