//! Process snapshots: the `PID:name` listing compared between refreshes,
//! the text searched by the process filter, and the choice of rows for the
//! process table.
use vstd::prelude::*;
use crate::text::{chars_of, contains, contains_seq, occurs_at, lowercase_of, push_char, push_chars, to_lowercase};
use crate::utils::{proc_line, proc_line_text};
use crate::sorting::{insertion_point, insertion_sort, law_insertion_sort_sorted_permutation, lemma_insertion_point_bound, lemma_insertion_sort_step};

verus! {

/// A process as the snapshot sees it: its id and its name.
#[derive(Clone, Debug)]
pub struct ProcEntry {
    pub pid: u32,
    pub name: String,
}

/// The plain values of a list of processes.
pub open spec fn entries_view(s: Seq<ProcEntry>) -> Seq<(u32, Seq<char>)> {
    s.map_values(|e: ProcEntry| (e.pid, e.name@))
}

/// Entry `a` may come before entry `b` in the listing: its id is not larger.
pub open spec fn by_pid() -> spec_fn((u32, Seq<char>), (u32, Seq<char>)) -> bool {
    |a: (u32, Seq<char>), b: (u32, Seq<char>)| a.0 <= b.0
}

/// The processes sorted by id, keeping the given order among equal ids (a
/// stable sort, as `sort_by_key` performs it).
pub open spec fn sort_by_pid(s: Seq<(u32, Seq<char>)>) -> Seq<(u32, Seq<char>)> {
    insertion_sort(s, by_pid())
}

/// The parts joined with `sep` between consecutive parts.
pub open spec fn join_with(parts: Seq<Seq<char>>, sep: Seq<char>) -> Seq<char>
    decreases parts.len(),
{
    if parts.len() == 0 {
        Seq::empty()
    } else if parts.len() == 1 {
        parts[0]
    } else {
        join_with(parts.drop_last(), sep) + sep + parts.last()
    }
}

/// The listing compared between snapshots: one `PID:name` line per process,
/// ordered by process id, lines separated by a newline.
pub open spec fn process_list_spec(s: Seq<(u32, Seq<char>)>) -> Seq<char> {
    join_with(
        sort_by_pid(s).map_values(|e: (u32, Seq<char>)| proc_line_text(e.0 as nat, e.1)),
        seq!['\n'],
    )
}

/// `s` is ordered by process id.
pub open spec fn sorted_by_pid(s: Seq<(u32, Seq<char>)>) -> bool {
    forall|i: int, j: int| 0 <= i <= j < s.len() ==> s[i].0 <= s[j].0
}

/// The stable sort by process id yields a list ordered by id that holds
/// exactly the given processes, each as often as given.
pub proof fn law_sort_by_pid_sorted_permutation(s: Seq<(u32, Seq<char>)>)
    ensures
        sorted_by_pid(sort_by_pid(s)),
        sort_by_pid(s).to_multiset() == s.to_multiset(),
{
    law_insertion_sort_sorted_permutation(s, by_pid());
    let r = sort_by_pid(s);
    assert forall|i: int, j: int| 0 <= i <= j < r.len() implies r[i].0 <= r[j].0 by {
        assert(by_pid()(r[i], r[j]));
    }
}

/// Where process `e` goes in `sorted`: after every entry whose id is not larger.
fn find_insert_position(sorted: &Vec<ProcEntry>, e: &ProcEntry) -> (r: usize)
    ensures
        r == insertion_point(entries_view(sorted@), (e.pid, e.name@), by_pid()),
{
    let ghost x = (e.pid, e.name@);
    let mut k = sorted.len();
    assert(entries_view(sorted@).take(k as int) == entries_view(sorted@));
    while k > 0
        invariant
            k <= sorted@.len(),
            x == (e.pid, e.name@),
            insertion_point(entries_view(sorted@), x, by_pid()) == insertion_point(
                entries_view(sorted@).take(k as int),
                x,
                by_pid(),
            ),
        decreases k,
    {
        let ghost pre = entries_view(sorted@).take(k as int);
        assert(pre.drop_last() == entries_view(sorted@).take(k - 1));
        if sorted[k - 1].pid <= e.pid {
            return k;
        }
        k = k - 1;
    }
    k
}

/// The entries sorted by process id, stably.
pub fn sort_processes(procs: &Vec<ProcEntry>) -> (r: Vec<ProcEntry>)
    ensures
        entries_view(r@) == sort_by_pid(entries_view(procs@)),
{
    let mut sorted: Vec<ProcEntry> = Vec::new();
    let n = procs.len();
    for i in 0..n
        invariant
            n == procs@.len(),
            entries_view(sorted@) == sort_by_pid(entries_view(procs@).take(i as int)),
    {
        let e = ProcEntry { pid: procs[i].pid, name: procs[i].name.clone() };
        let pos = find_insert_position(&sorted, &e);
        proof {
            lemma_insertion_sort_step(entries_view(procs@), i as int, by_pid());
            lemma_insertion_point_bound(entries_view(sorted@), (e.pid, e.name@), by_pid());
        }
        let ghost before = sorted@;
        sorted.insert(pos, e);
        assert(entries_view(sorted@) =~= entries_view(before).insert(pos as int, (e.pid, e.name@)));
    }
    assert(entries_view(procs@).take(n as int) == entries_view(procs@));
    sorted
}

/// Appends the parts to `s`, joined by `sep`.
pub fn join_strings(parts: &Vec<String>, sep: char) -> (r: String)
    ensures
        r@ == join_with(parts@.map_values(|p: String| p@), seq![sep]),
{
    let ghost views = parts@.map_values(|p: String| p@);
    let mut r = String::new();
    let n = parts.len();
    for i in 0..n
        invariant
            n == parts@.len(),
            views == parts@.map_values(|p: String| p@),
            r@ == join_with(views.take(i as int), seq![sep]),
    {
        assert(views.take(i + 1).drop_last() == views.take(i as int));
        assert(views.take(i + 1).last() == parts@[i as int]@);
        if i > 0 {
            push_char(&mut r, sep);
        } else {
            assert(r@ == Seq::<char>::empty());
        }
        push_chars(&mut r, chars_of(parts[i].as_str()).as_slice());
    }
    assert(views.take(n as int) == views);
    r
}

/// The process listing compared between snapshots: one `PID:name` line per
/// process, ordered by process id, separated by newlines.
pub fn process_list_text(procs: &Vec<ProcEntry>) -> (r: String)
    ensures
        r@ == process_list_spec(entries_view(procs@)),
{
    let sorted = sort_processes(procs);
    let mut lines: Vec<String> = Vec::new();
    let n = sorted.len();
    for i in 0..n
        invariant
            n == sorted@.len(),
            lines@.map_values(|p: String| p@) == entries_view(sorted@).take(i as int).map_values(
                |e: (u32, Seq<char>)| proc_line_text(e.0 as nat, e.1),
            ),
    {
        let line = proc_line(sorted[i].pid, sorted[i].name.as_str());
        let ghost before = lines@;
        let ghost f = |e: (u32, Seq<char>)| proc_line_text(e.0 as nat, e.1);
        assert(entries_view(sorted@).take(i + 1) == entries_view(sorted@).take(i as int).push(
            (sorted@[i as int].pid, sorted@[i as int].name@),
        ));
        assert(entries_view(sorted@).take(i + 1).map_values(f) =~= entries_view(sorted@).take(
            i as int,
        ).map_values(f).push(line@));
        lines.push(line);
        assert(lines@.map_values(|p: String| p@) =~= before.map_values(|p: String| p@).push(line@));
        assert(lines@.map_values(|p: String| p@) =~= entries_view(sorted@).take(i + 1).map_values(
            |e: (u32, Seq<char>)| proc_line_text(e.0 as nat, e.1),
        ));
    }
    assert(entries_view(sorted@).take(n as int) == entries_view(sorted@));
    join_strings(&lines, '\n')
}

/// The text the process filter counts matches in: the process names joined
/// by single spaces.
pub fn process_names_text(names: &Vec<String>) -> (r: String)
    ensures
        r@ == join_with(names@.map_values(|p: String| p@), seq![' ']),
{
    join_strings(names, ' ')
}

/// `text` passes the filter `query`: the query is empty, or the lowercase
/// form of the text contains the lowercase form of the query.
pub open spec fn passes_filter(text: Seq<char>, query: Seq<char>) -> bool {
    query.len() == 0 || contains_seq(lowercase_of(text), lowercase_of(query))
}

/// Whether `text` passes the filter `query`, comparing without regard to case.
pub fn matches_filter(text: &str, query: &str) -> (r: bool)
    ensures
        r == passes_filter(text@, query@),
{
    if query.is_empty() {
        return true;
    }
    let t = to_lowercase(text);
    let q = to_lowercase(query);
    contains(t.as_str(), q.as_str())
}

/// The filter keeps every text in which the query occurs, ignoring case,
/// whatever their lengths: a text passes the filter made of itself, passes
/// every query whose lowercase form occurs at some place in its own
/// lowercase form, and passes the empty query. A non-empty query that
/// passes occurs in the text in that sense.
pub proof fn law_filter_keeps_occurrences(text: Seq<char>, query: Seq<char>, at: int)
    ensures
        passes_filter(text, text),
        passes_filter(text, Seq::empty()),
        0 <= at && at + lowercase_of(query).len() <= lowercase_of(text).len() && lowercase_of(text).subrange(
            at,
            at + lowercase_of(query).len(),
        ) == lowercase_of(query) ==> passes_filter(text, query),
        query.len() > 0 && passes_filter(text, query) ==> exists|i: int|
            0 <= i && i + lowercase_of(query).len() <= lowercase_of(text).len()
                && #[trigger] lowercase_of(text).subrange(i, i + lowercase_of(query).len()) == lowercase_of(query),
{
    let lt = lowercase_of(text);
    assert(lt.subrange(0, lt.len() as int) == lt);
    assert(occurs_at(lt, lt, 0));
    if 0 <= at && at + lowercase_of(query).len() <= lt.len() && lt.subrange(at, at + lowercase_of(query).len())
        == lowercase_of(query) {
        assert(occurs_at(lt, lowercase_of(query), at));
    }
    if query.len() > 0 && passes_filter(text, query) {
        let i = choose|i: int| occurs_at(lt, lowercase_of(query), i);
        assert(lt.subrange(i, i + lowercase_of(query).len()) == lowercase_of(query));
    }
}

} // verus!
