//! Formatting helpers: uptime, fixed-width cells, progress bars and the
//! `PID:name` lines that describe a process.
use vstd::prelude::*;
use crate::text::{is_digit, lemma_decimal_all_digits, push_chars, decimal, decimal2, repeat_char, push_char, push_decimal, push_decimal2, push_repeat, chars_of};

verus! {

/// The uptime text for `secs` seconds: `Xd HH:MM:SS` from one day on, `HH:MM:SS` below.
pub open spec fn uptime_text(secs: nat) -> Seq<char> {
    let days = secs / 86400;
    let hours = (secs % 86400) / 3600;
    let minutes = (secs % 3600) / 60;
    let seconds = secs % 60;
    let clock = decimal2(hours) + seq![':'] + decimal2(minutes) + seq![':'] + decimal2(seconds);
    if days > 0 {
        decimal(days) + seq!['d', ' '] + clock
    } else {
        clock
    }
}

/// Formats a system uptime given in seconds as days, hours, minutes and seconds:
/// `Xd HH:MM:SS` from one day on, `HH:MM:SS` below one day.
pub fn format_uptime(uptime_secs: u64) -> (r: String)
    ensures
        r@ == uptime_text(uptime_secs as nat),
{
    let days = uptime_secs / 86400;
    let hours = (uptime_secs % 86400) / 3600;
    let minutes = (uptime_secs % 3600) / 60;
    let seconds = uptime_secs % 60;
    let mut r = String::new();
    if days > 0 {
        push_decimal(&mut r, days);
        push_char(&mut r, 'd');
        push_char(&mut r, ' ');
    }
    push_decimal2(&mut r, hours);
    push_char(&mut r, ':');
    push_decimal2(&mut r, minutes);
    push_char(&mut r, ':');
    push_decimal2(&mut r, seconds);
    r
}

/// The uptime reads back as the time it stands for: for an uptime of
/// `days` days, `hours` hours, `minutes` minutes and `seconds` seconds (each
/// field below its next unit), the text is the day count with `d ` when there
/// is at least one day, then the hours, minutes and seconds as two-digit
/// fields joined by `:`.
pub proof fn law_uptime_fields(days: nat, hours: nat, minutes: nat, seconds: nat)
    requires
        hours < 24,
        minutes < 60,
        seconds < 60,
    ensures
        uptime_text(days * 86400 + hours * 3600 + minutes * 60 + seconds) == (if days > 0 {
            decimal(days) + seq!['d', ' ']
        } else {
            Seq::empty()
        }) + decimal2(hours) + seq![':'] + decimal2(minutes) + seq![':'] + decimal2(seconds),
{
    let secs = days * 86400 + hours * 3600 + minutes * 60 + seconds;
    let rest = hours * 3600 + minutes * 60 + seconds;
    assert(rest < 86400) by (nonlinear_arith)
        requires
            rest == hours * 3600 + minutes * 60 + seconds,
            hours < 24,
            minutes < 60,
            seconds < 60,
    ;
    vstd::arithmetic::div_mod::lemma_fundamental_div_mod_converse(secs as int, 86400, days as int, rest as int);
    let ms = minutes * 60 + seconds;
    vstd::arithmetic::div_mod::lemma_fundamental_div_mod_converse(rest as int, 3600, hours as int, ms as int);
    vstd::arithmetic::div_mod::lemma_fundamental_div_mod_converse(ms as int, 60, minutes as int, seconds as int);
    assert(secs == (days * 24 + hours) * 3600 + ms) by (nonlinear_arith)
        requires
            secs == days * 86400 + hours * 3600 + minutes * 60 + seconds,
            ms == minutes * 60 + seconds,
    ;
    vstd::arithmetic::div_mod::lemma_fundamental_div_mod_converse(secs as int, 3600, (days * 24 + hours) as int, ms as int);
    assert(secs == (days * 1440 + hours * 60 + minutes) * 60 + seconds) by (nonlinear_arith)
        requires
            secs == days * 86400 + hours * 3600 + minutes * 60 + seconds,
    ;
    vstd::arithmetic::div_mod::lemma_fundamental_div_mod_converse(
        secs as int,
        60,
        (days * 1440 + hours * 60 + minutes) as int,
        seconds as int,
    );
    if days > 0 {
        assert(uptime_text(secs) =~= (decimal(days) + seq!['d', ' ']) + decimal2(hours) + seq![':'] + decimal2(
            minutes,
        ) + seq![':'] + decimal2(seconds));
    } else {
        assert(uptime_text(secs) =~= Seq::<char>::empty() + decimal2(hours) + seq![':'] + decimal2(minutes)
            + seq![':'] + decimal2(seconds));
    }
}

/// `c` is one of the half-width forms: the half-width CJK punctuation,
/// katakana and Hangul letters (U+FF61..U+FFDC) and the half-width symbols
/// (U+FFE8..U+FFEE).
pub open spec fn is_half_width_form(c: char) -> bool {
    let u = c as u32;
    ||| 0xFF61 <= u && u <= 0xFFDC
    ||| 0xFFE8 <= u && u <= 0xFFEE
}

/// The terminal cell width of a character: an ASCII character and a
/// half-width form take one cell, every other character is counted as
/// full-width and takes two.
pub open spec fn cell_width(c: char) -> nat {
    if (c as u32) <= 0x7f || is_half_width_form(c) {
        1
    } else {
        2
    }
}

/// The terminal cell width of a character.
pub fn char_cells(c: char) -> (r: usize)
    ensures
        r == cell_width(c),
{
    let u = c as u32;
    if u <= 0x7f || (0xFF61 <= u && u <= 0xFFDC) || (0xFFE8 <= u && u <= 0xFFEE) {
        1
    } else {
        2
    }
}

/// The total cell width of a sequence of characters.
pub open spec fn display_width(s: Seq<char>) -> nat
    decreases s.len(),
{
    if s.len() == 0 {
        0
    } else {
        display_width(s.drop_last()) + cell_width(s.last())
    }
}

/// How many leading characters of `s` fit, one after another, in `width` cells.
pub open spec fn fitting_prefix_len(s: Seq<char>, width: nat) -> nat
    decreases s.len(),
{
    if s.len() == 0 || cell_width(s[0]) > width {
        0
    } else {
        1 + fitting_prefix_len(s.drop_first(), (width - cell_width(s[0])) as nat)
    }
}

/// `s` cut to the characters that fit in `width` cells and padded with spaces
/// to exactly `width` cells.
pub open spec fn fit_to_width(s: Seq<char>, width: nat) -> Seq<char> {
    let kept = s.take(fitting_prefix_len(s, width) as int);
    kept + repeat_char(' ', (width - display_width(kept)) as nat)
}

proof fn lemma_display_width_push(s: Seq<char>, c: char)
    ensures
        display_width(s.push(c)) == display_width(s) + cell_width(c),
{
    assert(s.push(c).drop_last() == s);
}

proof fn lemma_display_width_prepend(c: char, s: Seq<char>)
    ensures
        display_width(seq![c] + s) == cell_width(c) + display_width(s),
    decreases s.len(),
{
    if s.len() == 0 {
        assert(seq![c] + s == seq![c]);
        assert(seq![c].drop_last() == Seq::<char>::empty());
        assert(display_width(Seq::<char>::empty()) == 0);
    } else {
        lemma_display_width_prepend(c, s.drop_last());
        assert((seq![c] + s).drop_last() == seq![c] + s.drop_last());
        assert((seq![c] + s).last() == s.last());
    }
}

/// The fitting prefix, taken greedily from the front, is described by the
/// width still free after each step.
proof fn lemma_fitting_prefix(s: Seq<char>, width: nat)
    ensures
        fitting_prefix_len(s, width) <= s.len(),
        display_width(s.take(fitting_prefix_len(s, width) as int)) <= width,
        fitting_prefix_len(s, width) < s.len() ==> display_width(s.take(fitting_prefix_len(s, width) as int))
            + cell_width(s[fitting_prefix_len(s, width) as int]) > width,
    decreases s.len(),
{
    let k = fitting_prefix_len(s, width);
    if s.len() == 0 || cell_width(s[0]) > width {
        assert(s.take(0) == Seq::<char>::empty());
    } else {
        let w0 = cell_width(s[0]);
        let rest = s.drop_first();
        lemma_fitting_prefix(rest, (width - w0) as nat);
        assert(s.take(k as int) == seq![s[0]] + rest.take(k - 1));
        lemma_display_width_prepend(s[0], rest.take(k - 1));
        if k < s.len() {
            assert(s[k as int] == rest[k - 1]);
        }
    }
}

/// Pads or truncates `s` to exactly `width` terminal cells, counting
/// half-width characters (ASCII and the half-width forms) as one cell and
/// every other character as a full-width two: characters are kept from the front while they fit, and the rest of the width is filled
/// with spaces.
pub fn pad_or_truncate(s: &str, width: usize) -> (r: String)
    ensures
        r@ == fit_to_width(s@, width as nat),
{
    let chars = chars_of(s);
    let mut current_width: usize = 0;
    let mut result = String::new();
    let mut i: usize = 0;
    proof {
        lemma_fitting_prefix(s@, width as nat);
    }
    let ghost k = fitting_prefix_len(s@, width as nat);
    assert(s@.skip(0) == s@);
    assert(s@.take(0) == Seq::<char>::empty());
    while i < chars.len()
        invariant
            chars@ == s@,
            k == fitting_prefix_len(s@, width as nat),
            i <= k,
            result@ == s@.take(i as int),
            current_width == display_width(s@.take(i as int)),
            current_width <= width,
            fitting_prefix_len(s@.skip(i as int), (width - current_width) as nat) == k - i,
            s@.skip(i as int).len() == s@.len() - i,
        ensures
            i == k,
            result@ == s@.take(i as int),
            current_width == display_width(s@.take(i as int)),
            current_width <= width,
        decreases chars@.len() - i,
    {
        let c = chars[i];
        let char_width: usize = char_cells(c);
        assert(s@.skip(i as int)[0] == c);
        if char_width > width - current_width {
            proof {
                let rest = s@.skip(i as int);
                assert(fitting_prefix_len(rest, (width - current_width) as nat) == 0);
                assert(i == k);
            }
            break;
        }
        proof {
            let rest = s@.skip(i as int);
            assert(rest.drop_first() == s@.skip(i + 1));
            assert(s@.take(i + 1) == s@.take(i as int).push(c));
            lemma_display_width_push(s@.take(i as int), c);
        }
        push_char(&mut result, c);
        current_width = current_width + char_width;
        i = i + 1;
    }
    if current_width < width {
        push_repeat(&mut result, ' ', width - current_width);
    }
    result
}

proof fn lemma_display_width_concat(a: Seq<char>, b: Seq<char>)
    ensures
        display_width(a + b) == display_width(a) + display_width(b),
    decreases b.len(),
{
    if b.len() == 0 {
        assert(a + b == a);
    } else {
        lemma_display_width_concat(a, b.drop_last());
        assert((a + b).drop_last() == a + b.drop_last());
    }
}

proof fn lemma_display_width_spaces(n: nat)
    ensures
        display_width(repeat_char(' ', n)) == n,
    decreases n,
{
    if n > 0 {
        lemma_display_width_spaces((n - 1) as nat);
        assert(repeat_char(' ', n).drop_last() == repeat_char(' ', (n - 1) as nat));
    }
}

/// Fixed-width cells: whatever the input, the padded or truncated text takes
/// exactly the requested number of terminal cells, and it begins with a
/// prefix of the input.
pub proof fn law_pad_or_truncate_fills_width(s: Seq<char>, width: nat)
    ensures
        display_width(fit_to_width(s, width)) == width,
        s.take(fitting_prefix_len(s, width) as int).is_prefix_of(fit_to_width(s, width)),
{
    lemma_fitting_prefix(s, width);
    let kept = s.take(fitting_prefix_len(s, width) as int);
    let pad = repeat_char(' ', (width - display_width(kept)) as nat);
    lemma_display_width_concat(kept, pad);
    lemma_display_width_spaces((width - display_width(kept)) as nat);
    assert(fit_to_width(s, width).subrange(0, kept.len() as int) == kept);
}

/// The progress bar for `filled` of `width` cells: `[` and `]` around
/// `width` cells, empty when nothing is filled, otherwise `filled - 1` cells of
/// `=` and an arrow head `>` followed by blanks.
pub open spec fn bar_text(filled: nat, width: nat) -> Seq<char> {
    if filled == 0 {
        seq!['['] + repeat_char(' ', width) + seq![']']
    } else if filled >= width {
        seq!['['] + repeat_char('=', (width - 1) as nat) + seq!['>', ']']
    } else {
        seq!['['] + repeat_char('=', (filled - 1) as nat) + seq!['>'] + repeat_char(
            ' ',
            (width - filled) as nat,
        ) + seq![']']
    }
}

/// Draws an ASCII progress bar such as `[====>     ]` with `filled` of `width`
/// cells filled. The share of cells is computed from a percentage by the
/// caller; it never exceeds the width.
pub fn ascii_bar(filled: usize, width: usize) -> (r: String)
    requires
        filled <= width,
    ensures
        r@ == bar_text(filled as nat, width as nat),
{
    let mut r = String::new();
    push_char(&mut r, '[');
    if filled == 0 {
        push_repeat(&mut r, ' ', width);
    } else if filled >= width {
        push_repeat(&mut r, '=', width - 1);
        push_char(&mut r, '>');
    } else {
        push_repeat(&mut r, '=', filled - 1);
        push_char(&mut r, '>');
        push_repeat(&mut r, ' ', width - filled);
    }
    push_char(&mut r, ']');
    r
}

/// Bars have a fixed length: two brackets around exactly `width` cells.
pub proof fn law_bar_length(filled: nat, width: nat)
    requires
        filled <= width,
    ensures
        bar_text(filled, width).len() == width + 2,
{
}

/// How many cells of `s` are drawn as filled: the `=` body and the `>` head.
pub open spec fn filled_cells(s: Seq<char>) -> nat
    decreases s.len(),
{
    if s.len() == 0 {
        0
    } else {
        filled_cells(s.drop_last()) + if s.last() == '=' || s.last() == '>' {
            1nat
        } else {
            0nat
        }
    }
}

proof fn lemma_filled_cells_concat(a: Seq<char>, b: Seq<char>)
    ensures
        filled_cells(a + b) == filled_cells(a) + filled_cells(b),
    decreases b.len(),
{
    if b.len() == 0 {
        assert(a + b == a);
    } else {
        lemma_filled_cells_concat(a, b.drop_last());
        assert((a + b).drop_last() == a + b.drop_last());
        assert((a + b).last() == b.last());
    }
}

proof fn lemma_filled_cells_repeat(c: char, n: nat)
    ensures
        filled_cells(repeat_char(c, n)) == if c == '=' || c == '>' {
            n
        } else {
            0
        },
    decreases n,
{
    if n > 0 {
        lemma_filled_cells_repeat(c, (n - 1) as nat);
        assert(repeat_char(c, n).drop_last() == repeat_char(c, (n - 1) as nat));
    }
}

/// A bar shows as many filled cells as were asked for, up to its width; so a
/// larger share never draws a shorter bar.
pub proof fn law_bar_filled_cells(filled: nat, width: nat)
    requires
        filled == 0 || width > 0,
    ensures
        filled_cells(bar_text(filled, width)) == if filled <= width {
            filled
        } else {
            width
        },
        forall|more: nat|
            filled <= more ==> filled_cells(bar_text(filled, width)) <= filled_cells(
                #[trigger] bar_text(more, width),
            ),
{
    assert forall|f: nat| (f == 0 || width > 0) implies filled_cells(bar_text(f, width)) == if f <= width {
        f
    } else {
        width
    } by {
        let open = seq!['['];
        let close = seq![']'];
        assert(filled_cells(Seq::<char>::empty()) == 0);
        lemma_filled_cells_repeat('=', 0);
        assert(filled_cells(open) == 0) by {
            assert(open.drop_last() == Seq::<char>::empty());
            assert(open.last() == '[');
        }
        assert(filled_cells(close) == 0) by {
            assert(close.drop_last() == Seq::<char>::empty());
            assert(close.last() == ']');
        }
        assert(filled_cells(seq!['>']) == 1) by {
            assert(seq!['>'].drop_last() == Seq::<char>::empty());
        }
        assert(filled_cells(seq!['>', ']']) == 1) by {
            assert(seq!['>', ']'].drop_last() == seq!['>']);
        }
        lemma_filled_cells_repeat(' ', width);
        if f == 0 {
            lemma_filled_cells_concat(open, repeat_char(' ', width));
            lemma_filled_cells_concat(open + repeat_char(' ', width), close);
        } else if f >= width {
            let body = repeat_char('=', (width - 1) as nat);
            lemma_filled_cells_repeat('=', (width - 1) as nat);
            lemma_filled_cells_concat(open, body);
            lemma_filled_cells_concat(open + body, seq!['>', ']']);
        } else {
            let body = repeat_char('=', (f - 1) as nat);
            let blanks = repeat_char(' ', (width - f) as nat);
            lemma_filled_cells_repeat('=', (f - 1) as nat);
            lemma_filled_cells_repeat(' ', (width - f) as nat);
            lemma_filled_cells_concat(open, body);
            lemma_filled_cells_concat(open + body, seq!['>']);
            lemma_filled_cells_concat(open + body + seq!['>'], blanks);
            lemma_filled_cells_concat(open + body + seq!['>'] + blanks, close);
        }
    }
}

/// `c` occurs in `s`.
pub open spec fn has_char(s: Seq<char>, c: char) -> bool {
    exists|i: int| 0 <= i < s.len() && s[i] == c
}

/// Position of the first `:` in `s` (meaningful when there is one).
pub open spec fn first_colon(s: Seq<char>) -> int {
    choose|i: int| 0 <= i < s.len() && s[i] == ':' && !has_char(s.take(i), ':')
}

/// The two fields of a `PID:name` line: what precedes the first `:` and what
/// follows it, or nothing when the line has no `:`.
pub open spec fn proc_fields(s: Seq<char>) -> Option<(Seq<char>, Seq<char>)> {
    if has_char(s, ':') {
        Some((s.take(first_colon(s)), s.skip(first_colon(s) + 1)))
    } else {
        None
    }
}

/// The `PID:name` line of a process.
pub open spec fn proc_line_text(pid: nat, name: Seq<char>) -> Seq<char> {
    decimal(pid) + seq![':'] + name
}

proof fn lemma_first_colon(s: Seq<char>, i: int)
    requires
        0 <= i < s.len(),
        s[i] == ':',
        forall|j: int| 0 <= j < i ==> s[j] != ':',
    ensures
        has_char(s, ':'),
        first_colon(s) == i,
{
    assert(!has_char(s.take(i), ':'));
    let f = first_colon(s);
    if f < i {
        assert(s[f] == ':');
    } else if f > i {
        assert(s.take(f)[i] == ':');
    }
}

/// Splits a `PID:name` line at its first `:` into the process id text and
/// the process name; `None` when the line holds no `:`.
pub fn parse_proc_line(line: &str) -> (r: Option<(String, String)>)
    ensures
        match proc_fields(line@) {
            None => r is None,
            Some((pid, name)) => r matches Some((p, n)) && p@ == pid && n@ == name,
        },
{
    let chars = chars_of(line);
    let mut i: usize = 0;
    while i < chars.len()
        invariant
            chars@ == line@,
            i <= chars@.len(),
            forall|j: int| 0 <= j < i ==> line@[j] != ':',
        decreases chars@.len() - i,
    {
        if chars[i] == ':' {
            proof {
                lemma_first_colon(line@, i as int);
            }
            let mut pid = String::new();
            let mut name = String::new();
            let mut j: usize = 0;
            while j < i
                invariant
                    chars@ == line@,
                    j <= i < chars@.len(),
                    pid@ == line@.take(j as int),
                decreases i - j,
            {
                push_char(&mut pid, chars[j]);
                assert(line@.take(j + 1) == line@.take(j as int).push(line@[j as int]));
                j = j + 1;
            }
            let mut k: usize = i + 1;
            while k < chars.len()
                invariant
                    chars@ == line@,
                    i < k <= chars@.len(),
                    name@ == line@.subrange(i + 1, k as int),
                decreases chars@.len() - k,
            {
                push_char(&mut name, chars[k]);
                assert(line@.subrange(i + 1, k + 1) == line@.subrange(i + 1, k as int).push(line@[k as int]));
                k = k + 1;
            }
            assert(line@.subrange(i + 1, chars@.len() as int) == line@.skip(i + 1));
            return Some((pid, name));
        }
        i = i + 1;
    }
    None
}

/// Builds the `PID:name` line of a process.
pub fn proc_line(pid: u32, name: &str) -> (r: String)
    ensures
        r@ == proc_line_text(pid as nat, name@),
{
    let mut r = String::new();
    push_decimal(&mut r, pid as u64);
    push_char(&mut r, ':');
    push_chars(&mut r, chars_of(name).as_slice());
    r
}

/// Process lines read back: splitting the line written for a process gives
/// its id as a decimal numeral and its full name, colons in the name included.
pub proof fn law_proc_line_roundtrip(pid: nat, name: Seq<char>)
    ensures
        proc_fields(proc_line_text(pid, name)) == Some((decimal(pid), name)),
{
    let s = proc_line_text(pid, name);
    let d = decimal(pid);
    lemma_decimal_all_digits(pid);
    assert(s[d.len() as int] == ':');
    assert forall|j: int| 0 <= j < d.len() implies s[j] != ':' by {
        assert(s[j] == d[j]);
        assert(is_digit(d[j]));
    }
    lemma_first_colon(s, d.len() as int);
    assert(s.take(d.len() as int) == d);
    assert(s.skip(d.len() as int + 1) == name);
}

} // verus!
