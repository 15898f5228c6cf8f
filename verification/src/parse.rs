//! Reading the lines that yt-dlp and winget print.
use vstd::prelude::*;
use crate::scan::{
    chars_of, ends_with, find, has_prefix, has_suffix, is_letter, is_white, letter, slice,
    starts_with, string_all, trim, trim_chars, trim_end, trim_start, trim_start_chars, white,
    find_chars, position, end_white,
};

verus! {

// ---------------------------------------------------------------- noise

/// The block characters winget draws its progress bar with.
pub open spec fn is_block(c: char) -> bool {
    c == '█' || c == '▒' || c == '░' || c == '▓' || c == '■'
}

/// `s` without ANSI escapes and block characters. An escape runs from the
/// escape character up to and including the next ASCII letter; `inside`
/// says that one is already open.
pub open spec fn denoised(s: Seq<char>, inside: bool) -> Seq<char>
    decreases s.len(),
{
    if s.len() == 0 {
        s
    } else if inside {
        denoised(s.drop_first(), !is_letter(s[0]))
    } else if s[0] == '\u{1b}' {
        denoised(s.drop_first(), true)
    } else if is_block(s[0]) {
        denoised(s.drop_first(), false)
    } else {
        seq![s[0]] + denoised(s.drop_first(), false)
    }
}

fn block(c: char) -> (b: bool)
    ensures
        b == is_block(c),
{
    c == '█' || c == '▒' || c == '░' || c == '▓' || c == '■'
}

/// Drops ANSI escapes and the block characters winget draws its bar with.
pub fn strip_noise(raw: &str) -> (r: String)
    ensures
        r@ == trim(denoised(raw@, false)),
        forall|j: int|
            0 <= j < r@.len() ==> #[trigger] r@[j] != '█' && r@[j] != '▒' && r@[j] != '░'
                && r@[j] != '▓' && r@[j] != '■' && r@[j] != '\u{1b}',
{
    let v = chars_of(raw);
    let mut out: Vec<char> = Vec::new();
    let mut inside = false;
    let mut i: usize = 0;
    assert(v@.skip(0) =~= v@);
    while i < v.len()
        invariant
            i <= v.len(),
            out@ + denoised(v@.skip(i as int), inside) == denoised(v@, false),
        decreases v.len() - i,
    {
        let c = v[i];
        let ghost rest = v@.skip(i as int);
        assert(rest[0] == c);
        assert(rest.drop_first() =~= v@.skip(i + 1));
        if inside {
            inside = !letter(c);
        } else if c == '\u{1b}' {
            inside = true;
        } else if block(c) {
        } else {
            let ghost before = out@;
            out.push(c);
            assert(out@ =~= before + seq![c]);
            assert(seq![c] + denoised(v@.skip(i + 1), false) == denoised(rest, false));
            assert(before + (seq![c] + denoised(v@.skip(i + 1), false)) =~= out@ + denoised(
                v@.skip(i + 1),
                false,
            ));
        }
        i += 1;
    }
    assert(v@.skip(i as int).len() == 0);
    assert(out@ + denoised(v@.skip(i as int), inside) =~= out@);
    let t = trim_chars(&out);
    proof {
        noise_is_gone(raw@);
    }
    string_all(&t)
}

/// A line with its bar characters taken out: every character but `█`, `▒`,
/// `░`, `▓` and `■`, in the order they come.
pub open spec fn without_bars(s: Seq<char>) -> Seq<char>
    decreases s.len(),
{
    if s.len() == 0 {
        s
    } else if s[0] == '█' || s[0] == '▒' || s[0] == '░' || s[0] == '▓' || s[0] == '■' {
        without_bars(s.drop_first())
    } else {
        seq![s[0]] + without_bars(s.drop_first())
    }
}

/// No bar character of winget's (`█`, `▒`, `░`, `▓`, `■`) and no escape
/// character survives the cleaning.
pub proof fn no_bar_character_survives(s: Seq<char>)
    ensures
        forall|j: int|
            0 <= j < trim(denoised(s, false)).len() ==> {
                let c = #[trigger] trim(denoised(s, false))[j];
                c != '█' && c != '▒' && c != '░' && c != '▓' && c != '■' && c != '\u{1b}'
            },
{
    noise_is_gone(s);
}

/// On a line without escapes, cleaning keeps exactly the characters that are
/// not bar characters, in order (before trimming).
pub proof fn only_bars_are_dropped(s: Seq<char>)
    requires
        forall|j: int| 0 <= j < s.len() ==> s[j] != '\u{1b}',
    ensures
        denoised(s, false) == without_bars(s),
    decreases s.len(),
{
    if s.len() > 0 {
        let t = s.drop_first();
        assert forall|j: int| 0 <= j < t.len() implies t[j] != '\u{1b}' by {
            assert(t[j] == s[j + 1]);
        }
        assert(s[0] != '\u{1b}');
        only_bars_are_dropped(t);
    }
}

proof fn lemma_escape_body(x: Seq<char>, l: char, y: Seq<char>)
    requires
        forall|j: int| 0 <= j < x.len() ==> !is_letter(#[trigger] x[j]),
        is_letter(l),
    ensures
        denoised(x + seq![l] + y, true) == denoised(y, false),
    decreases x.len(),
{
    let s = x + seq![l] + y;
    if x.len() == 0 {
        assert(s[0] == l);
        assert(s.drop_first() =~= y);
    } else {
        let t = x.drop_first();
        assert(s[0] == x[0]);
        assert(s.drop_first() =~= t + seq![l] + y);
        assert forall|j: int| 0 <= j < t.len() implies !is_letter(#[trigger] t[j]) by {
            assert(t[j] == x[j + 1]);
        }
        lemma_escape_body(t, l, y);
    }
}

/// An ANSI escape is dropped whole: the escape character, what follows it up
/// to the first ASCII letter, and that letter; cleaning goes on after it as
/// if the escape had never been there.
pub proof fn an_escape_is_dropped_whole(x: Seq<char>, l: char, y: Seq<char>)
    requires
        forall|j: int|
            0 <= j < x.len() ==> !('a' <= #[trigger] x[j] <= 'z' || 'A' <= x[j] <= 'Z'),
        'a' <= l <= 'z' || 'A' <= l <= 'Z',
    ensures
        denoised(seq!['\u{1b}'] + x + seq![l] + y, false) == denoised(y, false),
{
    let s = seq!['\u{1b}'] + x + seq![l] + y;
    assert(s[0] == '\u{1b}');
    assert(s.drop_first() =~= x + seq![l] + y);
    assert forall|j: int| 0 <= j < x.len() implies !is_letter(#[trigger] x[j]) by {}
    lemma_escape_body(x, l, y);
}

/// Removing the noise leaves no escape character, no block character, and no
/// whitespace at either end.
pub proof fn noise_is_gone(s: Seq<char>)
    ensures
        forall|j: int|
            0 <= j < trim(denoised(s, false)).len() ==> {
                let c = #[trigger] trim(denoised(s, false))[j];
                c != '\u{1b}' && !is_block(c)
            },
        trim(denoised(s, false)).len() > 0 ==> !is_white(trim(denoised(s, false))[0])
            && !is_white(trim(denoised(s, false)).last()),
{
    let d = denoised(s, false);
    lemma_denoised_clean(s, false);
    crate::scan::lemma_trim_clean(d);
    let (a, b) = choose|a: int, b: int| 0 <= a <= b <= d.len() && trim(d) == d.subrange(a, b);
    assert forall|j: int| 0 <= j < trim(d).len() implies {
        let c = #[trigger] trim(d)[j];
        c != '\u{1b}' && !is_block(c)
    } by {
        assert(trim(d)[j] == d[a + j]);
    }
}

proof fn lemma_denoised_keeps_clean(x: Seq<char>)
    requires
        forall|j: int| 0 <= j < x.len() ==> x[j] != '\u{1b}' && !is_block(#[trigger] x[j]),
    ensures
        denoised(x, false) == x,
    decreases x.len(),
{
    if x.len() > 0 {
        let t = x.drop_first();
        assert forall|j: int| 0 <= j < t.len() implies t[j] != '\u{1b}' && !is_block(#[trigger] t[j]) by {
            assert(t[j] == x[j + 1]);
        }
        assert(x[0] != '\u{1b}' && !is_block(x[0]));
        lemma_denoised_keeps_clean(t);
        assert(seq![x[0]] + t =~= x);
    }
}

/// Cleaning a line that was already cleaned changes nothing.
pub proof fn cleaning_twice_changes_nothing(s: Seq<char>)
    ensures
        trim(denoised(trim(denoised(s, false)), false)) == trim(denoised(s, false)),
{
    let r = trim(denoised(s, false));
    noise_is_gone(s);
    assert forall|j: int| 0 <= j < r.len() implies r[j] != '\u{1b}' && !is_block(#[trigger] r[j]) by {}
    lemma_denoised_keeps_clean(r);
    if r.len() > 0 {
        assert(trim_start(r) == r);
        assert(trim_end(r) == r);
    } else {
        assert(trim_start(r) == r);
        assert(trim_end(r) == r);
    }
}

proof fn lemma_denoised_clean(s: Seq<char>, inside: bool)
    ensures
        forall|j: int|
            0 <= j < denoised(s, inside).len() ==> {
                let c = #[trigger] denoised(s, inside)[j];
                c != '\u{1b}' && !is_block(c)
            },
    decreases s.len(),
{
    if s.len() == 0 {
    } else if inside {
        lemma_denoised_clean(s.drop_first(), !is_letter(s[0]));
        assert(denoised(s, inside) == denoised(s.drop_first(), !is_letter(s[0])));
    } else if s[0] == '\u{1b}' {
        lemma_denoised_clean(s.drop_first(), true);
        assert(denoised(s, inside) == denoised(s.drop_first(), true));
    } else if is_block(s[0]) {
        lemma_denoised_clean(s.drop_first(), false);
        assert(denoised(s, inside) == denoised(s.drop_first(), false));
    } else {
        let rest = denoised(s.drop_first(), false);
        lemma_denoised_clean(s.drop_first(), false);
        assert forall|j: int| 0 <= j < denoised(s, inside).len() implies {
            let c = #[trigger] denoised(s, inside)[j];
            c != '\u{1b}' && !is_block(c)
        } by {
            if j > 0 {
                assert(denoised(s, inside)[j] == rest[j - 1]);
            }
        }
    }
}

// ---------------------------------------------------------------- paths

/// A path separator on Windows.
pub open spec fn is_sep(c: char) -> bool {
    c == '\\' || c == '/'
}

/// A separator after a prefix that is verbatim (`\\?\`) or not: verbatim
/// paths are split at `\` only.
pub open spec fn is_sep_in(c: char, verbatim: bool) -> bool {
    c == '\\' || (!verbatim && c == '/')
}

/// A drive (`C:`) stands at position `i`.
pub open spec fn drive_at(p: Seq<char>, i: int) -> bool {
    0 <= i && i + 2 <= p.len() && is_letter(p[i]) && p[i + 1] == ':'
}

/// The end of the component that starts at `from`: the first separator at or
/// after it, or the end of the path.
pub open spec fn component_end(p: Seq<char>, from: int, verbatim: bool) -> int
    decreases p.len() - from,
{
    if from < 0 || from >= p.len() {
        p.len() as int
    } else if is_sep_in(p[from], verbatim) {
        from
    } else {
        component_end(p, from + 1, verbatim)
    }
}

/// Just past the separator at `i`, or `i` at the end of the path.
pub open spec fn past(p: Seq<char>, i: int) -> int {
    if i < p.len() {
        i + 1
    } else {
        i
    }
}

/// The prefix of a Windows path, as `std::path::Prefix` reads it: its length,
/// and whether it is verbatim. A prefix is `\\?\UNC\server\share`, `\\?\C:`,
/// `\\?\name`, `\\.\device`, `\\server\share` (with either separator, and
/// only when both names are there), or a drive `C:`.
pub open spec fn prefix_of(p: Seq<char>) -> (int, bool) {
    if p.len() >= 2 && is_sep(p[0]) && is_sep(p[1]) {
        if p.len() >= 4 && p[0] == '\\' && p[1] == '\\' && p[2] == '?' && p[3] == '\\' {
            if p.len() >= 8 && p[4] == 'U' && p[5] == 'N' && p[6] == 'C' && p[7] == '\\' {
                let server = component_end(p, 8, true);
                (component_end(p, past(p, server), true), true)
            } else if drive_at(p, 4) && (p.len() == 6 || p[6] == '\\') {
                (6, true)
            } else {
                (component_end(p, 4, true), true)
            }
        } else if p.len() >= 4 && p[2] == '.' && is_sep(p[3]) {
            (component_end(p, 4, false), false)
        } else {
            let server = component_end(p, 2, false);
            let share = past(p, server);
            let end = component_end(p, share, false);
            if server > 2 && end > share {
                (end, false)
            } else {
                (0, false)
            }
        }
    } else if drive_at(p, 0) {
        (2, false)
    } else {
        (0, false)
    }
}

/// The position just after the last separator, or zero.
pub open spec fn after_last_sep(p: Seq<char>, verbatim: bool) -> int
    decreases p.len(),
{
    if p.len() == 0 {
        0
    } else if is_sep_in(p.last(), verbatim) {
        p.len() as int
    } else {
        after_last_sep(p.drop_last(), verbatim)
    }
}

/// The last normal component of a path without its prefix: trailing
/// separators are passed over, and so are `.` components outside verbatim
/// paths; a final `..`, or a final `.` in a verbatim path, has no name.
pub open spec fn final_name(p: Seq<char>, verbatim: bool) -> Option<Seq<char>>
    decreases p.len(),
{
    if p.len() == 0 {
        None
    } else if is_sep_in(p.last(), verbatim) {
        final_name(p.drop_last(), verbatim)
    } else {
        let k = after_last_sep(p, verbatim);
        let seg = p.skip(k);
        if seg == seq!['.'] {
            if !verbatim && 0 < k < p.len() {
                final_name(p.take(k), verbatim)
            } else {
                None
            }
        } else if seg == seq!['.', '.'] {
            None
        } else {
            Some(seg)
        }
    }
}

/// The file name of a Windows path, as `Path::file_name` gives it: a path
/// that is nothing but its prefix has none.
pub open spec fn file_name(p: Seq<char>) -> Option<Seq<char>> {
    final_name(p.skip(prefix_of(p).0), prefix_of(p).1)
}

/// The position of the last dot, or -1.
pub open spec fn last_dot(s: Seq<char>) -> int
    decreases s.len(),
{
    if s.len() == 0 {
        -1
    } else if s.last() == '.' {
        s.len() - 1
    } else {
        last_dot(s.drop_last())
    }
}

/// A file name without its extension, as `Path::file_stem` gives it: cut at
/// the last dot, unless that dot is the first character.
pub open spec fn stem(name: Seq<char>) -> Seq<char> {
    if last_dot(name) <= 0 {
        name
    } else {
        name.take(last_dot(name))
    }
}

/// The path a `Destination: <path>` line gives, trimmed.
pub open spec fn destination_path(line: Seq<char>) -> Option<Seq<char>> {
    match find(line, "Destination: "@) {
        None => None,
        Some(at) => Some(trim(line.skip(at + "Destination: "@.len()))),
    }
}

/// The name a `Destination: <path>` line gives the file.
pub open spec fn destination_of(line: Seq<char>) -> Option<Seq<char>> {
    match destination_path(line) {
        None => None,
        Some(path) => match file_name(path) {
            None => None,
            Some(name) => Some(stem(name)),
        },
    }
}

proof fn lemma_after_last_sep_bounds(p: Seq<char>, verbatim: bool)
    ensures
        0 <= after_last_sep(p, verbatim) <= p.len(),
        forall|j: int| after_last_sep(p, verbatim) <= j < p.len() ==> !is_sep_in(p[j], verbatim),
        p.len() > 0 && !is_sep_in(p.last(), verbatim) ==> after_last_sep(p, verbatim) < p.len(),
    decreases p.len(),
{
    if p.len() > 0 && !is_sep_in(p.last(), verbatim) {
        let q = p.drop_last();
        lemma_after_last_sep_bounds(q, verbatim);
        assert forall|j: int| after_last_sep(p, verbatim) <= j < p.len() implies !is_sep_in(
            p[j],
            verbatim,
        ) by {
            if j < p.len() - 1 {
                assert(p[j] == q[j]);
            }
        }
    }
}

/// The end of the component of `p` that starts at `from`.
fn component_end_of(p: &Vec<char>, from: usize, verbatim: bool) -> (e: usize)
    requires
        from <= p.len(),
    ensures
        e == component_end(p@, from as int, verbatim),
        from <= e <= p.len(),
{
    let mut i = from;
    while i < p.len() && !(p[i] == '\\' || (!verbatim && p[i] == '/'))
        invariant
            from <= i <= p.len(),
            component_end(p@, from as int, verbatim) == component_end(p@, i as int, verbatim),
        decreases p.len() - i,
    {
        i += 1;
    }
    i
}

fn past_of(p: &Vec<char>, i: usize) -> (r: usize)
    requires
        i <= p.len(),
    ensures
        r == past(p@, i as int),
        r <= p.len(),
{
    if i < p.len() {
        i + 1
    } else {
        i
    }
}

fn separator(c: char) -> (b: bool)
    ensures
        b == is_sep(c),
{
    c == '\\' || c == '/'
}

/// The prefix of a Windows path: its length, and whether it is verbatim.
fn prefix(p: &Vec<char>) -> (r: (usize, bool))
    ensures
        r.0 as int == prefix_of(p@).0,
        r.1 == prefix_of(p@).1,
        r.0 <= p.len(),
{
    let n = p.len();
    if n >= 2 && separator(p[0]) && separator(p[1]) {
        if n >= 4 && p[0] == '\\' && p[1] == '\\' && p[2] == '?' && p[3] == '\\' {
            if n >= 8 && p[4] == 'U' && p[5] == 'N' && p[6] == 'C' && p[7] == '\\' {
                let server = component_end_of(p, 8, true);
                let share = past_of(p, server);
                (component_end_of(p, share, true), true)
            } else if n >= 6 && letter(p[4]) && p[5] == ':' && (n == 6 || p[6] == '\\') {
                (6, true)
            } else {
                (component_end_of(p, 4, true), true)
            }
        } else if n >= 4 && p[2] == '.' && separator(p[3]) {
            (component_end_of(p, 4, false), false)
        } else {
            let server = component_end_of(p, 2, false);
            let share = past_of(p, server);
            let end = component_end_of(p, share, false);
            if server > 2 && end > share {
                (end, false)
            } else {
                (0, false)
            }
        }
    } else if n >= 2 && letter(p[0]) && p[1] == ':' {
        (2, false)
    } else {
        (0, false)
    }
}

/// The start of the last component of `p[..end]`.
fn component_start(p: &Vec<char>, end: usize, verbatim: bool) -> (k: usize)
    requires
        end <= p.len(),
    ensures
        k == after_last_sep(p@.take(end as int), verbatim),
        k <= end,
{
    let mut k = end;
    while k > 0 && !(p[k - 1] == '\\' || (!verbatim && p[k - 1] == '/'))
        invariant
            k <= end <= p.len(),
            after_last_sep(p@.take(end as int), verbatim) == after_last_sep(
                p@.take(k as int),
                verbatim,
            ),
        decreases k,
    {
        assert(p@.take(k as int).drop_last() =~= p@.take(k - 1));
        k -= 1;
    }
    if k > 0 {
        assert(p@.take(k as int).last() == p@[k - 1]);
    }
    k
}

/// The file name of a Windows path.
fn name_of(path: &Vec<char>) -> (r: Option<Vec<char>>)
    ensures
        match r {
            Some(n) => file_name(path@) == Some(n@),
            None => file_name(path@) is None,
        },
{
    let (start, verbatim) = prefix(path);
    let p = slice(path, start, path.len());
    assert(p@ =~= path@.skip(prefix_of(path@).0));
    let mut end = p.len();
    assert(p@.take(end as int) =~= p@);
    loop
        invariant
            end <= p.len(),
            verbatim == prefix_of(path@).1,
            file_name(path@) == final_name(p@, verbatim),
            final_name(p@, verbatim) == final_name(p@.take(end as int), verbatim),
        decreases end,
    {
        let ghost q = p@.take(end as int);
        if end == 0 {
            return None;
        }
        assert(q.last() == p@[end - 1]);
        if p[end - 1] == '\\' || (!verbatim && p[end - 1] == '/') {
            assert(q.drop_last() =~= p@.take(end - 1));
            end -= 1;
        } else {
            let k = component_start(&p, end, verbatim);
            proof {
                lemma_after_last_sep_bounds(q, verbatim);
            }
            let seg = slice(&p, k, end);
            assert(seg@ =~= q.skip(k as int));
            if seg.len() == 1 && seg[0] == '.' {
                assert(seg@ =~= seq!['.']);
                if verbatim || k == 0 {
                    return None;
                }
                assert(q.take(k as int) =~= p@.take(k as int));
                end = k;
            } else if seg.len() == 2 && seg[0] == '.' && seg[1] == '.' {
                assert(seg@ =~= seq!['.', '.']);
                return None;
            } else {
                assert(seg@ != seq!['.']);
                assert(seg@ != seq!['.', '.']);
                return Some(seg);
            }
        }
    }
}

/// The file name without its extension.
fn stem_of(name: &Vec<char>) -> (r: Vec<char>)
    ensures
        r@ == stem(name@),
{
    let mut k = name.len();
    assert(name@.take(k as int) =~= name@);
    while k > 0 && name[k - 1] != '.'
        invariant
            k <= name.len(),
            last_dot(name@) == last_dot(name@.take(k as int)),
        decreases k,
    {
        assert(name@.take(k as int).drop_last() =~= name@.take(k - 1));
        k -= 1;
    }
    if k > 0 {
        assert(name@.take(k as int).last() == name@[k - 1]);
    }
    if k <= 1 {
        slice(name, 0, name.len())
    } else {
        slice(name, 0, k - 1)
    }
}

/// Reads the file name out of a `Destination: <path>` line.
pub fn destination(line: &str) -> (r: Option<String>)
    ensures
        match r {
            Some(name) => destination_of(line@) == Some(name@),
            None => destination_of(line@) is None,
        },
{
    let v = chars_of(line);
    let marker = chars_of("Destination: ");
    let at = match find_chars(&v, &marker) {
        Some(at) => at,
        None => return None,
    };
    proof {
        crate::scan::lemma_find(v@, marker@);
        assert(crate::scan::occurs_at(v@, marker@, at as int));
        assert(at + marker@.len() <= v@.len());
    }
    assert(at + marker.len() <= v.len());
    let rest = slice(&v, at + marker.len(), v.len());
    assert(rest@ =~= v@.skip(at + marker@.len()));
    let path = trim_chars(&rest);
    match name_of(&path) {
        None => None,
        Some(name) => {
            let s = stem_of(&name);
            Some(string_all(&s))
        },
    }
}

proof fn lemma_final_name_bare(p: Seq<char>, verbatim: bool)
    ensures
        final_name(p, verbatim) matches Some(n) ==> n.len() > 0 && forall|j: int|
            0 <= j < n.len() ==> !is_sep_in(#[trigger] n[j], verbatim),
    decreases p.len(),
{
    if p.len() == 0 {
    } else if is_sep_in(p.last(), verbatim) {
        lemma_final_name_bare(p.drop_last(), verbatim);
    } else {
        let k = after_last_sep(p, verbatim);
        lemma_after_last_sep_bounds(p, verbatim);
        let seg = p.skip(k);
        if seg == seq!['.'] {
            if !verbatim && 0 < k < p.len() {
                lemma_final_name_bare(p.take(k), verbatim);
            }
        } else if seg == seq!['.', '.'] {
        } else {
            assert forall|j: int| 0 <= j < seg.len() implies !is_sep_in(
                #[trigger] seg[j],
                verbatim,
            ) by {
                assert(seg[j] == p[k + j]);
            }
        }
    }
}

proof fn lemma_last_dot_bounds(s: Seq<char>)
    ensures
        -1 <= last_dot(s) < s.len(),
    decreases s.len(),
{
    if s.len() > 0 && s.last() != '.' {
        lemma_last_dot_bounds(s.drop_last());
    }
}

/// What a `Destination:` line names is a bare file name: never empty,
/// without a backslash, and without a slash unless the path is verbatim
/// (where `/` is no separator).
pub proof fn a_destination_is_a_bare_name(line: Seq<char>)
    ensures
        destination_of(line) matches Some(n) ==> n.len() > 0 && forall|j: int|
            0 <= j < n.len() ==> #[trigger] n[j] != '\\' && (n[j] == '/'
                ==> prefix_of(destination_path(line)->0).1),
{
    if let Some(p) = destination_path(line) {
        let verbatim = prefix_of(p).1;
        let q = p.skip(prefix_of(p).0);
        lemma_final_name_bare(q, verbatim);
        if let Some(name) = final_name(q, verbatim) {
            lemma_last_dot_bounds(name);
            let st = stem(name);
            assert forall|j: int| 0 <= j < st.len() implies #[trigger] st[j] != '\\' && (st[j]
                == '/' ==> verbatim) by {
                assert(st[j] == name[j]);
                assert(!is_sep_in(name[j], verbatim));
            }
        }
    }
}

proof fn lemma_after_sep_then_name(x: Seq<char>, f: Seq<char>)
    requires
        forall|j: int| 0 <= j < f.len() ==> !is_sep(#[trigger] f[j]),
    ensures
        after_last_sep(x + seq!['\\'] + f, false) == x.len() + 1,
    decreases f.len(),
{
    let q = x + seq!['\\'] + f;
    if f.len() == 0 {
        assert(q.last() == '\\');
    } else {
        let g = f.drop_last();
        assert(q.last() == f.last());
        assert(!is_sep(f[f.len() - 1]));
        assert(q.drop_last() =~= x + seq!['\\'] + g);
        assert forall|j: int| 0 <= j < g.len() implies !is_sep(#[trigger] g[j]) by {
            assert(g[j] == f[j]);
        }
        lemma_after_sep_then_name(x, g);
    }
}

proof fn lemma_last_dot_before(x: Seq<char>, e: Seq<char>)
    requires
        forall|j: int| 0 <= j < e.len() ==> #[trigger] e[j] != '.',
    ensures
        last_dot(x + seq!['.'] + e) == x.len(),
    decreases e.len(),
{
    let q = x + seq!['.'] + e;
    if e.len() == 0 {
        assert(q.last() == '.');
    } else {
        let g = e.drop_last();
        assert(q.last() == e.last());
        assert(e[e.len() - 1] != '.');
        assert(q.drop_last() =~= x + seq!['.'] + g);
        assert forall|j: int| 0 <= j < g.len() implies #[trigger] g[j] != '.' by {
            assert(g[j] == e[j]);
        }
        lemma_last_dot_before(x, g);
    }
}

/// A `Destination:` line names the file it gives, without its folder and
/// without its extension: `[download] Destination: C:\out\Song.mp3` gives
/// `Song`.
pub proof fn a_destination_names_the_file(l: char, dir: Seq<char>, name: Seq<char>, ext: Seq<char>)
    requires
        'a' <= l <= 'z' || 'A' <= l <= 'Z',
        name.len() > 0 && ext.len() > 0,
        forall|j: int|
            0 <= j < name.len() ==> #[trigger] name[j] != '.' && name[j] != '\\' && name[j] != '/',
        forall|j: int|
            0 <= j < ext.len() ==> #[trigger] ext[j] != '.' && ext[j] != '\\' && ext[j] != '/',
        !is_white(ext.last()),
    ensures
        destination_of(
            "[download] Destination: "@ + seq![l, ':'] + dir + seq!['\\'] + name + seq!['.'] + ext,
        ) == Some(name),
{
    reveal_strlit("[download] Destination: ");
    reveal_strlit("Destination: ");
    let marker = "Destination: "@;
    let f = name + seq!['.'] + ext;
    let p = seq![l, ':'] + dir + seq!['\\'] + f;
    let line = "[download] Destination: "@ + p;
    assert("[download] Destination: "@ + seq![l, ':'] + dir + seq!['\\'] + name + seq!['.'] + ext
        =~= line);
    crate::scan::lemma_find(line, marker);
    assert(line.subrange(11, 24) =~= marker);
    assert(crate::scan::occurs_at(line, marker, 11));
    assert forall|j: int| 0 <= j < 11 implies !crate::scan::occurs_at(line, marker, j) by {
        if crate::scan::occurs_at(line, marker, j) {
            assert(line.subrange(j, j + 13)[0] == line[j]);
        }
    }
    assert(find(line, marker) == Some(11int));
    assert(line.skip(24) =~= p);
    assert(p[0] == l);
    assert(p.last() == ext.last());
    crate::scan::lemma_trim_keeps_word(p);
    assert(destination_path(line) == Some(p));
    assert(drive_at(p, 0));
    assert(prefix_of(p) == (2int, false));
    let q = p.skip(2);
    assert(q =~= dir + seq!['\\'] + f);
    assert forall|j: int| 0 <= j < f.len() implies !is_sep(#[trigger] f[j]) by {
        if j < name.len() {
            assert(f[j] == name[j]);
        } else if j > name.len() {
            assert(f[j] == ext[j - name.len() - 1]);
        }
    }
    lemma_after_sep_then_name(dir, f);
    assert(q.last() == ext.last());
    assert(!is_sep_in(ext[ext.len() - 1], false));
    assert(q.skip(dir.len() + 1int) =~= f);
    assert(f.len() >= 3);
    assert(f != seq!['.']);
    assert(f != seq!['.', '.']);
    assert(final_name(q, false) == Some(f));
    assert(file_name(p) == Some(f));
    lemma_last_dot_before(name, ext);
    assert(f.take(name.len() as int) =~= name);
}

// ---------------------------------------------------------------- progress

/// The number text of a `[download]  42.3% of ...` line: what stands between
/// the tag and the first `%`, trimmed.
pub open spec fn percent_of(line: Seq<char>) -> Option<Seq<char>> {
    if !starts_with(line, "[download]"@) {
        None
    } else {
        let rest = trim_start(line.skip("[download]"@.len() as int));
        match find(rest, seq!['%']) {
            None => None,
            Some(end) => Some(trim(rest.take(end))),
        }
    }
}

/// Reads the number text out of a `[download]  42.3% of ...` line, which
/// the caller turns into a percentage.
pub fn percent_text(line: &str) -> (r: Option<String>)
    ensures
        match r {
            Some(t) => percent_of(line@) == Some(t@),
            None => percent_of(line@) is None,
        },
{
    let v = chars_of(line);
    let tag = chars_of("[download]");
    if !has_prefix(&v, &tag) {
        return None;
    }
    let after = slice(&v, tag.len(), v.len());
    assert(after@ =~= v@.skip(tag@.len() as int));
    let rest = trim_start_chars(&after);
    let end = position(&rest, '%');
    if end == rest.len() {
        return None;
    }
    let num = slice(&rest, 0, end);
    assert(num@ =~= rest@.take(end as int));
    let t = trim_chars(&num);
    Some(string_all(&t))
}

/// A `[download]` line reads back the number written before its first `%`,
/// whatever blank space stands between the tag and the number and whatever
/// follows: `[download]  42.3% of 3.00MiB` gives `42.3`.
pub proof fn a_percentage_reads_back(w: Seq<char>, n: Seq<char>, tail: Seq<char>)
    requires
        forall|j: int| 0 <= j < w.len() ==> is_white(#[trigger] w[j]),
        n.len() > 0,
        !is_white(n[0]) && !is_white(n.last()),
        forall|j: int| 0 <= j < n.len() ==> n[j] != '%',
    ensures
        percent_of("[download]"@ + w + n + seq!['%'] + tail) == Some(n),
{
    let tag = "[download]"@;
    let rest = n + seq!['%'] + tail;
    let line = tag + w + n + seq!['%'] + tail;
    assert(line =~= tag + (w + rest));
    assert(line.take(tag.len() as int) =~= tag);
    assert(line.skip(tag.len() as int) =~= w + rest);
    assert(rest[0] == n[0]);
    crate::scan::lemma_trim_start_after_white(w, rest);
    crate::scan::lemma_find_char_after(n, '%', tail);
    assert(rest.take(n.len() as int) =~= n);
    crate::scan::lemma_trim_keeps_word(n);
}

/// The position where the last whitespace-separated word of `s` starts.
pub open spec fn word_start(s: Seq<char>) -> int
    decreases s.len(),
{
    if s.len() == 0 {
        0
    } else if is_white(s.last()) {
        s.len() as int
    } else {
        word_start(s.drop_last())
    }
}

/// The last whitespace-separated word of `s`, if it has any.
pub open spec fn last_word(s: Seq<char>) -> Option<Seq<char>> {
    let t = trim_end(s);
    if t.len() == 0 {
        None
    } else {
        Some(t.skip(word_start(t)))
    }
}

/// `p` without the first of the units `MB`, `KB`, `GB`, `B` that it ends with.
pub open spec fn without_unit(p: Seq<char>) -> Seq<char> {
    if ends_with(p, "MB"@) {
        p.take(p.len() - 2)
    } else if ends_with(p, "KB"@) {
        p.take(p.len() - 2)
    } else if ends_with(p, "GB"@) {
        p.take(p.len() - 2)
    } else if ends_with(p, "B"@) {
        p.take(p.len() - 1)
    } else {
        p
    }
}

/// The number text of one side of `1.50 MB / 12.30 MB`.
pub open spec fn amount_of(part: Seq<char>) -> Option<Seq<char>> {
    last_word(without_unit(trim(part)))
}

/// The two number texts of a `1.50 MB / 12.30 MB` fragment.
pub open spec fn share_of(text: Seq<char>) -> Option<(Seq<char>, Seq<char>)> {
    match find(text, " / "@) {
        None => None,
        Some(i) => match (amount_of(text.take(i)), amount_of(text.skip(i + " / "@.len()))) {
            (Some(a), Some(b)) => Some((a, b)),
            _ => None,
        },
    }
}

proof fn lemma_word_start_of_word(a: Seq<char>)
    requires
        forall|j: int| 0 <= j < a.len() ==> !is_white(#[trigger] a[j]),
    ensures
        word_start(a) == 0,
    decreases a.len(),
{
    if a.len() > 0 {
        let t = a.drop_last();
        assert forall|j: int| 0 <= j < t.len() implies !is_white(#[trigger] t[j]) by {
            assert(t[j] == a[j]);
        }
        lemma_word_start_of_word(t);
    }
}

proof fn lemma_amount_in_mb(a: Seq<char>)
    requires
        a.len() > 0,
        forall|j: int| 0 <= j < a.len() ==> !is_white(#[trigger] a[j]),
    ensures
        amount_of(a + " MB"@) == Some(a),
{
    reveal_strlit(" MB");
    reveal_strlit("MB");
    let p = a + " MB"@;
    assert(p[0] == a[0]);
    assert(p.last() == 'B');
    crate::scan::lemma_trim_keeps_word(p);
    assert(p.skip(p.len() - 2) =~= "MB"@);
    let q = p.take(p.len() - 2);
    assert(q =~= a + seq![' ']);
    assert(q.drop_last() =~= a);
    assert(trim_end(a) == a);
    assert(trim_end(q) == a);
    lemma_word_start_of_word(a);
    assert(a.skip(0) =~= a);
}

/// A `1.50 MB / 12.30 MB` fragment reads back its two numbers, the one
/// before the slash first.
pub proof fn a_share_reads_back(a: Seq<char>, b: Seq<char>)
    requires
        a.len() > 0 && b.len() > 0,
        forall|j: int| 0 <= j < a.len() ==> !is_white(#[trigger] a[j]),
        forall|j: int| 0 <= j < b.len() ==> !is_white(#[trigger] b[j]),
    ensures
        share_of(a + " MB / "@ + b + " MB"@) == Some((a, b)),
{
    reveal_strlit(" MB / ");
    reveal_strlit(" MB");
    reveal_strlit(" / ");
    let sep = " / "@;
    let t = a + " MB / "@ + b + " MB"@;
    let i: int = a.len() + 3int;
    crate::scan::lemma_find(t, sep);
    assert(t.subrange(i, i + 3) =~= sep);
    assert(crate::scan::occurs_at(t, sep, i));
    assert forall|j: int| 0 <= j < i implies !crate::scan::occurs_at(t, sep, j) by {
        if crate::scan::occurs_at(t, sep, j) {
            assert(t.subrange(j, j + 3)[0] == t[j]);
            assert(t.subrange(j, j + 3)[1] == t[j + 1]);
            if j < a.len() {
                assert(t[j] == a[j]);
            } else {
                assert(t[j] == (" MB / "@)[j - a.len()]);
                assert(t[j + 1] == (" MB / "@)[j + 1 - a.len()]);
            }
        }
    }
    assert(find(t, sep) == Some(i));
    assert(t.take(i) =~= a + " MB"@);
    assert(t.skip(i + 3) =~= b + " MB"@);
    lemma_amount_in_mb(a);
    lemma_amount_in_mb(b);
}

fn unit_cut(p: &Vec<char>) -> (r: Vec<char>)
    ensures
        r@ == without_unit(p@),
{
    let mb = chars_of("MB");
    let kb = chars_of("KB");
    let gb = chars_of("GB");
    let b = chars_of("B");
    let end = if has_suffix(p, &mb) {
        p.len() - mb.len()
    } else if has_suffix(p, &kb) {
        p.len() - kb.len()
    } else if has_suffix(p, &gb) {
        p.len() - gb.len()
    } else if has_suffix(p, &b) {
        p.len() - b.len()
    } else {
        p.len()
    };
    proof {
        reveal_strlit("MB");
        reveal_strlit("KB");
        reveal_strlit("GB");
        reveal_strlit("B");
    }
    let r = slice(p, 0, end);
    assert(r@ =~= p@.take(end as int));
    proof {
        if end == p.len() {
            assert(p@.take(end as int) =~= p@);
        }
    }
    r
}

fn last_word_of(s: &Vec<char>) -> (r: Option<Vec<char>>)
    ensures
        match r {
            Some(w) => last_word(s@) == Some(w@),
            None => last_word(s@) is None,
        },
{
    let j = end_white(s);
    if j == 0 {
        return None;
    }
    let t = slice(s, 0, j);
    assert(t@ =~= s@.take(j as int));
    let mut k = j;
    assert(t@.take(k as int) =~= t@);
    while k > 0 && !white(t[k - 1])
        invariant
            k <= t.len(),
            word_start(t@) == word_start(t@.take(k as int)),
        decreases k,
    {
        assert(t@.take(k as int).drop_last() =~= t@.take(k - 1));
        k -= 1;
    }
    if k > 0 {
        assert(t@.take(k as int).last() == t@[k - 1]);
    }
    let w = slice(&t, k, t.len());
    assert(w@ =~= t@.skip(k as int));
    Some(w)
}

fn amount(part: &Vec<char>) -> (r: Option<Vec<char>>)
    ensures
        match r {
            Some(w) => amount_of(part@) == Some(w@),
            None => amount_of(part@) is None,
        },
{
    let t = trim_chars(part);
    let u = unit_cut(&t);
    last_word_of(&u)
}

/// Reads the two number texts out of a `1.50 MB / 12.30 MB` fragment, which
/// the caller turns into a fraction.
pub fn share_text(text: &str) -> (r: Option<(String, String)>)
    ensures
        match r {
            Some((a, b)) => share_of(text@) == Some((a@, b@)),
            None => share_of(text@) is None,
        },
{
    let v = chars_of(text);
    let sep = chars_of(" / ");
    let i = match find_chars(&v, &sep) {
        Some(i) => i,
        None => return None,
    };
    proof {
        crate::scan::lemma_find(v@, sep@);
    }
    let left = slice(&v, 0, i);
    assert(left@ =~= v@.take(i as int));
    let right = slice(&v, i + sep.len(), v.len());
    assert(right@ =~= v@.skip(i + sep@.len()));
    match (amount(&left), amount(&right)) {
        (Some(a), Some(b)) => Some((string_all(&a), string_all(&b))),
        _ => None,
    }
}

} // verus!
