//! What the library reads about yt-dlp and ffmpeg: their version banners and
//! the names of the WinGet package folders they live in.
use vstd::prelude::*;
use crate::scan::{
    chars_of, contains, count_word, digit, has_chars, has_prefix, index_of, is_digit, is_white,
    position, skip_white, slice, starts_with, string_all, trim, trim_chars, trim_start, word_len,
};
use crate::text::{shorten, shortened};

verus! {

/// The first whitespace-separated word of `s`, if it has any.
pub open spec fn first_word(s: Seq<char>) -> Option<Seq<char>> {
    let t = trim_start(s);
    if t.len() == 0 {
        None
    } else {
        Some(t.take(word_len(t)))
    }
}

/// `ffmpeg version 9.0.2-full_build-www.gyan.dev ...` reduced to `9.0.2`: the
/// first word after the banner, cut at its first `-` when what comes before
/// starts with a digit, else the whole word shortened to 18 characters.
pub open spec fn short_version_of(line: Seq<char>) -> Seq<char> {
    let rest = if starts_with(line, "ffmpeg version "@) {
        line.skip("ffmpeg version "@.len() as int)
    } else {
        line
    };
    match first_word(rest) {
        None => Seq::empty(),
        Some(word) => {
            let short = word.take(index_of(word, '-'));
            if short.len() > 0 && is_digit(short[0]) {
                short
            } else {
                shortened(word, 18)
            }
        },
    }
}

/// The first line of a program's output, trimmed, unless it is blank.
pub open spec fn first_line_of(text: Seq<char>) -> Option<Seq<char>> {
    let t = trim(text.take(index_of(text, '\n')));
    if t.len() == 0 {
        None
    } else {
        Some(t)
    }
}

/// The first word of `v`.
fn word_of(v: &Vec<char>) -> (r: Option<Vec<char>>)
    ensures
        match r {
            Some(w) => first_word(v@) == Some(w@) && w@.len() > 0,
            None => first_word(v@) is None,
        },
{
    let i = skip_white(v);
    let t = slice(v, i, v.len());
    assert(t@ =~= v@.skip(i as int));
    if t.len() == 0 {
        return None;
    }
    let n = count_word(&t);
    proof {
        crate::scan::lemma_trim_start_suffix(v@);
    }
    assert(!crate::scan::is_white(t@[0]));
    let w = slice(&t, 0, n);
    assert(w@ =~= t@.take(n as int));
    Some(w)
}

/// `ffmpeg version 9.0.2-full_build-www.gyan.dev ...` -> `9.0.2`
pub fn short_ffmpeg_version(line: &str) -> (r: String)
    ensures
        r@ == short_version_of(line@),
        r@.len() > 0 && !is_digit(r@[0]) ==> r@.len() <= 18,
{
    let v = chars_of(line);
    let banner = chars_of("ffmpeg version ");
    let rest = if has_prefix(&v, &banner) {
        let r = slice(&v, banner.len(), v.len());
        assert(r@ =~= v@.skip(banner@.len() as int));
        r
    } else {
        v
    };
    let word = match word_of(&rest) {
        Some(w) => w,
        None => return String::new(),
    };
    let dash = position(&word, '-');
    let short = slice(&word, 0, dash);
    assert(short@ =~= word@.take(dash as int));
    if short.len() > 0 && digit(short[0]) {
        string_all(&short)
    } else {
        let w = string_all(&word);
        shorten(w.as_str(), 18)
    }
}

/// ffmpeg's banner reads back the version number it starts with, without
/// the build name after the first `-`: `ffmpeg version 9.0.2-full_build ...`
/// gives `9.0.2`.
pub proof fn a_banner_gives_its_version(v: Seq<char>, build: Seq<char>, tail: Seq<char>)
    requires
        v.len() > 0,
        is_digit(v[0]),
        forall|j: int| 0 <= j < v.len() ==> !is_white(#[trigger] v[j]) && v[j] != '-',
        forall|j: int| 0 <= j < build.len() ==> !is_white(#[trigger] build[j]),
    ensures
        short_version_of("ffmpeg version "@ + v + seq!['-'] + build + seq![' '] + tail) == v,
{
    let banner = "ffmpeg version "@;
    let word = v + seq!['-'] + build;
    let rest = word + seq![' '] + tail;
    let line = banner + v + seq!['-'] + build + seq![' '] + tail;
    assert(line =~= banner + rest);
    assert(line.take(banner.len() as int) =~= banner);
    assert(line.skip(banner.len() as int) =~= rest);
    assert(rest[0] == v[0]);
    assert(trim_start(rest) == rest);
    assert forall|j: int| 0 <= j < word.len() implies !is_white(#[trigger] rest[j]) by {
        assert(rest[j] == word[j]);
        if j < v.len() {
            assert(word[j] == v[j]);
        } else if j > v.len() {
            assert(word[j] == build[j - v.len() - 1]);
        }
    }
    assert(rest[word.len() as int] == ' ');
    crate::scan::lemma_word_len(rest, word.len() as int);
    assert(rest.take(word.len() as int) =~= word);
    assert forall|j: int| 0 <= j < v.len() implies v[j] != '-' by {}
    crate::scan::lemma_find_char_after(v, '-', build);
    assert(word.take(v.len() as int) =~= v);
}

/// Reads the first line of a program's output, as `yt-dlp --version` and
/// `ffmpeg -version` print it.
pub fn version_line(output: &str) -> (r: Option<String>)
    ensures
        match r {
            Some(t) => first_line_of(output@) == Some(t@),
            None => first_line_of(output@) is None,
        },
{
    let v = chars_of(output);
    let end = position(&v, '\n');
    let first = slice(&v, 0, end);
    assert(first@ =~= v@.take(end as int));
    let t = trim_chars(&first);
    if t.len() == 0 {
        None
    } else {
        Some(string_all(&t))
    }
}

/// Of a program's output only the first line is read, without the blank
/// space around it.
pub proof fn the_first_line_is_read(before: Seq<char>, v: Seq<char>, after: Seq<char>, rest: Seq<char>)
    requires
        forall|j: int| 0 <= j < before.len() ==> is_white(#[trigger] before[j]) && before[j] != '\n',
        forall|j: int| 0 <= j < after.len() ==> is_white(#[trigger] after[j]) && after[j] != '\n',
        v.len() > 0,
        !is_white(v[0]) && !is_white(v.last()),
        forall|j: int| 0 <= j < v.len() ==> #[trigger] v[j] != '\n',
    ensures
        first_line_of(before + v + after + seq!['\n'] + rest) == Some(v),
{
    let a = before + v + after;
    assert(before + v + after + seq!['\n'] + rest =~= a + seq!['\n'] + rest);
    assert forall|j: int| 0 <= j < a.len() implies a[j] != '\n' by {
        if j < before.len() {
            assert(a[j] == before[j]);
        } else if j < before.len() + v.len() {
            assert(a[j] == v[j - before.len()]);
        } else {
            assert(a[j] == after[j - before.len() - v.len()]);
        }
    }
    crate::scan::lemma_find_char_after(a, '\n', rest);
    assert((a + seq!['\n'] + rest).take(a.len() as int) =~= a);
    crate::scan::lemma_trim_around(before, v, after);
}

/// Whether a folder under WinGet's `Packages` holds yt-dlp.
pub fn ytdlp_package(name: &str) -> (b: bool)
    ensures
        b == starts_with(name@, "yt-dlp.yt-dlp"@),
{
    let v = chars_of(name);
    let p = chars_of("yt-dlp.yt-dlp");
    has_prefix(&v, &p)
}

/// Whether a folder under WinGet's `Packages` holds an ffmpeg build.
pub fn ffmpeg_package(name: &str) -> (b: bool)
    ensures
        b == contains(name@, "FFmpeg"@),
{
    let v = chars_of(name);
    let p = chars_of("FFmpeg");
    has_chars(&v, &p)
}

} // verus!
