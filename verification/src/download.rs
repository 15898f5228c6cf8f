//! The state of one download in the list.
use vstd::prelude::*;
use crate::scan::{chars_of, has_prefix, is_white, starts_with, string_all, trim, trim_chars};

verus! {

#[derive(PartialEq, Eq, Clone, Copy, Debug, Structural)]
pub enum State {
    Running,
    Done,
    Failed,
}

/// The address to download, when the text in the field is a link: trimmed,
/// and starting with `http`.
pub open spec fn link_of(text: Seq<char>) -> Option<Seq<char>> {
    if starts_with(trim(text), "http"@) {
        Some(trim(text))
    } else {
        None
    }
}

/// Reads the download field: the trimmed address when it is a link.
pub fn link(text: &str) -> (r: Option<String>)
    ensures
        match r {
            Some(url) => link_of(text@) == Some(url@),
            None => link_of(text@) is None,
        },
{
    let t = trim_chars(&chars_of(text));
    if has_prefix(&t, &chars_of("http")) {
        Some(string_all(&t))
    } else {
        None
    }
}

/// A pasted address that starts with `http` is taken as it is, without the
/// blank space around it.
pub proof fn a_pasted_link_is_taken(before: Seq<char>, rest: Seq<char>, after: Seq<char>)
    requires
        forall|j: int| 0 <= j < before.len() ==> is_white(#[trigger] before[j]),
        forall|j: int| 0 <= j < after.len() ==> is_white(#[trigger] after[j]),
        rest.len() == 0 || !is_white(rest.last()),
    ensures
        link_of(before + "http"@ + rest + after) == Some("http"@ + rest),
{
    reveal_strlit("http");
    let v = "http"@ + rest;
    assert(v[0] == 'h');
    assert(v.last() == (if rest.len() == 0 { 'p' } else { rest.last() }));
    assert(before + "http"@ + rest + after =~= before + v + after);
    crate::scan::lemma_trim_around(before, v, after);
    assert(v.take(4) =~= "http"@);
    assert(starts_with(v, "http"@));
}

} // verus!
