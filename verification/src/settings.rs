//! What the settings files hold.
use vstd::prelude::*;
use crate::scan::{chars_of, is_white, string_all, trim, trim_chars, trim_end};

verus! {

/// The folder under `%APPDATA%` that holds the settings.
pub const FOLDER: &'static str = "Snag";

/// The file that remembers the download folder.
pub const OUT_FILE: &'static str = "out.txt";

/// What a settings file's text holds: the text trimmed, unless nothing is left.
pub open spec fn stored_of(text: Seq<char>) -> Option<Seq<char>> {
    if trim(text).len() == 0 {
        None
    } else {
        Some(trim(text))
    }
}

/// Reads the value a settings file holds.
pub fn stored_value(text: &str) -> (r: Option<String>)
    ensures
        match r {
            Some(v) => stored_of(text@) == Some(v@),
            None => stored_of(text@) is None,
        },
{
    let t = trim_chars(&chars_of(text));
    if t.len() == 0 {
        None
    } else {
        Some(string_all(&t))
    }
}

/// A value saved to a settings file reads back as it was, whatever blank
/// space or line ends surround it.
pub proof fn a_saved_value_reads_back(before: Seq<char>, value: Seq<char>, after: Seq<char>)
    requires
        forall|j: int| 0 <= j < before.len() ==> is_white(#[trigger] before[j]),
        forall|j: int| 0 <= j < after.len() ==> is_white(#[trigger] after[j]),
        value.len() > 0,
        !is_white(value[0]) && !is_white(value.last()),
    ensures
        stored_of(before + value + after) == Some(value),
{
    crate::scan::lemma_trim_around(before, value, after);
}

/// A file that holds nothing but blank space holds no value.
pub proof fn a_blank_file_holds_nothing(text: Seq<char>)
    requires
        forall|j: int| 0 <= j < text.len() ==> is_white(#[trigger] text[j]),
    ensures
        stored_of(text) is None,
{
    crate::scan::lemma_trim_start_after_white(text, Seq::empty());
    assert(text + Seq::<char>::empty() =~= text);
    assert(trim_end(Seq::<char>::empty()) == Seq::<char>::empty());
}

} // verus!
