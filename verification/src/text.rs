//! Cutting text down to a number of characters for display.
use vstd::prelude::*;
use crate::scan::{chars_of, string_all, string_of};

verus! {

/// The mark that stands for what was cut.
pub open spec fn ellipsis() -> char {
    '…'
}

/// `s` cut to its first `max - 1` characters plus an ellipsis, when it is
/// longer than `max` characters.
pub open spec fn shortened(s: Seq<char>, max: nat) -> Seq<char> {
    if s.len() <= max {
        s
    } else {
        s.take(if max == 0 { 0 } else { max - 1 }).push(ellipsis())
    }
}

/// An ellipsis plus the last `max - 1` characters of `s`, when it is longer
/// than `max` characters.
pub open spec fn tailed(s: Seq<char>, max: nat) -> Seq<char> {
    if s.len() <= max {
        s
    } else {
        seq![ellipsis()] + s.skip(if max == 0 { s.len() as int } else { s.len() - max + 1 })
    }
}

/// Keeps the beginning of `text`, marking the cut with an ellipsis.
pub fn shorten(text: &str, max: usize) -> (r: String)
    ensures
        r@ == shortened(text@, max as nat),
        max >= 1 ==> r@.len() <= max,
        text@.len() <= max ==> r@ == text@,
        text@.len() > max >= 1 ==> r@.len() == max && r@.last() == '…' && r@.drop_last()
            == text@.take(max - 1),
{
    let v = chars_of(text);
    if v.len() <= max {
        return string_all(&v);
    }
    let keep = if max == 0 { 0 } else { max - 1 };
    let mut r = string_of(&v, 0, keep);
    r.push('…');
    assert(v@.subrange(0, keep as int) =~= v@.take(keep as int));
    r
}

/// Keeps the end of `text`, which is the useful half of a long path.
pub fn tail(text: &str, max: usize) -> (r: String)
    ensures
        r@ == tailed(text@, max as nat),
        max >= 1 ==> r@.len() <= max,
        text@.len() <= max ==> r@ == text@,
        text@.len() > max >= 1 ==> r@.len() == max && r@[0] == '…' && r@.drop_first()
            == text@.skip(text@.len() - (max - 1)),
{
    let v = chars_of(text);
    let count = v.len();
    if count <= max {
        return string_all(&v);
    }
    let from = if max == 0 { count } else { count - max + 1 };
    let mut r = String::new();
    r.push('…');
    let rest = string_of(&v, from, count);
    let mut r2 = r;
    r2.append(rest.as_str());
    assert(v@.subrange(from as int, count as int) =~= v@.skip(from as int));
    assert(r2@ =~= seq!['…'] + v@.skip(from as int));
    r2
}

} // verus!
