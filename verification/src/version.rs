//! Version tags such as `v1.2.3`, `1.2` or `2026.08.19`, read as three numbers.
use vstd::prelude::*;
use crate::scan::{
    chars_of, count_digits, digit_run, index_of, is_digit, is_white, lemma_digit_run,
    lemma_find_char_absent, lemma_find_char_after, position, slice, trim, trim_chars, trim_end,
    trim_start,
};

verus! {

/// The value of a run of ASCII digits.
pub open spec fn digits_value(d: Seq<char>) -> nat
    decreases d.len(),
{
    if d.len() == 0 {
        0
    } else {
        digits_value(d.drop_last()) * 10 + (d.last() as nat - '0' as nat) as nat
    }
}

/// `s` without any leading `v` or `V`.
pub open spec fn without_v(s: Seq<char>) -> Seq<char>
    decreases s.len(),
{
    if s.len() > 0 && (s[0] == 'v' || s[0] == 'V') {
        without_v(s.drop_first())
    } else {
        s
    }
}

/// The `k`-th piece of `s` between dots, counting from zero, if there are
/// that many.
pub open spec fn piece(s: Seq<char>, k: nat) -> Option<Seq<char>>
    decreases k,
{
    let d = index_of(s, '.');
    if k == 0 {
        Some(s.take(d))
    } else if d < s.len() {
        piece(s.skip(d + 1), (k - 1) as nat)
    } else {
        None
    }
}

/// What a piece is worth: the number its leading digits spell, or zero when
/// there are none, when they do not fit in a `u32`, or when the piece is missing.
pub open spec fn piece_value(p: Option<Seq<char>>) -> u32 {
    match p {
        None => 0,
        Some(p) => {
            let d = p.take(digit_run(p));
            if d.len() == 0 || digits_value(d) > u32::MAX {
                0
            } else {
                digits_value(d) as u32
            }
        },
    }
}

/// The three numbers a version tag stands for.
pub open spec fn version_of(s: Seq<char>) -> (u32, u32, u32) {
    let c = without_v(trim(s));
    (piece_value(piece(c, 0)), piece_value(piece(c, 1)), piece_value(piece(c, 2)))
}

/// `a` comes after `b` when their numbers are compared left to right.
pub open spec fn later(a: (u32, u32, u32), b: (u32, u32, u32)) -> bool {
    a.0 > b.0 || (a.0 == b.0 && (a.1 > b.1 || (a.1 == b.1 && a.2 > b.2)))
}

/// The number that the leading digits of `p` spell, as `str::parse::<u32>`
/// reads them.
fn leading_number(p: &Vec<char>) -> (n: u32)
    ensures
        n == piece_value(Some(p@)),
{
    let run = count_digits(p);
    let mut value: u64 = 0;
    let mut over = false;
    let mut k: usize = 0;
    assert(p@.take(0) =~= Seq::<char>::empty());
    while k < run
        invariant
            run == digit_run(p@),
            0 <= run <= p.len(),
            forall|j: int| 0 <= j < run ==> is_digit(p@[j]),
            k <= run,
            over ==> digits_value(p@.take(k as int)) > u32::MAX,
            !over ==> value == digits_value(p@.take(k as int)) && value <= u32::MAX,
        decreases run - k,
    {
        let d = (p[k] as u32) - ('0' as u32);
        assert(p@.take(k + 1).drop_last() =~= p@.take(k as int));
        if !over {
            value = value * 10 + d as u64;
            if value > 0xFFFF_FFFF {
                over = true;
            }
        }
        k += 1;
    }
    if over || run == 0 {
        0
    } else {
        value as u32
    }
}

/// Turns `v1.2.3`, `1.2` or `2026.08.19` into comparable numbers.
#[verifier::spinoff_prover]
pub fn number(text: &str) -> (r: (u32, u32, u32))
    ensures
        r == version_of(text@),
{
    let all = chars_of(text);
    let t = trim_chars(&all);
    let mut i: usize = 0;
    assert(t@.skip(0) =~= t@);
    while i < t.len() && (t[i] == 'v' || t[i] == 'V')
        invariant
            i <= t.len(),
            without_v(t@) == without_v(t@.skip(i as int)),
        decreases t.len() - i,
    {
        assert(t@.skip(i as int).drop_first() =~= t@.skip(i + 1));
        i += 1;
    }
    let c = slice(&t, i, t.len());
    assert(c@ =~= t@.skip(i as int));
    proof {
        if i < t.len() {
            assert(c@[0] == t@[i as int]);
        }
    }
    let (a, rest) = first_piece(&c);
    let (b, rest) = match rest {
        Some(r) => first_piece(&r),
        None => (0, None),
    };
    let (z, _) = match rest {
        Some(r) => first_piece(&r),
        None => (0, None),
    };
    (a, b, z)
}

/// The value of the first piece of `c`, and what follows its dot, if any.
fn first_piece(c: &Vec<char>) -> (r: (u32, Option<Vec<char>>))
    ensures
        r.0 == piece_value(piece(c@, 0)),
        match r.1 {
            Some(rest) => forall|k: nat| #[trigger] piece(rest@, k) == piece(c@, k + 1),
            None => forall|k: nat| #[trigger] piece(c@, k + 1) is None,
        },
{
    let d = position(c, '.');
    let p = slice(c, 0, d);
    assert(p@ =~= c@.take(d as int));
    let n = leading_number(&p);
    if d < c.len() {
        let rest = slice(c, d + 1, c.len());
        assert(rest@ =~= c@.skip(d + 1));
        (n, Some(rest))
    } else {
        (n, None)
    }
}

/// Whether `candidate` is a later version than `current`.
pub fn newer(candidate: &str, current: &str) -> (b: bool)
    ensures
        b == later(version_of(candidate@), version_of(current@)),
        version_of(candidate@).0 > version_of(current@).0 ==> b,
        version_of(candidate@).0 == version_of(current@).0 && version_of(candidate@).1
            > version_of(current@).1 ==> b,
        version_of(candidate@).0 == version_of(current@).0 && version_of(candidate@).1
            == version_of(current@).1 && version_of(candidate@).2 > version_of(current@).2 ==> b,
        b ==> version_of(candidate@).0 >= version_of(current@).0,
        b ==> version_of(candidate@).0 > version_of(current@).0 || (version_of(candidate@).0
            == version_of(current@).0 && version_of(candidate@).1 > version_of(current@).1) || (
        version_of(candidate@).0 == version_of(current@).0 && version_of(candidate@).1
            == version_of(current@).1 && version_of(candidate@).2 > version_of(current@).2),
{
    let a = number(candidate);
    let c = number(current);
    a.0 > c.0 || (a.0 == c.0 && (a.1 > c.1 || (a.1 == c.1 && a.2 > c.2)))
}

/// Versions are ordered by major number first, then minor, then patch: a
/// larger major wins; with equal majors a larger minor wins; with equal
/// majors and minors a larger patch wins; and nothing else is newer.
pub proof fn newer_is_major_then_minor_then_patch(x: (u32, u32, u32), y: (u32, u32, u32))
    ensures
        x.0 > y.0 ==> later(x, y),
        x.0 == y.0 && x.1 > y.1 ==> later(x, y),
        x.0 == y.0 && x.1 == y.1 && x.2 > y.2 ==> later(x, y),
        x.0 < y.0 ==> !later(x, y),
        x.0 == y.0 && x.1 < y.1 ==> !later(x, y),
        x.0 == y.0 && x.1 == y.1 && x.2 <= y.2 ==> !later(x, y),
{
}

proof fn lemma_zero_first_value(d: Seq<char>)
    ensures
        digits_value(seq!['0'] + d) == digits_value(d),
    decreases d.len(),
{
    let z = seq!['0'] + d;
    if d.len() == 0 {
        assert(z.drop_last() =~= Seq::<char>::empty());
        assert(z.last() == '0');
        assert(digits_value(z) == digits_value(z.drop_last()) * 10 + (z.last() as nat - '0' as nat) as nat);
    } else {
        assert(z.drop_last() =~= seq!['0'] + d.drop_last());
        assert(z.last() == d.last());
        lemma_zero_first_value(d.drop_last());
        assert(digits_value(z) == digits_value(z.drop_last()) * 10 + (z.last() as nat - '0' as nat) as nat);
    }
}

/// A run of digits is worth the base-10 number it spells: the value of one
/// digit is that digit, and a further digit on the right multiplies what came
/// before by ten and adds itself.
pub proof fn digits_spell_base_ten(d: Seq<char>, c: char)
    requires
        is_digit(c),
    ensures
        digits_value(seq![c]) == (c as nat) - ('0' as nat),
        digits_value(d.push(c)) == digits_value(d) * 10 + ((c as nat) - ('0' as nat)),
{
    assert(seq![c].drop_last() =~= Seq::<char>::empty());
    assert(d.push(c).drop_last() =~= d);
    assert((c as nat) >= ('0' as nat));
    assert(digits_value(seq![c]) == digits_value(seq![c].drop_last()) * 10 + (seq![c].last() as nat - '0' as nat) as nat);
}

/// Leading zeros do not change what a part of a tag is worth: `08` is 8.
pub proof fn leading_zeros_are_ignored(p: Seq<char>)
    ensures
        piece_value(Some(seq!['0'] + p)) == piece_value(Some(p)),
{
    let z = seq!['0'] + p;
    assert(z[0] == '0');
    assert(z.drop_first() =~= p);
    let k = digit_run(p);
    assert(digit_run(z) == 1 + k);
    lemma_digit_run_bounds(p);
    assert(z.take(1 + k) =~= seq!['0'] + p.take(k));
    lemma_zero_first_value(p.take(k));
    if k == 0 {
        assert(p.take(k) =~= Seq::<char>::empty());
        assert(seq!['0'] + p.take(k) =~= seq!['0']);
        assert(seq!['0'].drop_last() =~= Seq::<char>::empty());
    }
}

proof fn lemma_digit_run_bounds(s: Seq<char>)
    ensures
        0 <= digit_run(s) <= s.len(),
    decreases s.len(),
{
    if s.len() > 0 && is_digit(s[0]) {
        lemma_digit_run_bounds(s.drop_first());
    }
}

/// No version is newer than itself.
pub proof fn newer_is_irreflexive(a: Seq<char>)
    ensures
        !later(version_of(a), version_of(a)),
{
}

/// Of two versions, at most one is newer than the other.
pub proof fn newer_is_asymmetric(a: Seq<char>, b: Seq<char>)
    ensures
        later(version_of(a), version_of(b)) ==> !later(version_of(b), version_of(a)),
{
}

/// A version newer than one that is newer than a third is newer than the third.
pub proof fn newer_is_transitive(a: Seq<char>, b: Seq<char>, c: Seq<char>)
    ensures
        later(version_of(a), version_of(b)) && later(version_of(b), version_of(c)) ==> later(
            version_of(a),
            version_of(c),
        ),
{
}

/// Two versions with different numbers are ordered one way or the other.
pub proof fn newer_is_total(a: Seq<char>, b: Seq<char>)
    ensures
        version_of(a) != version_of(b) ==> later(version_of(a), version_of(b)) || later(
            version_of(b),
            version_of(a),
        ),
{
}

proof fn lemma_trim_end_after_v(v: char, s: Seq<char>)
    requires
        !is_white(v),
    ensures
        trim_end(seq![v] + s) == seq![v] + trim_end(s),
    decreases s.len(),
{
    let vs = seq![v] + s;
    if s.len() > 0 && is_white(s.last()) {
        assert(vs.last() == s.last());
        assert(vs.drop_last() =~= seq![v] + s.drop_last());
        lemma_trim_end_after_v(v, s.drop_last());
    } else if s.len() > 0 {
        assert(vs.last() == s.last());
    } else {
        assert(vs.last() == v);
        assert(vs =~= seq![v] + s);
    }
}

/// A leading `v` or `V` does not change what a tag means: `v1.2.3` and
/// `V1.2.3` are `1.2.3` (for any tag that does not itself begin with
/// whitespace).
pub proof fn v_prefix_is_ignored(v: char, s: Seq<char>)
    requires
        v == 'v' || v == 'V',
        s.len() == 0 || !is_white(s[0]),
    ensures
        version_of(seq![v] + s) == version_of(s),
{
    let vs = seq![v] + s;
    assert(vs[0] == v);
    assert(trim_start(vs) == vs);
    assert(trim_start(s) == s);
    lemma_trim_end_after_v(v, s);
    let t = trim_end(s);
    assert((seq![v] + t)[0] == v);
    assert((seq![v] + t).drop_first() =~= t);
}

/// Every character of `d` is an ASCII digit.
pub open spec fn all_digits(d: Seq<char>) -> bool {
    forall|i: int| 0 <= i < d.len() ==> is_digit(#[trigger] d[i])
}

/// A part is worth the number its leading digits spell, whatever follows
/// them: `08` is 8, `3-beta` is 3, `19rc1` is 19.
pub proof fn a_part_is_worth_its_leading_digits(d: Seq<char>, rest: Seq<char>)
    requires
        d.len() > 0,
        all_digits(d),
        digits_value(d) <= u32::MAX,
        rest.len() == 0 || !is_digit(rest[0]),
    ensures
        piece_value(Some(d + rest)) == digits_value(d),
{
    let p = d + rest;
    assert forall|j: int| 0 <= j < d.len() implies is_digit(p[j]) by {
        assert(p[j] == d[j]);
    }
    if rest.len() > 0 {
        assert(p[d.len() as int] == rest[0]);
    }
    lemma_digit_run(p, d.len() as int);
    assert(p.take(d.len() as int) =~= d);
}

/// A tag written as three runs of digits joined by dots reads back as the
/// numbers those runs spell, in order: major, minor, patch.
pub proof fn dotted_digits_read_back(x: Seq<char>, y: Seq<char>, z: Seq<char>)
    requires
        x.len() > 0 && y.len() > 0 && z.len() > 0,
        all_digits(x) && all_digits(y) && all_digits(z),
        digits_value(x) <= u32::MAX && digits_value(y) <= u32::MAX && digits_value(z) <= u32::MAX,
    ensures
        version_of(x + seq!['.'] + y + seq!['.'] + z) == (
            digits_value(x) as u32,
            digits_value(y) as u32,
            digits_value(z) as u32,
        ),
{
    let yz = y + seq!['.'] + z;
    let s = x + seq!['.'] + yz;
    assert(x + seq!['.'] + y + seq!['.'] + z =~= s);
    assert(s[0] == x[0]);
    assert(s.last() == z.last());
    assert(!is_white(s[0]) && !is_white(s.last()));
    assert(trim_start(s) == s);
    assert(trim_end(s) == s);
    assert(without_v(s) == s);
    lemma_find_char_after(x, '.', yz);
    lemma_find_char_after(y, '.', z);
    lemma_find_char_absent(z, '.');
    assert(s.take(x.len() as int) =~= x);
    assert(s.skip(x.len() + 1int) =~= yz);
    assert(yz.take(y.len() as int) =~= y);
    assert(yz.skip(y.len() + 1int) =~= z);
    assert(z.take(z.len() as int) =~= z);
    assert(piece(s, 0) == Some(x));
    assert(piece(yz, 0) == Some(y));
    assert(piece(z, 0) == Some(z));
    assert(piece(yz, 1) == piece(z, 0));
    assert(piece(s, 1) == piece(yz, 0));
    assert(piece(s, 2) == piece(yz, 1));
    a_part_is_worth_its_leading_digits(x, Seq::empty());
    a_part_is_worth_its_leading_digits(y, Seq::empty());
    a_part_is_worth_its_leading_digits(z, Seq::empty());
    assert(x + Seq::<char>::empty() =~= x);
    assert(y + Seq::<char>::empty() =~= y);
    assert(z + Seq::<char>::empty() =~= z);
}

} // verus!
