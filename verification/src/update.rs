//! The release check: reading GitHub's answer about the newest release, and
//! deciding which addresses may be opened.
use vstd::prelude::*;
use crate::version::{later, newer, version_of};
use crate::scan::{
    chars_of, find, find_chars, has_prefix, lemma_find, occurs_at, position, slice, starts_with,
    string_all, trim_start, trim_start_chars,
};

verus! {

pub const REPO: &'static str = "sebastian642431/snag-app";

/// A release: its tag and the page that shows it.
#[derive(Clone, PartialEq, Debug)]
pub struct Release {
    pub tag: String,
    pub page: String,
}

impl View for Release {
    type V = (Seq<char>, Seq<char>);

    open spec fn view(&self) -> (Seq<char>, Seq<char>) {
        (self.tag@, self.page@)
    }
}

/// The string value of `key` in a JSON object: found after the first
/// occurrence of the quoted key, its colon and any whitespace, up to the next
/// quote.
pub open spec fn json_string_of(body: Seq<char>, key: Seq<char>) -> Option<Seq<char>> {
    let needle = seq!['"'] + key + seq!['"'];
    match find(body, needle) {
        None => None,
        Some(i) => {
            let rest = body.skip(i + needle.len());
            match find(rest, seq![':']) {
                None => None,
                Some(j) => {
                    let value = trim_start(rest.skip(j + 1));
                    if value.len() > 0 && value[0] == '"' {
                        let inner = value.drop_first();
                        match find(inner, seq!['"']) {
                            None => None,
                            Some(k) => Some(inner.take(k)),
                        }
                    } else {
                        None
                    }
                },
            }
        },
    }
}

/// The page shown when GitHub's answer names none.
pub open spec fn fallback_page() -> Seq<char> {
    "https://github.com/"@ + REPO@ + "/releases/latest"@
}

/// The release GitHub's answer describes: its tag must be there and not
/// empty; its page falls back to the project's latest-release page.
pub open spec fn release_of(body: Seq<char>) -> Option<(Seq<char>, Seq<char>)> {
    match json_string_of(body, "tag_name"@) {
        Some(tag) => if tag.len() > 0 {
            Some(
                (
                    tag,
                    match json_string_of(body, "html_url"@) {
                        Some(page) => page,
                        None => fallback_page(),
                    },
                ),
            )
        } else {
            None
        },
        None => None,
    }
}

/// Pulls one string value out of a JSON object by key. The release payload
/// is the only JSON this project reads and it needs two fields of it, which
/// does not justify a JSON dependency in a crate that otherwise has none.
pub fn json_string(body: &str, key: &str) -> (r: Option<String>)
    ensures
        match r {
            Some(v) => json_string_of(body@, key@) == Some(v@),
            None => json_string_of(body@, key@) is None,
        },
{
    let b = chars_of(body);
    let k = chars_of(key);
    let mut needle: Vec<char> = Vec::new();
    needle.push('"');
    let mut i: usize = 0;
    while i < k.len()
        invariant
            i <= k.len(),
            needle@ == seq!['"'] + k@.take(i as int),
        decreases k.len() - i,
    {
        needle.push(k[i]);
        i += 1;
        assert(needle@ =~= seq!['"'] + k@.take(i as int));
    }
    needle.push('"');
    assert(k@.take(k.len() as int) =~= k@);
    assert(needle@ =~= seq!['"'] + key@ + seq!['"']);
    let at = match find_chars(&b, &needle) {
        Some(at) => at,
        None => return None,
    };
    proof {
        lemma_find(b@, needle@);
        assert(occurs_at(b@, needle@, at as int));
    }
    assert(at + needle.len() <= b.len());
    let rest = slice(&b, at + needle.len(), b.len());
    assert(rest@ =~= b@.skip(at + needle@.len()));
    let colon = position(&rest, ':');
    if colon == rest.len() {
        return None;
    }
    let after = slice(&rest, colon + 1, rest.len());
    assert(after@ =~= rest@.skip(colon + 1));
    let value = trim_start_chars(&after);
    if value.len() == 0 || value[0] != '"' {
        return None;
    }
    let inner = slice(&value, 1, value.len());
    assert(inner@ =~= value@.drop_first());
    let end = position(&inner, '"');
    if end == inner.len() {
        return None;
    }
    let found = slice(&inner, 0, end);
    assert(found@ =~= inner@.take(end as int));
    Some(string_all(&found))
}

/// A text without quotes, written as a JSON string field at the start of an
/// object, is read back by `json_string` as it was written.
pub proof fn a_written_field_reads_back(key: Seq<char>, value: Seq<char>, tail: Seq<char>)
    requires
        forall|j: int| 0 <= j < value.len() ==> value[j] != '"',
    ensures
        json_string_of(
            seq!['"'] + key + seq!['"', ':', '"'] + value + seq!['"'] + tail,
            key,
        ) == Some(value),
{
    let needle = seq!['"'] + key + seq!['"'];
    let body = seq!['"'] + key + seq!['"', ':', '"'] + value + seq!['"'] + tail;
    assert(body.subrange(0, needle.len() as int) =~= needle);
    assert(occurs_at(body, needle, 0));
    let rest = body.skip(needle.len() as int);
    assert(rest =~= seq![':', '"'] + value + seq!['"'] + tail);
    assert(rest.subrange(0, 1) =~= seq![':']);
    assert(occurs_at(rest, seq![':'], 0));
    let v = rest.skip(1);
    assert(v =~= seq!['"'] + value + seq!['"'] + tail);
    assert(v[0] == '"');
    assert(trim_start(v) == v);
    let inner = v.drop_first();
    assert(inner =~= value + seq!['"'] + tail);
    lemma_find(inner, seq!['"']);
    assert(inner[value.len() as int] == '"');
    assert(inner.subrange(value.len() as int, value.len() as int + 1) =~= seq!['"']);
    assert(occurs_at(inner, seq!['"'], value.len() as int));
    assert forall|j: int| 0 <= j < value.len() implies !occurs_at(inner, seq!['"'], j) by {
        assert(inner[j] == value[j]);
        if occurs_at(inner, seq!['"'], j) {
            assert(inner.subrange(j, j + 1)[0] == inner[j]);
        }
    }
    assert(inner.take(value.len() as int) =~= value);
}

/// Reads GitHub's answer about the newest release.
pub fn parse_release(body: &str) -> (r: Option<Release>)
    ensures
        match r {
            Some(rel) => release_of(body@) == Some(rel@),
            None => release_of(body@) is None,
        },
{
    let tag = match json_string(body, "tag_name") {
        Some(t) => t,
        None => return None,
    };
    if chars_of(tag.as_str()).len() == 0 {
        return None;
    }
    let page = match json_string(body, "html_url") {
        Some(p) => p,
        None => {
            let mut p = String::from_str("https://github.com/");
            p.append(REPO);
            p.append("/releases/latest");
            p
        },
    };
    Some(Release { tag, page })
}

/// A release read from GitHub's answer always has a tag, and a page on
/// github.com when the answer names none.
pub proof fn a_release_points_somewhere(body: Seq<char>)
    ensures
        release_of(body) matches Some((tag, page)) ==> tag.len() > 0 && (json_string_of(
            body,
            "html_url"@,
        ) is None ==> starts_with(page, "https://github.com/"@)),
{
    reveal_strlit("https://github.com/");
    let f = fallback_page();
    assert(f.take("https://github.com/"@.len() as int) =~= "https://github.com/"@);
}

/// The release, when it is newer than the version that is running.
pub fn newer_release(release: Release, current: &str) -> (r: Option<Release>)
    ensures
        match r {
            Some(rel) => rel == release && later(version_of(release.tag@), version_of(current@)),
            None => !later(version_of(release.tag@), version_of(current@)),
        },
{
    if newer(release.tag.as_str(), current) {
        Some(release)
    } else {
        None
    }
}

/// Whether a page may be handed to the shell to open: the address comes
/// from GitHub's API, so anything outside github.com is refused.
pub fn may_open(page: &str) -> (b: bool)
    ensures
        b == starts_with(page@, "https://github.com/"@),
{
    has_prefix(&chars_of(page), &chars_of("https://github.com/"))
}

/// The address that answers with the newest release.
pub fn latest_release_api() -> (r: String)
    ensures
        r@ == "https://api.github.com/repos/"@ + REPO@ + "/releases/latest"@,
{
    let mut r = String::from_str("https://api.github.com/repos/");
    r.append(REPO);
    r.append("/releases/latest");
    r
}

} // verus!
