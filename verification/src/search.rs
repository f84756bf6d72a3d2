//! Search in the table: a record matches a query that occurs, without regard
//! to case, in one of its texts.

use vstd::prelude::*;
use crate::text::{same_text, to_chars};
use crate::{static_views, Emoji, EmojiView, StaticEmoji};
use vstd::slice::slice_subrange;

verus! {

/// `s` in lower case, as `str::to_lowercase` maps it.
pub uninterp spec fn lowercase(s: Seq<char>) -> Seq<char>;

/// `str::to_lowercase` gives the text in lower case. The contract gives that
/// text the name `lowercase` and claims only that it depends on nothing but
/// the characters of `s`.
#[verifier::external_body]
fn lowered(s: &str) -> (r: String)
    ensures
        r@ == lowercase(s@),
{
    s.to_lowercase()
}

/// Whether `needle` stands in `hay` at the index `at`.
pub open spec fn occurs_at(needle: Seq<char>, hay: Seq<char>, at: int) -> bool {
    0 <= at && at + needle.len() <= hay.len() && hay.subrange(at, at + needle.len()) == needle
}

/// Whether `needle` stands somewhere in `hay`.
pub open spec fn occurs_in(needle: Seq<char>, hay: Seq<char>) -> bool {
    exists|at: int| occurs_at(needle, hay, at)
}

/// Decides `occurs_in`.
pub fn text_contains(hay: &str, needle: &str) -> (r: bool)
    ensures
        r == occurs_in(needle@, hay@),
{
    let h = to_chars(hay);
    let n = to_chars(needle);
    if n.len() > h.len() {
        assert forall|at: int| !occurs_at(needle@, hay@, at) by {}
        return false;
    }
    if n.len() == 0 {
        assert(hay@.subrange(0, 0) == needle@);
        assert(occurs_at(needle@, hay@, 0));
        return true;
    }
    let last: usize = h.len() - n.len();
    let mut at: usize = 0;
    while at <= last
        invariant
            h@ == hay@,
            n@ == needle@,
            1 <= n.len() <= h.len(),
            last == h.len() - n.len(),
            at <= last + 1,
            forall|k: int| 0 <= k < at ==> !occurs_at(needle@, hay@, k),
        decreases last + 1 - at,
    {
        if same_text(slice_subrange(h.as_slice(), at, at + n.len()), n.as_slice()) {
            assert(occurs_at(needle@, hay@, at as int));
            return true;
        }
        at += 1;
    }
    assert forall|k: int| !occurs_at(needle@, hay@, k) by {}
    false
}

/// Whether `needle` stands in one of `texts`, each taken in lower case.
pub open spec fn occurs_in_any(needle: Seq<char>, texts: Seq<Seq<char>>) -> bool {
    exists|i: int| 0 <= i < texts.len() && occurs_in(needle, lowercase(#[trigger] texts[i]))
}

/// Whether the query `q` matches `record`: it is empty, or in lower case it
/// stands in the emoji, the name, the subgroup, a tag or an alias of the
/// record, each taken in lower case.
pub open spec fn matches(record: EmojiView, q: Seq<char>) -> bool {
    q.len() == 0 || {
        let needle = lowercase(q);
        ||| occurs_in(needle, lowercase(record.entry.emoji))
        ||| occurs_in(needle, lowercase(record.entry.name))
        ||| occurs_in(needle, lowercase(record.entry.subgroup))
        ||| occurs_in_any(needle, record.entry.tags)
        ||| occurs_in_any(needle, record.entry.aliases)
    }
}

/// Whether `needle` stands in `text` taken in lower case.
fn lowered_contains(text: &str, needle: &str) -> (r: bool)
    ensures
        r == occurs_in(needle@, lowercase(text@)),
{
    let low = lowered(text);
    text_contains(low.as_str(), needle)
}

/// Decides `occurs_in_any`.
fn any_contains(texts: &Vec<String>, needle: &str) -> (r: bool)
    ensures
        r == occurs_in_any(needle@, crate::texts(texts@)),
{
    let ghost all = crate::texts(texts@);
    let mut i: usize = 0;
    while i < texts.len()
        invariant
            i <= texts.len(),
            all == crate::texts(texts@),
            forall|k: int| 0 <= k < i ==> !occurs_in(needle@, lowercase(#[trigger] all[k])),
        decreases texts.len() - i,
    {
        assert(all[i as int] == texts@[i as int]@);
        if lowered_contains(texts[i].as_str(), needle) {
            return true;
        }
        i += 1;
    }
    false
}

impl Emoji<String, Vec<String>> {
    /// Whether the query `q` matches the record, without regard to case.
    pub fn matches_search(&self, q: &str) -> (r: bool)
        ensures
            r == matches(self@, q@),
    {
        if q.is_empty() {
            return true;
        }
        let low = lowered(q);
        let needle = low.as_str();
        if lowered_contains(self.entry.emoji.as_str(), needle) {
            return true;
        }
        if lowered_contains(self.entry.name.as_str(), needle) {
            return true;
        }
        if lowered_contains(self.entry.subgroup.as_str(), needle) {
            return true;
        }
        if any_contains(&self.entry.tags, needle) {
            return true;
        }
        any_contains(&self.entry.aliases, needle)
    }
}

/// The indices of the records of `records` that the query `q` matches, in
/// their order.
pub open spec fn matching(records: Seq<EmojiView>, q: Seq<char>) -> Seq<int>
    decreases records.len(),
{
    if records.len() == 0 {
        Seq::empty()
    } else if matches(records.last(), q) {
        matching(records.drop_last(), q).push(records.len() - 1)
    } else {
        matching(records.drop_last(), q)
    }
}

/// The indices of the records that a picker shows for the query `q`: those
/// that `q` in lower case matches, and all of them for an empty query.
pub open spec fn shown(records: Seq<EmojiView>, q: Seq<char>) -> Seq<int> {
    if q.len() == 0 {
        matching(records, q)
    } else {
        matching(records, lowercase(q))
    }
}

/// Decides `occurs_in_any` for string slices.
fn any_slice_contains(texts: &[&'static str], needle: &str) -> (r: bool)
    ensures
        r == occurs_in_any(needle@, crate::slice_texts(texts@)),
{
    let ghost all = crate::slice_texts(texts@);
    let mut i: usize = 0;
    while i < texts.len()
        invariant
            i <= texts.len(),
            all == crate::slice_texts(texts@),
            forall|k: int| 0 <= k < i ==> !occurs_in(needle@, lowercase(#[trigger] all[k])),
        decreases texts.len() - i,
    {
        assert(all[i as int] == texts@[i as int]@);
        if lowered_contains(texts[i], needle) {
            return true;
        }
        i += 1;
    }
    false
}

impl Emoji<&'static str, &'static [&'static str]> {
    /// Whether the query `q` matches the record, without regard to case.
    pub fn matches_search(&self, q: &str) -> (r: bool)
        ensures
            r == matches(self@, q@),
    {
        if q.is_empty() {
            return true;
        }
        let low = lowered(q);
        let needle = low.as_str();
        if lowered_contains(self.entry.emoji, needle) {
            return true;
        }
        if lowered_contains(self.entry.name, needle) {
            return true;
        }
        if lowered_contains(self.entry.subgroup, needle) {
            return true;
        }
        if any_slice_contains(self.entry.tags, needle) {
            return true;
        }
        any_slice_contains(self.entry.aliases, needle)
    }
}

/// The indices of the records of the table `records` that a picker shows
/// for `query`, in their order.
pub fn search(records: &[StaticEmoji], query: &str) -> (found: Vec<usize>)
    ensures
        found@.len() == shown(static_views(records@), query@).len(),
        forall|k: int|
            0 <= k < found@.len() ==> found@[k] as int == shown(static_views(records@), query@)[k],
{
    let ghost all = static_views(records@);
    let low = if query.is_empty() {
        String::new()
    } else {
        lowered(query)
    };
    let ghost q = low@;
    assert(shown(all, query@) == matching(all, q)) by {
        if query@.len() == 0 {
            assert(q =~= query@);
        }
    }
    let mut found: Vec<usize> = Vec::new();
    let mut i: usize = 0;
    assert(all.take(0) =~= Seq::<EmojiView>::empty());
    while i < records.len()
        invariant
            i <= records.len(),
            all == static_views(records@),
            q == low@,
            found@.len() == matching(all.take(i as int), q).len(),
            forall|k: int|
                0 <= k < found@.len() ==> found@[k] as int == matching(all.take(i as int), q)[k],
        decreases records.len() - i,
    {
        let ghost now = all.take(i + 1);
        assert(now.drop_last() =~= all.take(i as int));
        assert(now.last() == records@[i as int]@);
        if records[i].matches_search(low.as_str()) {
            found.push(i);
        }
        i += 1;
    }
    assert(all.take(i as int) =~= all);
    found
}

} // verus!
