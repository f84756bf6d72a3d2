//! The aggregation of registry entries into the ordered table of records.

use vstd::prelude::*;
use crate::registry::{parse_data, registry_entries};
use crate::tone::{classify, classify_text};
use crate::{
    emoji_views, entry_views, gemoji_views, texts, Emoji, EmojiView, Entry, EntryView, Error,
    ErrorKind,
    Failure, Gemoji, GemojiView, Group, OwnedEmoji, OwnedEntry, SkinTone, Status,
};

verus! {

/// A copy of the strings of `v`.
pub fn copy_texts(v: &Vec<String>) -> (r: Vec<String>)
    ensures
        texts(r@) == texts(v@),
{
    let mut r: Vec<String> = Vec::new();
    let mut i: usize = 0;
    while i < v.len()
        invariant
            i <= v.len(),
            r@.len() == i,
            forall|j: int| 0 <= j < i ==> r@[j]@ == v@[j]@,
        decreases v.len() - i,
    {
        r.push(v[i].clone());
        i += 1;
    }
    assert(texts(r@) =~= texts(v@));
    r
}

/// The first record of `catalog` for the emoji `emoji`.
pub open spec fn lookup(catalog: Seq<GemojiView>, emoji: Seq<char>) -> Option<GemojiView>
    decreases catalog.len(),
{
    if catalog.len() == 0 {
        None
    } else if catalog[0].emoji == emoji {
        Some(catalog[0])
    } else {
        lookup(catalog.drop_first(), emoji)
    }
}

/// `entry` with the version, tags and aliases of the catalog record for its
/// emoji, and `entry` itself where the catalog has none.
pub open spec fn enriched(entry: EntryView, catalog: Seq<GemojiView>) -> EntryView {
    match lookup(catalog, entry.emoji) {
        Some(found) => EntryView {
            ios_version: Some(found.ios_version),
            tags: found.tags,
            aliases: found.aliases,
            ..entry
        },
        None => entry,
    }
}

/// Computes `lookup`: the index of the first record for `emoji`.
pub fn find_in_catalog(catalog: &Vec<Gemoji>, emoji: &String) -> (r: Option<usize>)
    ensures
        match r {
            Some(i) => i < catalog.len() && lookup(gemoji_views(catalog@), emoji@) == Some(
                catalog@[i as int]@,
            ),
            None => lookup(gemoji_views(catalog@), emoji@) is None,
        },
{
    let ghost all = gemoji_views(catalog@);
    let mut i: usize = 0;
    assert(all.skip(0) == all);
    while i < catalog.len()
        invariant
            i <= catalog.len(),
            all == gemoji_views(catalog@),
            lookup(all, emoji@) == lookup(all.skip(i as int), emoji@),
        decreases catalog.len() - i,
    {
        assert(all.skip(i as int)[0] == catalog@[i as int]@);
        if catalog[i].emoji == *emoji {
            return Some(i);
        }
        assert(all.skip(i as int).drop_first() == all.skip(i + 1));
        i += 1;
    }
    None
}

/// Gives `entry` the version, tags and aliases of the catalog record for its
/// emoji, and leaves it as it is where the catalog has none.
pub fn enrich(entry: OwnedEntry, catalog: &Vec<Gemoji>) -> (r: OwnedEntry)
    ensures
        r@ == enriched(entry@, gemoji_views(catalog@)),
{
    match find_in_catalog(catalog, &entry.emoji) {
        None => entry,
        Some(i) => {
            let found = &catalog[i];
            Entry {
                group: entry.group,
                subgroup: entry.subgroup,
                status: entry.status,
                unicode_version: entry.unicode_version,
                emoji: entry.emoji,
                name: entry.name,
                ios_version: Some(found.ios_version),
                tags: copy_texts(&found.tags),
                aliases: copy_texts(&found.aliases),
            }
        },
    }
}

/// Whether `record` can stand for a family: it has no tone, or the tone
/// `Default`.
pub open spec fn is_base(record: EmojiView) -> bool {
    record.skin_tone is None || record.skin_tone == Some(SkinTone::Default)
}

/// The index of the last record of `records` that can stand for a family and
/// has the group `group` and the subgroup `subgroup`.
pub open spec fn base_index(records: Seq<EmojiView>, group: Group, subgroup: Seq<char>) -> Option<
    int,
>
    decreases records.len(),
{
    if records.len() == 0 {
        None
    } else if is_base(records.last()) && records.last().entry.group == group
        && records.last().entry.subgroup == subgroup {
        Some(records.len() - 1)
    } else {
        base_index(records.drop_last(), group, subgroup)
    }
}

/// Whether `record` stays before a new record of the tone `tone`: it has no
/// tone, or one that comes before `tone`.
pub open spec fn stays_before(record: EmojiView, tone: SkinTone) -> bool {
    match record.skin_tone {
        None => true,
        Some(t) => t.rank() < tone.rank(),
    }
}

/// The first index from `from` on whose record does not stay before a new
/// record of the tone `tone`, or the length of `records`.
pub open spec fn insertion_index(records: Seq<EmojiView>, from: int, tone: SkinTone) -> int
    decreases records.len() - from,
{
    if from < 0 || from >= records.len() {
        records.len() as int
    } else if !stays_before(records[from], tone) {
        from
    } else {
        insertion_index(records, from + 1, tone)
    }
}

/// The record for `entry` alone, with the tone `tone`.
pub open spec fn single(entry: EntryView, tone: Option<SkinTone>) -> EmojiView {
    EmojiView { entry, skin_tones: 1, skin_tone: tone, variations: Seq::empty() }
}

/// `record` as the `Default` of its family, with one more tone variant.
pub open spec fn promoted(record: EmojiView) -> EmojiView {
    EmojiView {
        skin_tone: Some(SkinTone::Default),
        skin_tones: record.skin_tones + 1,
        ..record
    }
}

/// `record` with one more spelling of its emoji.
pub open spec fn with_variation(record: EmojiView, emoji: Seq<char>) -> EmojiView {
    EmojiView { variations: record.variations.push(emoji), ..record }
}

/// The table after the tone variant `entry`, of the tone `tone`: the last
/// record that can stand for a family of its group and subgroup becomes the
/// `Default` of the family and counts one variant more, and the new record
/// is put behind it, before the first record from there on that does not
/// stay before it.
pub open spec fn with_variant(records: Seq<EmojiView>, entry: EntryView, tone: SkinTone) -> Result<
    Seq<EmojiView>,
    Failure,
> {
    match base_index(records, entry.group, entry.subgroup) {
        None => Err(Failure { kind: ErrorKind::NoDefaultToneSibling, context: entry.name }),
        Some(i) => {
            let family = records.update(i, promoted(records[i]));
            Ok(family.insert(insertion_index(family, i, tone), single(entry, Some(tone))))
        },
    }
}

/// The table after one more entry of the registry.
///
/// An entry of the group or of the status `Component` changes nothing. A
/// minimally qualified or unqualified entry adds its emoji to the spellings
/// of the last record, and fails where there is none. A fully qualified
/// entry is first enriched from the catalog; without a tone, or with the
/// tone `Default`, it becomes a new last record, and with another tone a
/// variant of its family. A failure carries the name of the entry.
pub open spec fn absorbed(records: Seq<EmojiView>, entry: EntryView, catalog: Seq<GemojiView>)
    -> Result<Seq<EmojiView>, Failure> {
    if entry.group == Group::Component || entry.status == Status::Component {
        Ok(records)
    } else if entry.status != Status::FullyQualified {
        if records.len() == 0 {
            Err(Failure { kind: ErrorKind::NoCanonicalVariant, context: entry.name })
        } else {
            Ok(records.update(records.len() - 1, with_variation(records.last(), entry.emoji)))
        }
    } else {
        match classify(entry.emoji) {
            Err(kind) => Err(Failure { kind, context: entry.name }),
            Ok(None) => Ok(records.push(single(enriched(entry, catalog), None))),
            Ok(Some(SkinTone::Default)) => Ok(
                records.push(single(enriched(entry, catalog), Some(SkinTone::Default))),
            ),
            Ok(Some(tone)) => with_variant(records, enriched(entry, catalog), tone),
        }
    }
}

/// What holds of every table that was built from entries: each record
/// counts at least itself and at most all the records, and only the
/// `Default` of a family counts more than itself.
pub open spec fn well_formed(records: Seq<EmojiView>) -> bool {
    forall|i: int|
        0 <= i < records.len() ==> {
            &&& 1 <= (#[trigger] records[i]).skin_tones <= records.len()
            &&& records[i].skin_tone != Some(SkinTone::Default) ==> records[i].skin_tones == 1
        }
}

/// `base_index` gives an index into the table, of a record that can stand
/// for a family of that group and subgroup, and no later record can.
pub proof fn lemma_base_index(records: Seq<EmojiView>, group: Group, subgroup: Seq<char>)
    ensures
        match base_index(records, group, subgroup) {
            Some(i) => {
                &&& 0 <= i < records.len()
                &&& is_base(records[i])
                &&& records[i].entry.group == group
                &&& records[i].entry.subgroup == subgroup
                &&& forall|j: int|
                    i < j < records.len() ==> !(is_base(#[trigger] records[j])
                        && records[j].entry.group == group && records[j].entry.subgroup
                        == subgroup)
            },
            None => forall|j: int|
                0 <= j < records.len() ==> !(is_base(#[trigger] records[j])
                    && records[j].entry.group == group && records[j].entry.subgroup == subgroup),
        },
    decreases records.len(),
{
    if records.len() == 0 {
    } else if is_base(records.last()) && records.last().entry.group == group
        && records.last().entry.subgroup == subgroup {
    } else {
        let front = records.drop_last();
        lemma_base_index(front, group, subgroup);
        match base_index(front, group, subgroup) {
            Some(i) => {
                assert(records[i] == front[i]);
                assert forall|j: int| i < j < records.len() implies !(is_base(
                    #[trigger] records[j],
                ) && records[j].entry.group == group && records[j].entry.subgroup
                    == subgroup) by {
                    if j < front.len() {
                        assert(records[j] == front[j]);
                    }
                }
            },
            None => {
                assert forall|j: int| 0 <= j < records.len() implies !(is_base(
                    #[trigger] records[j],
                ) && records[j].entry.group == group && records[j].entry.subgroup
                    == subgroup) by {
                    if j < front.len() {
                        assert(records[j] == front[j]);
                    }
                }
            },
        }
    }
}

/// `insertion_index` gives an index from `from` up to the length; every
/// record from `from` up to it stays before the new record, and the record
/// at it does not.
pub proof fn lemma_insertion_index(records: Seq<EmojiView>, from: int, tone: SkinTone)
    requires
        0 <= from <= records.len(),
    ensures
        from <= insertion_index(records, from, tone) <= records.len(),
        forall|j: int|
            from <= j < insertion_index(records, from, tone) ==> stays_before(
                #[trigger] records[j],
                tone,
            ),
        insertion_index(records, from, tone) < records.len() ==> !stays_before(
            records[insertion_index(records, from, tone)],
            tone,
        ),
    decreases records.len() - from,
{
    if from < records.len() && stays_before(records[from], tone) {
        lemma_insertion_index(records, from + 1, tone);
    }
}

/// A well-formed table stays well-formed when it takes one more entry.
pub proof fn lemma_absorbed_well_formed(
    records: Seq<EmojiView>,
    entry: EntryView,
    catalog: Seq<GemojiView>,
)
    requires
        well_formed(records),
        absorbed(records, entry, catalog) is Ok,
    ensures
        well_formed(absorbed(records, entry, catalog)->Ok_0),
{
    let after = absorbed(records, entry, catalog)->Ok_0;
    if entry.group == Group::Component || entry.status == Status::Component {
    } else if entry.status != Status::FullyQualified {
        assert forall|i: int| 0 <= i < after.len() implies {
            &&& 1 <= (#[trigger] after[i]).skin_tones <= after.len()
            &&& after[i].skin_tone != Some(SkinTone::Default) ==> after[i].skin_tones == 1
        } by {
            assert(after[i].skin_tones == records[i].skin_tones);
            assert(after[i].skin_tone == records[i].skin_tone);
        }
    } else {
        let full = enriched(entry, catalog);
        match classify(entry.emoji) {
            Err(_) => {},
            Ok(None) => {
                lemma_pushed_well_formed(records, single(full, None));
            },
            Ok(Some(SkinTone::Default)) => {
                lemma_pushed_well_formed(records, single(full, Some(SkinTone::Default)));
            },
            Ok(Some(tone)) => {
                crate::tone::lemma_classify_not_default(entry.emoji);
                lemma_base_index(records, full.group, full.subgroup);
                let i = base_index(records, full.group, full.subgroup)->Some_0;
                let family = records.update(i, promoted(records[i]));
                lemma_insertion_index(family, i, tone);
                let at = insertion_index(family, i, tone);
                let added = single(full, Some(tone));
                assert(after == family.insert(at, added));
                assert forall|k: int| 0 <= k < after.len() implies {
                    &&& 1 <= (#[trigger] after[k]).skin_tones <= after.len()
                    &&& after[k].skin_tone != Some(SkinTone::Default) ==> after[k].skin_tones == 1
                } by {
                    if k < at {
                        assert(after[k] == family[k]);
                        if k != i {
                            assert(family[k] == records[k]);
                        }
                    } else if k == at {
                        assert(after[k] == added);
                    } else {
                        assert(after[k] == family[k - 1]);
                        if k - 1 != i {
                            assert(family[k - 1] == records[k - 1]);
                        }
                    }
                }
            },
        }
    }
}

/// A well-formed table stays well-formed with one more record that counts
/// only itself.
proof fn lemma_pushed_well_formed(records: Seq<EmojiView>, added: EmojiView)
    requires
        well_formed(records),
        added.skin_tones == 1,
    ensures
        well_formed(records.push(added)),
{
    let after = records.push(added);
    assert forall|i: int| 0 <= i < after.len() implies {
        &&& 1 <= (#[trigger] after[i]).skin_tones <= after.len()
        &&& after[i].skin_tone != Some(SkinTone::Default) ==> after[i].skin_tones == 1
    } by {
        if i < records.len() {
            assert(after[i] == records[i]);
        }
    }
}

/// Computes `base_index`.
pub fn find_base(records: &Vec<OwnedEmoji>, group: Group, subgroup: &String) -> (r: Option<usize>)
    ensures
        match r {
            Some(i) => base_index(emoji_views(records@), group, subgroup@) == Some(i as int),
            None => base_index(emoji_views(records@), group, subgroup@) is None,
        },
{
    let ghost all = emoji_views(records@);
    let mut k: usize = records.len();
    assert(all.take(k as int) == all);
    while k > 0
        invariant
            k <= records.len(),
            all == emoji_views(records@),
            base_index(all, group, subgroup@) == base_index(all.take(k as int), group, subgroup@),
        decreases k,
    {
        let record = &records[k - 1];
        assert(all.take(k as int).last() == record@);
        let base = match record.skin_tone {
            None => true,
            Some(SkinTone::Default) => true,
            Some(_) => false,
        };
        if base && record.entry.group == group && record.entry.subgroup == *subgroup {
            return Some(k - 1);
        }
        assert(all.take(k as int).drop_last() == all.take(k - 1));
        k -= 1;
    }
    None
}

/// Computes `insertion_index`.
pub fn find_insertion(records: &Vec<OwnedEmoji>, from: usize, tone: SkinTone) -> (r: usize)
    requires
        from <= records.len(),
    ensures
        r == insertion_index(emoji_views(records@), from as int, tone),
        from <= r <= records.len(),
{
    let ghost all = emoji_views(records@);
    let mut j: usize = from;
    while j < records.len()
        invariant
            from <= j <= records.len(),
            all == emoji_views(records@),
            insertion_index(all, from as int, tone) == insertion_index(all, j as int, tone),
        decreases records.len() - j,
    {
        assert(all[j as int] == records@[j as int]@);
        let stays = match records[j].skin_tone {
            None => true,
            Some(t) => t.order() < tone.order(),
        };
        if !stays {
            return j;
        }
        j += 1;
    }
    j
}

/// The failure `kind` for the entry named `name`.
fn failure_for(kind: ErrorKind, name: String) -> (e: Error)
    ensures
        e@ == (Failure { kind, context: name@ }),
{
    Error { kind, context: name }
}

/// Adds `emoji` to the spellings of the last record.
fn add_variation(records: &mut Vec<OwnedEmoji>, emoji: String)
    requires
        old(records).len() > 0,
    ensures
        emoji_views(final(records)@) == emoji_views(old(records)@).update(
            old(records).len() - 1,
            with_variation(emoji_views(old(records)@).last(), emoji@),
        ),
{
    let ghost before = emoji_views(records@);
    let n = records.len();
    let last = &mut records[n - 1];
    let ghost spellings = texts(last.variations@);
    last.variations.push(emoji);
    assert(texts(last.variations@) == spellings.push(emoji@));
    assert(emoji_views(records@) =~= before.update(
        before.len() - 1,
        with_variation(before.last(), emoji@),
    ));
}

/// Makes the record at `i` the `Default` of its family, with one more tone
/// variant.
fn promote(records: &mut Vec<OwnedEmoji>, i: usize)
    requires
        i < old(records).len(),
        old(records)@[i as int].skin_tones < usize::MAX,
    ensures
        emoji_views(final(records)@) == emoji_views(old(records)@).update(
            i as int,
            promoted(emoji_views(old(records)@)[i as int]),
        ),
{
    let ghost before = emoji_views(records@);
    let record = &mut records[i];
    record.skin_tone = Some(SkinTone::Default);
    record.skin_tones = record.skin_tones + 1;
    assert(emoji_views(records@) =~= before.update(i as int, promoted(before[i as int])));
}

/// The record for `entry` alone, with the tone `tone`.
fn new_record(entry: OwnedEntry, tone: Option<SkinTone>) -> (r: OwnedEmoji)
    ensures
        r@ == single(entry@, tone),
{
    let r = Emoji { entry, skin_tones: 1, skin_tone: tone, variations: Vec::new() };
    assert(texts(r.variations@) =~= Seq::<Seq<char>>::empty());
    r
}

/// A new record behind the `Default` of its family lands at the same index
/// whether the family was promoted before the search or not.
proof fn lemma_insertion_after_promotion(records: Seq<EmojiView>, i: int, from: int, tone: SkinTone)
    requires
        0 <= i < records.len(),
        i <= from <= records.len(),
        is_base(records[i]),
        tone != SkinTone::Default,
    ensures
        insertion_index(records.update(i, promoted(records[i])), from, tone) == insertion_index(
            records,
            from,
            tone,
        ),
    decreases records.len() - from,
{
    let family = records.update(i, promoted(records[i]));
    if from < records.len() {
        if from == i {
            assert(stays_before(records[from], tone));
            assert(stays_before(family[from], tone));
        } else {
            assert(family[from] == records[from]);
        }
        if stays_before(records[from], tone) {
            lemma_insertion_after_promotion(records, i, from + 1, tone);
        }
    }
}

/// Takes one more entry of the registry into the table.
///
/// On success the table is the one that `absorbed` describes. On failure it
/// is left as it was: a minimally qualified or unqualified entry found no
/// record (`NoCanonicalVariant`), a tone variant found no record of its
/// group and subgroup to belong to (`NoDefaultToneSibling`), or the emoji
/// holds more than two tone modifiers (`UnrecognizedToneCombination`).
pub fn absorb(records: &mut Vec<OwnedEmoji>, entry: OwnedEntry, catalog: &Vec<Gemoji>) -> (r:
    Result<(), Error>)
    requires
        well_formed(emoji_views(old(records)@)),
    ensures
        match r {
            Ok(()) => {
                &&& absorbed(emoji_views(old(records)@), entry@, gemoji_views(catalog@)) == Ok::<
                    Seq<EmojiView>,
                    Failure,
                >(emoji_views(final(records)@))
                &&& well_formed(emoji_views(final(records)@))
            },
            Err(e) => {
                &&& absorbed(emoji_views(old(records)@), entry@, gemoji_views(catalog@)) == Err::<
                    Seq<EmojiView>,
                    Failure,
                >(e@)
                &&& final(records)@ == old(records)@
            },
        },
{
    let ghost before = emoji_views(records@);
    let ghost raw = entry@;
    let ghost known = gemoji_views(catalog@);
    proof {
        if absorbed(before, raw, known) is Ok {
            lemma_absorbed_well_formed(before, raw, known);
        }
    }
    if entry.group == Group::Component || entry.status == Status::Component {
        return Ok(());
    }
    if entry.status != Status::FullyQualified {
        if records.len() == 0 {
            return Err(failure_for(ErrorKind::NoCanonicalVariant, entry.name));
        }
        add_variation(records, entry.emoji);
        return Ok(());
    }
    let tone = match classify_text(entry.emoji.as_str()) {
        Err(kind) => {
            return Err(failure_for(kind, entry.name));
        },
        Ok(tone) => tone,
    };
    let full = enrich(entry, catalog);
    match tone {
        None => {
            records.push(new_record(full, None));
            assert(emoji_views(records@) =~= before.push(single(full@, None)));
            Ok(())
        },
        Some(SkinTone::Default) => {
            records.push(new_record(full, Some(SkinTone::Default)));
            assert(emoji_views(records@) =~= before.push(
                single(full@, Some(SkinTone::Default)),
            ));
            Ok(())
        },
        Some(tone) => {
            let i = match find_base(records, full.group, &full.subgroup) {
                None => {
                    return Err(failure_for(ErrorKind::NoDefaultToneSibling, full.name));
                },
                Some(i) => i,
            };
            proof {
                lemma_base_index(before, full@.group, full@.subgroup);
                lemma_insertion_after_promotion(before, i as int, i as int, tone);
                lemma_insertion_index(before, i as int, tone);
            }
            let at = find_insertion(records, i, tone);
            assert(at > i);
            let ghost added = single(full@, Some(tone));
            records.insert(at, new_record(full, Some(tone)));
            assert(emoji_views(records@) =~= before.insert(at as int, added));
            assert(records.len() == before.len() + 1);
            assert(emoji_views(records@)[i as int] == before[i as int]);
            promote(records, i);
            assert(emoji_views(records@) =~= before.update(
                i as int,
                promoted(before[i as int]),
            ).insert(at as int, added));
            Ok(())
        },
    }
}

/// The table after the entries `entries`, taken one by one from the first.
pub open spec fn absorbed_all(
    records: Seq<EmojiView>,
    entries: Seq<EntryView>,
    catalog: Seq<GemojiView>,
) -> Result<Seq<EmojiView>, Failure>
    decreases entries.len(),
{
    if entries.len() == 0 {
        Ok(records)
    } else {
        match absorbed(records, entries[0], catalog) {
            Err(failure) => Err(failure),
            Ok(next) => absorbed_all(next, entries.drop_first(), catalog),
        }
    }
}

/// The table for the entries `entries` of a registry.
pub open spec fn table_of(entries: Seq<EntryView>, catalog: Seq<GemojiView>) -> Result<
    Seq<EmojiView>,
    Failure,
> {
    absorbed_all(Seq::empty(), entries, catalog)
}

/// Builds the table for the entries of a registry, taking them one by one
/// from the first; gives the first failure.
pub fn aggregate(entries: Vec<OwnedEntry>, catalog: &Vec<Gemoji>) -> (r: Result<
    Vec<OwnedEmoji>,
    Error,
>)
    ensures
        match r {
            Ok(records) => {
                &&& table_of(entry_views(entries@), gemoji_views(catalog@)) == Ok::<
                    Seq<EmojiView>,
                    Failure,
                >(emoji_views(records@))
                &&& well_formed(emoji_views(records@))
            },
            Err(e) => table_of(entry_views(entries@), gemoji_views(catalog@)) == Err::<
                Seq<EmojiView>,
                Failure,
            >(e@),
        },
{
    let ghost all = entry_views(entries@);
    let ghost known = gemoji_views(catalog@);
    let mut records: Vec<OwnedEmoji> = Vec::new();
    assert(emoji_views(records@) =~= Seq::<EmojiView>::empty());
    assert(all.skip(0) == all);
    for entry in it: entries
        invariant
            it.seq() == entries@,
            all == entry_views(entries@),
            known == gemoji_views(catalog@),
            well_formed(emoji_views(records@)),
            table_of(all, known) == absorbed_all(
                emoji_views(records@),
                all.skip(it.index() as int),
                known,
            ),
    {
        let ghost k = it.index() as int;
        assert(all.skip(k)[0] == entry@);
        assert(all.skip(k).drop_first() == all.skip(k + 1));
        match absorb(&mut records, entry, catalog) {
            Err(e) => {
                return Err(e);
            },
            Ok(()) => {},
        }
    }
    assert(all.skip(entries@.len() as int).len() == 0);
    Ok(records)
}

/// The table for the registry text `text`: that of its entries, or the
/// failure of the text itself.
pub open spec fn built(text: Seq<char>, catalog: Seq<GemojiView>) -> Result<
    Seq<EmojiView>,
    Failure,
> {
    match registry_entries(text) {
        Err(failure) => Err(failure),
        Ok(entries) => table_of(entries, catalog),
    }
}

/// Builds the table of emoji from the text of the registry and the alias
/// catalog.
///
/// The text is read line by line and its entries are taken into the table
/// in their order. The first line or entry that fails ends the build with
/// its failure: there is no partial table.
pub fn build(data: &str, catalog: &Vec<Gemoji>) -> (r: Result<Vec<OwnedEmoji>, Error>)
    ensures
        match r {
            Ok(records) => {
                &&& built(data@, gemoji_views(catalog@)) == Ok::<Seq<EmojiView>, Failure>(
                    emoji_views(records@),
                )
                &&& well_formed(emoji_views(records@))
            },
            Err(e) => built(data@, gemoji_views(catalog@)) == Err::<Seq<EmojiView>, Failure>(e@),
        },
{
    match parse_data(data) {
        Err(e) => Err(e),
        Ok(entries) => aggregate(entries, catalog),
    }
}

} // verus!
