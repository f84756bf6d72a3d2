//! What holds of the tables that the aggregation builds.

use vstd::prelude::*;
use crate::aggregate::{
    absorbed, absorbed_all, base_index, enriched, insertion_index, is_base, lemma_base_index,
    lemma_insertion_index, lookup, promoted, single, stays_before, table_of,
};
use crate::tone::{classify, lemma_classify_not_default};
use crate::{EmojiView, EntryView, ErrorKind, Failure, GemojiView, Group, SkinTone, Status};

verus! {

/// A minimally qualified or unqualified entry that comes before any record
/// fails the build with `NoCanonicalVariant`.
pub proof fn lemma_variation_needs_record(entries: Seq<EntryView>, catalog: Seq<GemojiView>)
    requires
        entries.len() > 0,
        entries[0].group != Group::Component,
        entries[0].status == Status::MinimallyQualified || entries[0].status
            == Status::Unqualified,
    ensures
        table_of(entries, catalog) == Err::<Seq<EmojiView>, Failure>(
            Failure { kind: ErrorKind::NoCanonicalVariant, context: entries[0].name },
        ),
{
}

/// A fully qualified entry with a tone fails with `NoDefaultToneSibling`
/// where no record of its group and subgroup can stand for its family.
pub proof fn lemma_variant_needs_base(
    records: Seq<EmojiView>,
    entry: EntryView,
    catalog: Seq<GemojiView>,
    tone: SkinTone,
)
    requires
        entry.group != Group::Component,
        entry.status == Status::FullyQualified,
        classify(entry.emoji) == Ok::<Option<SkinTone>, ErrorKind>(Some(tone)),
        forall|j: int|
            0 <= j < records.len() ==> !(is_base(#[trigger] records[j]) && records[j].entry.group
                == entry.group && records[j].entry.subgroup == entry.subgroup),
    ensures
        absorbed(records, entry, catalog) == Err::<Seq<EmojiView>, Failure>(
            Failure { kind: ErrorKind::NoDefaultToneSibling, context: entry.name },
        ),
{
    lemma_classify_not_default(entry.emoji);
    lemma_base_index(records, entry.group, entry.subgroup);
}

/// `lookup` gives the first record of the catalog for the emoji, and none
/// where the catalog has no record for it.
pub proof fn lemma_lookup(catalog: Seq<GemojiView>, emoji: Seq<char>)
    ensures
        match lookup(catalog, emoji) {
            Some(found) => exists|i: int|
                {
                    &&& 0 <= i < catalog.len()
                    &&& #[trigger] catalog[i] == found
                    &&& found.emoji == emoji
                    &&& forall|j: int| 0 <= j < i ==> (#[trigger] catalog[j]).emoji != emoji
                },
            None => forall|j: int| 0 <= j < catalog.len() ==> (#[trigger] catalog[j]).emoji != emoji,
        },
    decreases catalog.len(),
{
    if catalog.len() == 0 {
    } else if catalog[0].emoji == emoji {
        assert(catalog[0] == lookup(catalog, emoji)->Some_0);
    } else {
        let rest = catalog.drop_first();
        lemma_lookup(rest, emoji);
        match lookup(rest, emoji) {
            Some(found) => {
                let i = choose|i: int|
                    {
                        &&& 0 <= i < rest.len()
                        &&& #[trigger] rest[i] == found
                        &&& found.emoji == emoji
                        &&& forall|j: int| 0 <= j < i ==> (#[trigger] rest[j]).emoji != emoji
                    };
                assert(catalog[i + 1] == found);
                assert forall|j: int| 0 <= j < i + 1 implies (#[trigger] catalog[j]).emoji
                    != emoji by {
                    if j > 0 {
                        assert(catalog[j] == rest[j - 1]);
                    }
                }
            },
            None => {
                assert forall|j: int| 0 <= j < catalog.len() implies (#[trigger] catalog[j]).emoji
                    != emoji by {
                    if j > 0 {
                        assert(catalog[j] == rest[j - 1]);
                    }
                }
            },
        }
    }
}

/// An entry whose emoji has a record in the catalog gets the version, the
/// tags and the aliases of the first such record, and keeps all else.
pub proof fn lemma_enriched_known(entry: EntryView, catalog: Seq<GemojiView>, i: int)
    requires
        0 <= i < catalog.len(),
        catalog[i].emoji == entry.emoji,
        forall|j: int| 0 <= j < i ==> (#[trigger] catalog[j]).emoji != entry.emoji,
    ensures
        enriched(entry, catalog) == (EntryView {
            ios_version: Some(catalog[i].ios_version),
            tags: catalog[i].tags,
            aliases: catalog[i].aliases,
            ..entry
        }),
{
    lemma_lookup(catalog, entry.emoji);
    match lookup(catalog, entry.emoji) {
        Some(found) => {
            let k = choose|k: int|
                {
                    &&& 0 <= k < catalog.len()
                    &&& #[trigger] catalog[k] == found
                    &&& found.emoji == entry.emoji
                    &&& forall|j: int| 0 <= j < k ==> (#[trigger] catalog[j]).emoji != entry.emoji
                };
            if k < i {
                assert(catalog[k].emoji != entry.emoji);
            } else if i < k {
                assert(catalog[i].emoji != entry.emoji);
            }
        },
        None => {
            assert(catalog[i].emoji != entry.emoji);
        },
    }
}

/// An entry whose emoji has no record in the catalog stays as it is: one
/// that was read from the registry keeps its empty tags and aliases and has
/// no version of its own.
pub proof fn lemma_enriched_unknown(entry: EntryView, catalog: Seq<GemojiView>)
    requires
        forall|j: int| 0 <= j < catalog.len() ==> (#[trigger] catalog[j]).emoji != entry.emoji,
    ensures
        enriched(entry, catalog) == entry,
{
    lemma_lookup(catalog, entry.emoji);
    match lookup(catalog, entry.emoji) {
        Some(found) => {
            let k = choose|k: int|
                {
                    &&& 0 <= k < catalog.len()
                    &&& #[trigger] catalog[k] == found
                    &&& found.emoji == entry.emoji
                    &&& forall|j: int| 0 <= j < k ==> (#[trigger] catalog[j]).emoji != entry.emoji
                };
            assert(catalog[k].emoji != entry.emoji);
        },
        None => {},
    }
}

/// Whether `record` has no tone and counts only itself.
pub open spec fn is_plain(record: EmojiView) -> bool {
    record.skin_tone is None && record.skin_tones == 1
}

/// Where no emoji holds a tone modifier no family has a tone variant, and
/// then every record of the table has no tone and counts only itself.
pub proof fn lemma_no_variants_no_tones(
    records: Seq<EmojiView>,
    entries: Seq<EntryView>,
    catalog: Seq<GemojiView>,
)
    requires
        forall|i: int| 0 <= i < records.len() ==> is_plain(#[trigger] records[i]),
        forall|k: int|
            0 <= k < entries.len() ==> classify((#[trigger] entries[k]).emoji) == Ok::<
                Option<SkinTone>,
                ErrorKind,
            >(None),
        absorbed_all(records, entries, catalog) is Ok,
    ensures
        forall|i: int|
            0 <= i < absorbed_all(records, entries, catalog)->Ok_0.len() ==> is_plain(
                #[trigger] absorbed_all(records, entries, catalog)->Ok_0[i],
            ),
    decreases entries.len(),
{
    if entries.len() > 0 {
        let entry = entries[0];
        let next = absorbed(records, entry, catalog)->Ok_0;
        assert forall|i: int| 0 <= i < next.len() implies is_plain(#[trigger] next[i]) by {
            if entry.group == Group::Component || entry.status == Status::Component {
            } else if entry.status != Status::FullyQualified {
                assert(next[i].skin_tone == records[i].skin_tone);
                assert(next[i].skin_tones == records[i].skin_tones);
            } else {
                if i < records.len() {
                    assert(next[i] == records[i]);
                }
            }
        }
        let rest = entries.drop_first();
        assert forall|k: int| 0 <= k < rest.len() implies classify((#[trigger] rest[k]).emoji)
            == Ok::<Option<SkinTone>, ErrorKind>(None) by {
            assert(rest[k] == entries[k + 1]);
        }
        lemma_no_variants_no_tones(next, rest, catalog);
    }
}

/// The place of the tone of `record` in the order of the tones; a record
/// without a tone comes before all tones.
pub open spec fn tone_rank(record: EmojiView) -> int {
    match record.skin_tone {
        None => -1,
        Some(tone) => tone.rank() as int,
    }
}

/// Whether the family of the record at `at` is the one that the table ends
/// with: the record can stand for a family of `group` and `subgroup`, and
/// all the records behind it are tone variants, in the order of their tones.
pub open spec fn ends_with_family(
    records: Seq<EmojiView>,
    at: int,
    group: Group,
    subgroup: Seq<char>,
) -> bool {
    &&& 0 <= at < records.len()
    &&& is_base(records[at])
    &&& records[at].entry.group == group
    &&& records[at].entry.subgroup == subgroup
    &&& forall|j: int| at < j < records.len() ==> !is_base(#[trigger] records[j])
    &&& forall|a: int, b: int|
        at < a <= b < records.len() ==> tone_rank(#[trigger] records[a]) <= tone_rank(
            #[trigger] records[b],
        )
}

/// Where a tone variant of the family that the table ends with is put: the
/// record of the family is found at `at`, and the variant goes behind it,
/// behind all the variants that stay before it and before the first that
/// does not.
pub proof fn lemma_variant_position(
    records: Seq<EmojiView>,
    at: int,
    entry: EntryView,
    catalog: Seq<GemojiView>,
    tone: SkinTone,
)
    requires
        ends_with_family(records, at, entry.group, entry.subgroup),
        entry.group != Group::Component,
        entry.status == Status::FullyQualified,
        classify(entry.emoji) == Ok::<Option<SkinTone>, ErrorKind>(Some(tone)),
    ensures
        ({
            let family = records.update(at, promoted(records[at]));
            let p = insertion_index(family, at, tone);
            &&& at < p <= records.len()
            &&& absorbed(records, entry, catalog) == Ok::<Seq<EmojiView>, Failure>(
                family.insert(p, single(enriched(entry, catalog), Some(tone))),
            )
            &&& forall|j: int| at < j < p ==> stays_before(#[trigger] records[j], tone)
            &&& p < records.len() ==> !stays_before(records[p], tone)
        }),
{
    lemma_classify_not_default(entry.emoji);
    let full = enriched(entry, catalog);
    lemma_base_index(records, full.group, full.subgroup);
    match base_index(records, full.group, full.subgroup) {
        Some(k) => {
            if k < at {
                assert(is_base(records[at]));
            } else if k > at {
                assert(!is_base(records[k]));
            }
        },
        None => {
            assert(is_base(records[at]));
        },
    }
    let family = records.update(at, promoted(records[at]));
    lemma_insertion_index(family, at, tone);
    let p = insertion_index(family, at, tone);
    assert(stays_before(family[at], tone));
    assert forall|j: int| at < j < p implies stays_before(#[trigger] records[j], tone) by {
        assert(family[j] == records[j]);
    }
    if p < records.len() {
        assert(family[p] == records[p]);
    }
}

/// A tone variant of the family that the table ends with joins that family,
/// in whatever order the variants arrive: the record of the family becomes
/// its `Default` and counts one more, the variant stands behind it among the
/// other variants, all of them still in the order of their tones, and no
/// other record changes or moves.
pub proof fn lemma_variant_joins_family(
    records: Seq<EmojiView>,
    at: int,
    entry: EntryView,
    catalog: Seq<GemojiView>,
    tone: SkinTone,
)
    requires
        ends_with_family(records, at, entry.group, entry.subgroup),
        entry.group != Group::Component,
        entry.status == Status::FullyQualified,
        classify(entry.emoji) == Ok::<Option<SkinTone>, ErrorKind>(Some(tone)),
    ensures
        absorbed(records, entry, catalog) is Ok,
        ({
            let after = absorbed(records, entry, catalog)->Ok_0;
            let family = records.update(at, promoted(records[at]));
            &&& ends_with_family(after, at, entry.group, entry.subgroup)
            &&& after.len() == records.len() + 1
            &&& after[at] == promoted(records[at])
            &&& forall|j: int| 0 <= j < at ==> after[j] == records[j]
            &&& exists|p: int|
                at < p < after.len() && #[trigger] after[p] == single(
                    enriched(entry, catalog),
                    Some(tone),
                ) && after.remove(p) == family
        }),
{
    lemma_classify_not_default(entry.emoji);
    lemma_variant_position(records, at, entry, catalog, tone);
    let family = records.update(at, promoted(records[at]));
    let p = insertion_index(family, at, tone);
    let added = single(enriched(entry, catalog), Some(tone));
    let after = family.insert(p, added);
    assert(after[p] == added);
    assert(after.remove(p) =~= family);
    assert(after[at] == family[at]);
    assert forall|j: int| 0 <= j < at implies after[j] == records[j] by {
        assert(after[j] == family[j]);
    }
    // Where the record at `j` of the new table stood in the old one.
    let before = |j: int| if j < p { j } else { j - 1 };
    assert forall|j: int| at < j < after.len() && j != p implies after[j] == records[before(j)] by {
        assert(after[j] == family[before(j)]);
    }
    assert forall|j: int| at < j < after.len() implies !is_base(#[trigger] after[j]) by {
        if j != p {
            assert(after[j] == records[before(j)]);
        }
    }
    assert forall|a: int, b: int| at < a <= b < after.len() implies tone_rank(
        #[trigger] after[a],
    ) <= tone_rank(#[trigger] after[b]) by {
        if a != p {
            assert(after[a] == records[before(a)]);
        }
        if b != p {
            assert(after[b] == records[before(b)]);
        }
        if a < p {
            assert(stays_before(records[a], tone));
        }
        if b > p {
            assert(!stays_before(records[p], tone));
            assert(tone_rank(records[p]) <= tone_rank(records[b - 1]));
        }
    }
}

/// Whether `entry` is a tone variant for a family of `group` and `subgroup`:
/// a fully qualified entry of that group and subgroup whose emoji has a tone.
pub open spec fn is_variant_of(entry: EntryView, group: Group, subgroup: Seq<char>) -> bool {
    &&& entry.group == group
    &&& entry.subgroup == subgroup
    &&& entry.status == Status::FullyQualified
    &&& classify(entry.emoji) is Ok
    &&& classify(entry.emoji)->Ok_0 is Some
}

/// The tone variants of the family that the table ends with, in whatever
/// order they arrive, all join that family: the build goes on, the records
/// before the family stay as they are, the record of the family counts one
/// more for each variant and is the `Default` of the family once there is
/// one, and the variants stand behind it in the order of their tones.
pub proof fn lemma_variants_join_family(
    records: Seq<EmojiView>,
    at: int,
    group: Group,
    subgroup: Seq<char>,
    variants: Seq<EntryView>,
    catalog: Seq<GemojiView>,
)
    requires
        ends_with_family(records, at, group, subgroup),
        group != Group::Component,
        forall|k: int| 0 <= k < variants.len() ==> is_variant_of(#[trigger] variants[k], group, subgroup),
    ensures
        absorbed_all(records, variants, catalog) is Ok,
        ({
            let after = absorbed_all(records, variants, catalog)->Ok_0;
            &&& ends_with_family(after, at, group, subgroup)
            &&& after.len() == records.len() + variants.len()
            &&& after[at].skin_tones == records[at].skin_tones + variants.len()
            &&& variants.len() > 0 ==> after[at].skin_tone == Some(SkinTone::Default)
            &&& after[at].entry == records[at].entry
            &&& forall|j: int| 0 <= j < at ==> after[j] == records[j]
        }),
    decreases variants.len(),
{
    if variants.len() > 0 {
        let entry = variants[0];
        assert(is_variant_of(entry, group, subgroup));
        let tone = classify(entry.emoji)->Ok_0->Some_0;
        lemma_variant_joins_family(records, at, entry, catalog, tone);
        let next = absorbed(records, entry, catalog)->Ok_0;
        let rest = variants.drop_first();
        assert forall|k: int| 0 <= k < rest.len() implies is_variant_of(
            #[trigger] rest[k],
            group,
            subgroup,
        ) by {
            assert(rest[k] == variants[k + 1]);
        }
        lemma_variants_join_family(next, at, group, subgroup, rest, catalog);
        let after = absorbed_all(next, rest, catalog)->Ok_0;
        assert forall|j: int| 0 <= j < at implies after[j] == records[j] by {
            assert(next[j] == records[j]);
        }
    }
}

/// The record that the tone variant `entry` becomes.
pub open spec fn variant_record(entry: EntryView, catalog: Seq<GemojiView>) -> EmojiView {
    single(enriched(entry, catalog), classify(entry.emoji)->Ok_0)
}

/// Whether the tones of `records` rise from each record to the next.
pub open spec fn tones_rise(records: Seq<EmojiView>) -> bool {
    forall|a: int, b: int|
        0 <= a < b < records.len() ==> tone_rank(#[trigger] records[a]) < tone_rank(
            #[trigger] records[b],
        )
}

/// Whether no record of `records` has the tone of the emoji of `entry`.
pub open spec fn is_new_tone(records: Seq<EmojiView>, entry: EntryView) -> bool {
    forall|j: int|
        0 <= j < records.len() ==> (#[trigger] records[j]).skin_tone != classify(
            entry.emoji,
        )->Ok_0
}

/// Two lists of records whose tones rise and that hold the same records are
/// the same list.
pub proof fn lemma_rising_tones_fix_the_order(first: Seq<EmojiView>, second: Seq<EmojiView>)
    requires
        tones_rise(first),
        tones_rise(second),
        forall|x: EmojiView| first.contains(x) <==> second.contains(x),
    ensures
        first == second,
    decreases first.len(),
{
    if first.len() == 0 {
        if second.len() > 0 {
            assert(second.contains(second[0]));
            assert(first.contains(second[0]));
        }
        assert(first =~= second);
    } else {
        let x = first.last();
        assert(first.contains(x));
        assert(second.contains(x));
        let y = second.last();
        assert(second.contains(y));
        assert(first.contains(y));
        let j = choose|j: int| 0 <= j < second.len() && second[j] == x;
        let i = choose|i: int| 0 <= i < first.len() && first[i] == y;
        if j < second.len() - 1 {
            assert(tone_rank(second[j]) < tone_rank(second[second.len() - 1]));
            if i < first.len() - 1 {
                assert(tone_rank(first[i]) < tone_rank(first[first.len() - 1]));
            }
            assert(false);
        }
        assert(x == y);
        let front = first.drop_last();
        let other = second.drop_last();
        assert forall|z: EmojiView| front.contains(z) <==> other.contains(z) by {
            if front.contains(z) {
                let a = choose|a: int| 0 <= a < front.len() && front[a] == z;
                assert(first[a] == z);
                assert(first.contains(z));
                let b = choose|b: int| 0 <= b < second.len() && second[b] == z;
                if b == second.len() - 1 {
                    assert(tone_rank(first[a]) < tone_rank(first[first.len() - 1]));
                    assert(false);
                }
                assert(other[b] == z);
            }
            if other.contains(z) {
                let b = choose|b: int| 0 <= b < other.len() && other[b] == z;
                assert(second[b] == z);
                assert(second.contains(z));
                let a = choose|a: int| 0 <= a < first.len() && first[a] == z;
                if a == first.len() - 1 {
                    assert(tone_rank(second[b]) < tone_rank(second[second.len() - 1]));
                    assert(false);
                }
                assert(front[a] == z);
            }
        }
        assert(tones_rise(front)) by {
            assert forall|a: int, b: int| 0 <= a < b < front.len() implies tone_rank(
                #[trigger] front[a],
            ) < tone_rank(#[trigger] front[b]) by {
                assert(front[a] == first[a] && front[b] == first[b]);
            }
        }
        assert(tones_rise(other)) by {
            assert forall|a: int, b: int| 0 <= a < b < other.len() implies tone_rank(
                #[trigger] other[a],
            ) < tone_rank(#[trigger] other[b]) by {
                assert(other[a] == second[a] && other[b] == second[b]);
            }
        }
        lemma_rising_tones_fix_the_order(front, other);
        assert(first =~= front.push(x));
        assert(second =~= other.push(y));
    }
}

/// A list with one more record holds that record and those of before.
proof fn lemma_inserted_records(records: Seq<EmojiView>, at: int, added: EmojiView)
    requires
        0 <= at <= records.len(),
    ensures
        forall|x: EmojiView|
            #[trigger] records.insert(at, added).contains(x) <==> records.contains(x) || x
                == added,
{
    let after = records.insert(at, added);
    assert forall|x: EmojiView| #[trigger] after.contains(x) <==> records.contains(x) || x
        == added by {
        if after.contains(x) {
            let j = choose|j: int| 0 <= j < after.len() && after[j] == x;
            if j < at {
                assert(records[j] == x);
            } else if j > at {
                assert(records[j - 1] == x);
            }
        }
        if records.contains(x) {
            let j = choose|j: int| 0 <= j < records.len() && records[j] == x;
            if j < at {
                assert(after[j] == x);
            } else {
                assert(after[j + 1] == x);
            }
        }
        if x == added {
            assert(after[at] == x);
        }
    }
}

/// The tones of a list still rise with one more record between the records
/// of lower tones and those of higher tones.
proof fn lemma_inserted_tones_rise(records: Seq<EmojiView>, at: int, added: EmojiView)
    requires
        0 <= at <= records.len(),
        tones_rise(records),
        forall|j: int| 0 <= j < at ==> tone_rank(#[trigger] records[j]) < tone_rank(added),
        forall|j: int|
            at <= j < records.len() ==> tone_rank(added) < tone_rank(#[trigger] records[j]),
    ensures
        tones_rise(records.insert(at, added)),
{
    let after = records.insert(at, added);
    assert forall|a: int, b: int| 0 <= a < b < after.len() implies tone_rank(
        #[trigger] after[a],
    ) < tone_rank(#[trigger] after[b]) by {
        if a < at {
            assert(after[a] == records[a]);
        } else if a > at {
            assert(after[a] == records[a - 1]);
        }
        if b < at {
            assert(after[b] == records[b]);
        } else if b > at {
            assert(after[b] == records[b - 1]);
        }
    }
}

/// The records behind the one at `at`, after that one was changed and a
/// record was put in behind it, are those of before with the new record
/// among them.
proof fn lemma_behind_inserted(
    records: Seq<EmojiView>,
    at: int,
    changed: EmojiView,
    p: int,
    added: EmojiView,
)
    requires
        0 <= at < p <= records.len(),
    ensures
        records.update(at, changed).insert(p, added).skip(at + 1) == records.skip(at + 1).insert(
            p - at - 1,
            added,
        ),
{
    assert(records.update(at, changed).insert(p, added).skip(at + 1) =~= records.skip(
        at + 1,
    ).insert(p - at - 1, added));
}

/// A tone variant with a tone that its family does not have yet joins the
/// family that the table ends with: the tones of the variants behind the
/// record of the family still rise, and the variants are those of before
/// and the new one.
pub proof fn lemma_new_tone_joins_family(
    records: Seq<EmojiView>,
    at: int,
    entry: EntryView,
    catalog: Seq<GemojiView>,
)
    requires
        ends_with_family(records, at, entry.group, entry.subgroup),
        tones_rise(records.skip(at + 1)),
        entry.group != Group::Component,
        is_variant_of(entry, entry.group, entry.subgroup),
        is_new_tone(records.skip(at + 1), entry),
    ensures
        absorbed(records, entry, catalog) is Ok,
        ({
            let after = absorbed(records, entry, catalog)->Ok_0;
            &&& ends_with_family(after, at, entry.group, entry.subgroup)
            &&& tones_rise(after.skip(at + 1))
            &&& after.len() == records.len() + 1
            &&& after[at] == promoted(records[at])
            &&& forall|j: int| 0 <= j < at ==> after[j] == records[j]
            &&& forall|x: EmojiView|
                #[trigger] after.skip(at + 1).contains(x) <==> records.skip(at + 1).contains(x)
                    || x == variant_record(entry, catalog)
        }),
{
    let tone = classify(entry.emoji)->Ok_0->Some_0;
    lemma_variant_joins_family(records, at, entry, catalog, tone);
    let added = variant_record(entry, catalog);
    let family = records.update(at, promoted(records[at]));
    let p = insertion_index(family, at, tone);
    let old_tail = records.skip(at + 1);
    let q = p - at - 1;
    let after = absorbed(records, entry, catalog)->Ok_0;
    assert(0 <= q <= old_tail.len() && after.skip(at + 1) == old_tail.insert(q, added) && (
    forall|j: int| 0 <= j < q ==> tone_rank(#[trigger] old_tail[j]) < tone_rank(added)) && (
    q < old_tail.len() ==> tone_rank(added) <= tone_rank(old_tail[q]))) by {
        lemma_variant_position(records, at, entry, catalog, tone);
        lemma_behind_inserted(records, at, promoted(records[at]), p, added);
        assert forall|j: int| 0 <= j < q implies tone_rank(#[trigger] old_tail[j]) < tone_rank(
            added,
        ) by {
            assert(stays_before(records[at + 1 + j], tone));
            assert(!is_base(records[at + 1 + j]));
        }
        if q < old_tail.len() {
            assert(old_tail[q] == records[p]);
            assert(!stays_before(records[p], tone));
        }
    }
    assert forall|j: int| q <= j < old_tail.len() implies tone_rank(added) < tone_rank(
        #[trigger] old_tail[j],
    ) by {
        assert(old_tail[q].skin_tone != Some(tone));
        if j > q {
            assert(tone_rank(old_tail[q]) < tone_rank(old_tail[j]));
        }
    }
    lemma_inserted_records(old_tail, q, added);
    lemma_inserted_tones_rise(old_tail, q, added);
}

/// Whether the tones of the variants `variants` differ from one another and
/// from the tones of `records`.
pub open spec fn are_new_tones(records: Seq<EmojiView>, variants: Seq<EntryView>) -> bool {
    &&& forall|k: int| 0 <= k < variants.len() ==> is_new_tone(records, #[trigger] variants[k])
    &&& forall|a: int, b: int|
        0 <= a < b < variants.len() ==> classify((#[trigger] variants[a]).emoji) != classify(
            (#[trigger] variants[b]).emoji,
        )
}

/// `record` as the record of a family that `n` more variants have joined.
pub open spec fn with_variants(record: EmojiView, n: nat) -> EmojiView {
    EmojiView {
        skin_tones: record.skin_tones + n,
        skin_tone: if n > 0 {
            Some(SkinTone::Default)
        } else {
            record.skin_tone
        },
        ..record
    }
}

/// Whether `x` is the record of one of the variants `variants`.
pub open spec fn is_record_of(
    x: EmojiView,
    variants: Seq<EntryView>,
    catalog: Seq<GemojiView>,
) -> bool {
    exists|k: int| 0 <= k < variants.len() && x == variant_record(#[trigger] variants[k], catalog)
}

/// Tone variants with tones that their family does not have yet, and that
/// differ from one another, all join the family that the table ends with:
/// behind the record of the family stand the variants of before and the new
/// ones, and their tones rise.
pub proof fn lemma_new_tones_join_family(
    records: Seq<EmojiView>,
    at: int,
    group: Group,
    subgroup: Seq<char>,
    variants: Seq<EntryView>,
    catalog: Seq<GemojiView>,
)
    requires
        ends_with_family(records, at, group, subgroup),
        tones_rise(records.skip(at + 1)),
        group != Group::Component,
        forall|k: int| 0 <= k < variants.len() ==> is_variant_of(#[trigger] variants[k], group, subgroup),
        are_new_tones(records.skip(at + 1), variants),
    ensures
        absorbed_all(records, variants, catalog) is Ok,
        ({
            let after = absorbed_all(records, variants, catalog)->Ok_0;
            &&& ends_with_family(after, at, group, subgroup)
            &&& tones_rise(after.skip(at + 1))
            &&& after.len() == records.len() + variants.len()
            &&& after[at] == with_variants(records[at], variants.len())
            &&& forall|j: int| 0 <= j < at ==> after[j] == records[j]
            &&& forall|x: EmojiView|
                #[trigger] after.skip(at + 1).contains(x) <==> records.skip(at + 1).contains(x)
                    || is_record_of(x, variants, catalog)
        }),
    decreases variants.len(),
{
    let old_tail = records.skip(at + 1);
    if variants.len() == 0 {
        assert(records[at] == with_variants(records[at], 0));
        assert forall|x: EmojiView| #[trigger]
            old_tail.contains(x) <==> old_tail.contains(x) || is_record_of(
                x,
                variants,
                catalog,
            ) by {}
    } else {
        let entry = variants[0];
        assert(is_variant_of(entry, group, subgroup));
        assert(is_new_tone(old_tail, entry));
        lemma_new_tone_joins_family(records, at, entry, catalog);
        let next = absorbed(records, entry, catalog)->Ok_0;
        let next_tail = next.skip(at + 1);
        let rest = variants.drop_first();
        assert forall|k: int| 0 <= k < rest.len() implies is_variant_of(
            #[trigger] rest[k],
            group,
            subgroup,
        ) by {
            assert(rest[k] == variants[k + 1]);
        }
        assert(are_new_tones(next_tail, rest)) by {
            assert forall|k: int| 0 <= k < rest.len() implies is_new_tone(
                next_tail,
                #[trigger] rest[k],
            ) by {
                assert(rest[k] == variants[k + 1]);
                assert(is_new_tone(old_tail, variants[k + 1]));
                assert forall|j: int| 0 <= j < next_tail.len() implies (
                #[trigger] next_tail[j]).skin_tone != classify(rest[k].emoji)->Ok_0 by {
                    let x = next_tail[j];
                    assert(next_tail.contains(x));
                    if old_tail.contains(x) {
                        let i = choose|i: int| 0 <= i < old_tail.len() && old_tail[i] == x;
                        assert(old_tail[i].skin_tone != classify(rest[k].emoji)->Ok_0);
                    } else {
                        assert(x == variant_record(entry, catalog));
                        assert(classify(variants[0].emoji) != classify(variants[k + 1].emoji));
                    }
                }
            }
            assert forall|a: int, b: int| 0 <= a < b < rest.len() implies classify(
                (#[trigger] rest[a]).emoji,
            ) != classify((#[trigger] rest[b]).emoji) by {
                assert(rest[a] == variants[a + 1]);
                assert(rest[b] == variants[b + 1]);
            }
        }
        lemma_new_tones_join_family(next, at, group, subgroup, rest, catalog);
        let after = absorbed_all(next, rest, catalog)->Ok_0;
        assert(after[at] == with_variants(records[at], variants.len()));
        assert forall|j: int| 0 <= j < at implies after[j] == records[j] by {
            assert(next[j] == records[j]);
        }
        let new_tail = after.skip(at + 1);
        assert forall|x: EmojiView| #[trigger]
            new_tail.contains(x) <==> old_tail.contains(x) || is_record_of(
                x,
                variants,
                catalog,
            ) by {
            assert(next_tail.contains(x) <==> old_tail.contains(x) || x == variant_record(
                entry,
                catalog,
            ));
            assert(new_tail.contains(x) <==> next_tail.contains(x) || is_record_of(
                x,
                rest,
                catalog,
            ));
            if is_record_of(x, rest, catalog) {
                let k = choose|k: int|
                    0 <= k < rest.len() && x == variant_record(#[trigger] rest[k], catalog);
                assert(rest[k] == variants[k + 1]);
            }
            if is_record_of(x, variants, catalog) {
                let k = choose|k: int|
                    0 <= k < variants.len() && x == variant_record(
                        #[trigger] variants[k],
                        catalog,
                    );
                if k > 0 {
                    assert(rest[k - 1] == variants[k]);
                }
            }
            if x == variant_record(entry, catalog) {
                assert(x == variant_record(variants[0], catalog));
            }
        }
    }
}

/// The order in which the tone variants of a family arrive does not matter
/// to the table: two lists of the same variants, each with tones that differ
/// from one another and from those that the family has, give the same
/// table, with the variants behind the record of their family in the order
/// of their tones.
pub proof fn lemma_order_of_arrival_does_not_matter(
    records: Seq<EmojiView>,
    at: int,
    group: Group,
    subgroup: Seq<char>,
    first: Seq<EntryView>,
    second: Seq<EntryView>,
    catalog: Seq<GemojiView>,
)
    requires
        ends_with_family(records, at, group, subgroup),
        tones_rise(records.skip(at + 1)),
        group != Group::Component,
        forall|k: int| 0 <= k < first.len() ==> is_variant_of(#[trigger] first[k], group, subgroup),
        forall|k: int| 0 <= k < second.len() ==> is_variant_of(#[trigger] second[k], group, subgroup),
        are_new_tones(records.skip(at + 1), first),
        are_new_tones(records.skip(at + 1), second),
        forall|e: EntryView| first.contains(e) <==> second.contains(e),
    ensures
        absorbed_all(records, first, catalog) is Ok,
        absorbed_all(records, first, catalog) == absorbed_all(records, second, catalog),
{
    lemma_new_tones_join_family(records, at, group, subgroup, first, catalog);
    lemma_new_tones_join_family(records, at, group, subgroup, second, catalog);
    let a = absorbed_all(records, first, catalog)->Ok_0;
    let b = absorbed_all(records, second, catalog)->Ok_0;
    let old_tail = records.skip(at + 1);
    let tail_a = a.skip(at + 1);
    let tail_b = b.skip(at + 1);
    assert forall|x: EmojiView| is_record_of(x, first, catalog) <==> is_record_of(
        x,
        second,
        catalog,
    ) by {
        if is_record_of(x, first, catalog) {
            let k = choose|k: int|
                0 <= k < first.len() && x == variant_record(#[trigger] first[k], catalog);
            assert(first.contains(first[k]));
            assert(second.contains(first[k]));
            let m = choose|m: int| 0 <= m < second.len() && second[m] == first[k];
            assert(x == variant_record(second[m], catalog));
        }
        if is_record_of(x, second, catalog) {
            let k = choose|k: int|
                0 <= k < second.len() && x == variant_record(#[trigger] second[k], catalog);
            assert(second.contains(second[k]));
            assert(first.contains(second[k]));
            let m = choose|m: int| 0 <= m < first.len() && first[m] == second[k];
            assert(x == variant_record(first[m], catalog));
        }
    }
    assert forall|x: EmojiView| tail_a.contains(x) <==> tail_b.contains(x) by {
        assert(tail_a.contains(x) <==> old_tail.contains(x) || is_record_of(x, first, catalog));
        assert(tail_b.contains(x) <==> old_tail.contains(x) || is_record_of(x, second, catalog));
    }
    lemma_rising_tones_fix_the_order(tail_a, tail_b);
    assert(a.len() == b.len());
    assert(first.len() == second.len());
    assert(a =~= b) by {
        assert forall|j: int| 0 <= j < a.len() implies a[j] == b[j] by {
            if j < at {
                assert(a[j] == records[j]);
                assert(b[j] == records[j]);
            } else if j > at {
                assert(a[j] == tail_a[j - at - 1]);
                assert(b[j] == tail_b[j - at - 1]);
            }
        }
    }
}

} // verus!
