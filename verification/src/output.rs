//! The table written out as the source text of a constant.

use vstd::prelude::*;
use vstd::string::StringExecFns;
use crate::number::{decimal, push_decimal, push_signed_decimal, signed_decimal};
use crate::util::{struct_name, struct_package, type_package, type_segment, Named};
use crate::aggregate::{build, built};
use crate::{
    emoji_views, gemoji_views, texts, EmojiView, EntryView, Error, Failure, Gemoji, GemojiView,
    Group, OwnedEmoji, OwnedEntry, SkinTone, Status, Version,
};

verus! {

impl Group {
    /// The identifier of the group.
    pub open spec fn identifier(self) -> Seq<char> {
        match self {
            Group::SmileysAndEmotion => "SmileysAndEmotion"@,
            Group::PeopleAndBody => "PeopleAndBody"@,
            Group::AnimalsAndNature => "AnimalsAndNature"@,
            Group::FoodAndDrink => "FoodAndDrink"@,
            Group::TravelAndPlaces => "TravelAndPlaces"@,
            Group::Activities => "Activities"@,
            Group::Objects => "Objects"@,
            Group::Symbols => "Symbols"@,
            Group::Flags => "Flags"@,
            Group::Component => "Component"@,
        }
    }

    /// The identifier of the group.
    pub fn variant_name(&self) -> (r: &'static str)
        ensures
            r@ == self.identifier(),
    {
        match self {
            Group::SmileysAndEmotion => "SmileysAndEmotion",
            Group::PeopleAndBody => "PeopleAndBody",
            Group::AnimalsAndNature => "AnimalsAndNature",
            Group::FoodAndDrink => "FoodAndDrink",
            Group::TravelAndPlaces => "TravelAndPlaces",
            Group::Activities => "Activities",
            Group::Objects => "Objects",
            Group::Symbols => "Symbols",
            Group::Flags => "Flags",
            Group::Component => "Component",
        }
    }
}

impl Status {
    /// The identifier of the status.
    pub open spec fn identifier(self) -> Seq<char> {
        match self {
            Status::FullyQualified => "FullyQualified"@,
            Status::MinimallyQualified => "MinimallyQualified"@,
            Status::Unqualified => "Unqualified"@,
            Status::Component => "Component"@,
        }
    }

    /// The identifier of the status.
    pub fn variant_name(&self) -> (r: &'static str)
        ensures
            r@ == self.identifier(),
    {
        match self {
            Status::FullyQualified => "FullyQualified",
            Status::MinimallyQualified => "MinimallyQualified",
            Status::Unqualified => "Unqualified",
            Status::Component => "Component",
        }
    }
}

impl SkinTone {
    /// The identifier of the tone.
    pub open spec fn identifier(self) -> Seq<char> {
        match self {
            SkinTone::Default => "Default"@,
            SkinTone::Light => "Light"@,
            SkinTone::MediumLight => "MediumLight"@,
            SkinTone::Medium => "Medium"@,
            SkinTone::MediumDark => "MediumDark"@,
            SkinTone::Dark => "Dark"@,
            SkinTone::LightAndMediumLight => "LightAndMediumLight"@,
            SkinTone::LightAndMedium => "LightAndMedium"@,
            SkinTone::LightAndMediumDark => "LightAndMediumDark"@,
            SkinTone::LightAndDark => "LightAndDark"@,
            SkinTone::MediumLightAndLight => "MediumLightAndLight"@,
            SkinTone::MediumLightAndMedium => "MediumLightAndMedium"@,
            SkinTone::MediumLightAndMediumDark => "MediumLightAndMediumDark"@,
            SkinTone::MediumLightAndDark => "MediumLightAndDark"@,
            SkinTone::MediumAndLight => "MediumAndLight"@,
            SkinTone::MediumAndMediumLight => "MediumAndMediumLight"@,
            SkinTone::MediumAndMediumDark => "MediumAndMediumDark"@,
            SkinTone::MediumAndDark => "MediumAndDark"@,
            SkinTone::MediumDarkAndLight => "MediumDarkAndLight"@,
            SkinTone::MediumDarkAndMediumLight => "MediumDarkAndMediumLight"@,
            SkinTone::MediumDarkAndMedium => "MediumDarkAndMedium"@,
            SkinTone::MediumDarkAndDark => "MediumDarkAndDark"@,
            SkinTone::DarkAndLight => "DarkAndLight"@,
            SkinTone::DarkAndMediumLight => "DarkAndMediumLight"@,
            SkinTone::DarkAndMedium => "DarkAndMedium"@,
            SkinTone::DarkAndMediumDark => "DarkAndMediumDark"@,
        }
    }

    /// The identifier of the tone.
    pub fn variant_name(&self) -> (r: &'static str)
        ensures
            r@ == self.identifier(),
    {
        match self {
            SkinTone::Default => "Default",
            SkinTone::Light => "Light",
            SkinTone::MediumLight => "MediumLight",
            SkinTone::Medium => "Medium",
            SkinTone::MediumDark => "MediumDark",
            SkinTone::Dark => "Dark",
            SkinTone::LightAndMediumLight => "LightAndMediumLight",
            SkinTone::LightAndMedium => "LightAndMedium",
            SkinTone::LightAndMediumDark => "LightAndMediumDark",
            SkinTone::LightAndDark => "LightAndDark",
            SkinTone::MediumLightAndLight => "MediumLightAndLight",
            SkinTone::MediumLightAndMedium => "MediumLightAndMedium",
            SkinTone::MediumLightAndMediumDark => "MediumLightAndMediumDark",
            SkinTone::MediumLightAndDark => "MediumLightAndDark",
            SkinTone::MediumAndLight => "MediumAndLight",
            SkinTone::MediumAndMediumLight => "MediumAndMediumLight",
            SkinTone::MediumAndMediumDark => "MediumAndMediumDark",
            SkinTone::MediumAndDark => "MediumAndDark",
            SkinTone::MediumDarkAndLight => "MediumDarkAndLight",
            SkinTone::MediumDarkAndMediumLight => "MediumDarkAndMediumLight",
            SkinTone::MediumDarkAndMedium => "MediumDarkAndMedium",
            SkinTone::MediumDarkAndDark => "MediumDarkAndDark",
            SkinTone::DarkAndLight => "DarkAndLight",
            SkinTone::DarkAndMediumLight => "DarkAndMediumLight",
            SkinTone::DarkAndMedium => "DarkAndMedium",
            SkinTone::DarkAndMediumDark => "DarkAndMediumDark",
        }
    }
}

/// The names under which the written table refers to the types of its
/// values, and the path it imports them from.
pub struct Names {
    pub package: Seq<char>,
    pub emoji: Seq<char>,
    pub entry: Seq<char>,
    pub group: Seq<char>,
    pub skin_tone: Seq<char>,
    pub status: Seq<char>,
    pub version: Seq<char>,
}

/// The names of the types of this library.
pub open spec fn own_names() -> Names {
    Names {
        package: type_package(Group::written()),
        emoji: type_segment(OwnedEmoji::written()),
        entry: type_segment(OwnedEntry::written()),
        group: type_segment(Group::written()),
        skin_tone: type_segment(SkinTone::written()),
        status: type_segment(Status::written()),
        version: type_segment(Version::written()),
    }
}

/// The names under which the written table refers to the types of its
/// values, and the path it imports them from.
pub struct TypeNames {
    pub package: String,
    pub emoji: String,
    pub entry: String,
    pub group: String,
    pub skin_tone: String,
    pub status: String,
    pub version: String,
}

impl View for TypeNames {
    type V = Names;

    open spec fn view(&self) -> Names {
        Names {
            package: self.package@,
            emoji: self.emoji@,
            entry: self.entry@,
            group: self.group@,
            skin_tone: self.skin_tone@,
            status: self.status@,
            version: self.version@,
        }
    }
}

impl TypeNames {
    /// The names of the types of this library.
    pub fn own() -> (r: TypeNames)
        ensures
            r@ == own_names(),
    {
        TypeNames {
            package: struct_package::<Group>().to_owned(),
            emoji: struct_name::<OwnedEmoji>(),
            entry: struct_name::<OwnedEntry>(),
            group: struct_name::<Group>(),
            skin_tone: struct_name::<SkinTone>(),
            status: struct_name::<Status>(),
            version: struct_name::<Version>(),
        }
    }
}

/// The indentation of the level `level`: four spaces for each level.
pub open spec fn indent(level: nat) -> Seq<char>
    decreases level,
{
    if level == 0 {
        Seq::empty()
    } else {
        indent((level - 1) as nat) + "    "@
    }
}

/// Appends the indentation of the level `level`.
fn put_indent(out: &mut String, level: usize)
    ensures
        final(out)@ == old(out)@ + indent(level as nat),
{
    let mut i: usize = 0;
    assert(out@ =~= old(out)@ + indent(0));
    while i < level
        invariant
            i <= level,
            out@ == old(out)@ + indent(i as nat),
        decreases level - i,
    {
        out.append("    ");
        i += 1;
        assert(out@ =~= old(out)@ + indent(i as nat));
    }
}

/// `version` as a value of the type named `name`.
pub open spec fn version_text(name: Seq<char>, version: Version) -> Seq<char> {
    name + " { major: "@ + signed_decimal(version.major as int) + ", minor: "@ + signed_decimal(
        version.minor as int,
    ) + " }"@
}

/// Appends `version_text`.
fn put_version(out: &mut String, name: &String, version: &Version)
    ensures
        final(out)@ == old(out)@ + version_text(name@, *version),
{
    out.append(name.as_str());
    out.append(" { major: ");
    push_signed_decimal(out, version.major);
    out.append(", minor: ");
    push_signed_decimal(out, version.minor);
    out.append(" }");
    assert(out@ =~= old(out)@ + version_text(name@, *version));
}

/// `version` as an optional value of the type named `name`.
pub open spec fn optional_version_text(name: Seq<char>, version: Option<Version>) -> Seq<char> {
    match version {
        Some(v) => "Some("@ + version_text(name, v) + ")"@,
        None => "None"@,
    }
}

/// Appends `optional_version_text`.
fn put_optional_version(out: &mut String, name: &String, version: &Option<Version>)
    ensures
        final(out)@ == old(out)@ + optional_version_text(name@, *version),
{
    match version {
        Some(v) => {
            out.append("Some(");
            put_version(out, name, v);
            out.append(")");
            assert(out@ =~= old(out)@ + optional_version_text(name@, *version));
        },
        None => {
            out.append("None");
        },
    }
}

/// `tone` as an optional value of the type named `name`.
pub open spec fn optional_tone_text(name: Seq<char>, tone: Option<SkinTone>) -> Seq<char> {
    match tone {
        Some(t) => "Some("@ + name + "::"@ + t.identifier() + ")"@,
        None => "None"@,
    }
}

/// Appends `optional_tone_text`.
fn put_optional_tone(out: &mut String, name: &String, tone: &Option<SkinTone>)
    ensures
        final(out)@ == old(out)@ + optional_tone_text(name@, *tone),
{
    match tone {
        Some(t) => {
            out.append("Some(");
            out.append(name.as_str());
            out.append("::");
            out.append(t.variant_name());
            out.append(")");
            assert(out@ =~= old(out)@ + optional_tone_text(name@, *tone));
        },
        None => {
            out.append("None");
        },
    }
}

/// `s` between double quotes, as it is.
pub open spec fn quoted(s: Seq<char>) -> Seq<char> {
    "\""@ + s + "\""@
}

/// The texts `items`, each between double quotes, with `, ` between them.
pub open spec fn joined(items: Seq<Seq<char>>) -> Seq<char>
    decreases items.len(),
{
    if items.len() == 0 {
        Seq::empty()
    } else if items.len() == 1 {
        quoted(items[0])
    } else {
        joined(items.drop_last()) + ", "@ + quoted(items.last())
    }
}

/// The texts `items` as a list of strings.
pub open spec fn list_text(items: Seq<Seq<char>>) -> Seq<char> {
    "&["@ + joined(items) + "]"@
}

/// Appends `list_text`.
fn put_list(out: &mut String, items: &Vec<String>)
    ensures
        final(out)@ == old(out)@ + list_text(texts(items@)),
{
    let ghost all = texts(items@);
    out.append("&[");
    let ghost start = out@;
    let mut i: usize = 0;
    assert(all.take(0) =~= Seq::<Seq<char>>::empty());
    assert(out@ =~= start + joined(all.take(0)));
    while i < items.len()
        invariant
            i <= items.len(),
            all == texts(items@),
            out@ == start + joined(all.take(i as int)),
        decreases items.len() - i,
    {
        let ghost before = all.take(i as int);
        let ghost now = all.take(i + 1);
        assert(now.drop_last() =~= before);
        assert(now.last() == items@[i as int]@);
        if i > 0 {
            out.append(", ");
        }
        out.append("\"");
        out.append(items[i].as_str());
        out.append("\"");
        assert(out@ =~= start + joined(now));
        i += 1;
    }
    assert(all.take(i as int) =~= all);
    out.append("]");
    assert(out@ =~= old(out)@ + list_text(all));
}

/// In a chain of texts the brackets can stand anywhere.
proof fn lemma_concat(a: Seq<char>, b: Seq<char>, c: Seq<char>)
    ensures
        (a + b) + c == a + (b + c),
{
    assert((a + b) + c =~= a + (b + c));
}

/// The line of the field `label` with the value `value`, at the level `level`.
pub open spec fn field(level: nat, label: Seq<char>, value: Seq<char>) -> Seq<char> {
    indent(level) + label + value + ",\n"@
}

/// The line that opens the value of the type `name` behind `label`, at the
/// level `level`.
pub open spec fn opener(level: nat, label: Seq<char>, name: Seq<char>) -> Seq<char> {
    indent(level) + label + name + " {\n"@
}

/// The line that closes a value, at the level `level`.
pub open spec fn closer(level: nat) -> Seq<char> {
    indent(level) + "},\n"@
}

/// The fields of `entry`, one line each, at the third level.
pub open spec fn entry_text(names: Names, entry: EntryView) -> Seq<char> {
    field(3, "group: "@, names.group + "::"@ + entry.group.identifier())
        + field(3, "subgroup: "@, quoted(entry.subgroup))
        + field(3, "status: "@, names.status + "::"@ + entry.status.identifier())
        + field(3, "unicode_version: "@, version_text(names.version, entry.unicode_version))
        + field(3, "emoji: "@, quoted(entry.emoji))
        + field(3, "name: "@, quoted(entry.name))
        + field(3, "ios_version: "@, optional_version_text(names.version, entry.ios_version))
        + field(3, "tags: "@, list_text(entry.tags))
        + field(3, "aliases: "@, list_text(entry.aliases))
}

/// Appends `quoted`.
fn put_quoted(out: &mut String, s: &String)
    ensures
        final(out)@ == old(out)@ + quoted(s@),
{
    out.append("\"");
    out.append(s.as_str());
    out.append("\"");
    assert(out@ =~= old(out)@ + quoted(s@));
}

/// Appends `opener`; an empty `label` stands for no label.
fn put_opener(out: &mut String, level: usize, label: &str, name: &String)
    ensures
        final(out)@ == old(out)@ + opener(level as nat, label@, name@),
{
    put_indent(out, level);
    out.append(label);
    out.append(name.as_str());
    out.append(" {\n");
    assert(out@ =~= old(out)@ + opener(level as nat, label@, name@));
}

/// Appends `closer`.
fn put_closer(out: &mut String, level: usize)
    ensures
        final(out)@ == old(out)@ + closer(level as nat),
{
    put_indent(out, level);
    out.append("},\n");
    assert(out@ =~= old(out)@ + closer(level as nat));
}

/// Appends the line of the group.
fn put_group(out: &mut String, names: &TypeNames, entry: &OwnedEntry)
    ensures
        final(out)@ == old(out)@ + field(3, "group: "@, names@.group + "::"@ + entry@.group.identifier()),
{
    put_indent(out, 3);
    out.append("group: ");
    out.append(names.group.as_str());
    out.append("::");
    out.append(entry.group.variant_name());
    out.append(",\n");
    assert(out@ =~= old(out)@ + field(3, "group: "@, names@.group + "::"@ + entry@.group.identifier()));
}

/// Appends the line of the subgroup.
fn put_subgroup(out: &mut String, names: &TypeNames, entry: &OwnedEntry)
    ensures
        final(out)@ == old(out)@ + field(3, "subgroup: "@, quoted(entry@.subgroup)),
{
    put_indent(out, 3);
    out.append("subgroup: ");
    put_quoted(out, &entry.subgroup);
    out.append(",\n");
    assert(out@ =~= old(out)@ + field(3, "subgroup: "@, quoted(entry@.subgroup)));
}

/// Appends the line of the status.
fn put_status(out: &mut String, names: &TypeNames, entry: &OwnedEntry)
    ensures
        final(out)@ == old(out)@ + field(3, "status: "@, names@.status + "::"@ + entry@.status.identifier()),
{
    put_indent(out, 3);
    out.append("status: ");
    out.append(names.status.as_str());
    out.append("::");
    out.append(entry.status.variant_name());
    out.append(",\n");
    assert(out@ =~= old(out)@ + field(3, "status: "@, names@.status + "::"@ + entry@.status.identifier()));
}

/// Appends the line of the Unicode version.
fn put_unicode_version(out: &mut String, names: &TypeNames, entry: &OwnedEntry)
    ensures
        final(out)@ == old(out)@ + field(3, "unicode_version: "@, version_text(names@.version, entry@.unicode_version)),
{
    put_indent(out, 3);
    out.append("unicode_version: ");
    put_version(out, &names.version, &entry.unicode_version);
    out.append(",\n");
    assert(out@ =~= old(out)@ + field(3, "unicode_version: "@, version_text(names@.version, entry@.unicode_version)));
}

/// Appends the line of the emoji.
fn put_emoji(out: &mut String, names: &TypeNames, entry: &OwnedEntry)
    ensures
        final(out)@ == old(out)@ + field(3, "emoji: "@, quoted(entry@.emoji)),
{
    put_indent(out, 3);
    out.append("emoji: ");
    put_quoted(out, &entry.emoji);
    out.append(",\n");
    assert(out@ =~= old(out)@ + field(3, "emoji: "@, quoted(entry@.emoji)));
}

/// Appends the line of the name.
fn put_name(out: &mut String, names: &TypeNames, entry: &OwnedEntry)
    ensures
        final(out)@ == old(out)@ + field(3, "name: "@, quoted(entry@.name)),
{
    put_indent(out, 3);
    out.append("name: ");
    put_quoted(out, &entry.name);
    out.append(",\n");
    assert(out@ =~= old(out)@ + field(3, "name: "@, quoted(entry@.name)));
}

/// Appends the line of the iOS version.
fn put_ios_version(out: &mut String, names: &TypeNames, entry: &OwnedEntry)
    ensures
        final(out)@ == old(out)@ + field(3, "ios_version: "@, optional_version_text(names@.version, entry@.ios_version)),
{
    put_indent(out, 3);
    out.append("ios_version: ");
    put_optional_version(out, &names.version, &entry.ios_version);
    out.append(",\n");
    assert(out@ =~= old(out)@ + field(3, "ios_version: "@, optional_version_text(names@.version, entry@.ios_version)));
}

/// Appends the line of the tags.
fn put_tags(out: &mut String, names: &TypeNames, entry: &OwnedEntry)
    ensures
        final(out)@ == old(out)@ + field(3, "tags: "@, list_text(entry@.tags)),
{
    put_indent(out, 3);
    out.append("tags: ");
    put_list(out, &entry.tags);
    out.append(",\n");
    assert(out@ =~= old(out)@ + field(3, "tags: "@, list_text(entry@.tags)));
}

/// Appends the line of the aliases.
fn put_aliases(out: &mut String, names: &TypeNames, entry: &OwnedEntry)
    ensures
        final(out)@ == old(out)@ + field(3, "aliases: "@, list_text(entry@.aliases)),
{
    put_indent(out, 3);
    out.append("aliases: ");
    put_list(out, &entry.aliases);
    out.append(",\n");
    assert(out@ =~= old(out)@ + field(3, "aliases: "@, list_text(entry@.aliases)));
}

/// Appends the line of the count of tone variants.
fn put_skin_tones(out: &mut String, names: &TypeNames, record: &OwnedEmoji)
    ensures
        final(out)@ == old(out)@ + field(2, "skin_tones: "@, decimal(record@.skin_tones)),
{
    put_indent(out, 2);
    out.append("skin_tones: ");
    push_decimal(out, record.skin_tones as u64);
    out.append(",\n");
    assert(out@ =~= old(out)@ + field(2, "skin_tones: "@, decimal(record@.skin_tones)));
}

/// Appends the line of the tone.
fn put_skin_tone(out: &mut String, names: &TypeNames, record: &OwnedEmoji)
    ensures
        final(out)@ == old(out)@ + field(2, "skin_tone: "@, optional_tone_text(names@.skin_tone, record@.skin_tone)),
{
    put_indent(out, 2);
    out.append("skin_tone: ");
    put_optional_tone(out, &names.skin_tone, &record.skin_tone);
    out.append(",\n");
    assert(out@ =~= old(out)@ + field(2, "skin_tone: "@, optional_tone_text(names@.skin_tone, record@.skin_tone)));
}

/// Appends the line of the other spellings.
fn put_variations(out: &mut String, names: &TypeNames, record: &OwnedEmoji)
    ensures
        final(out)@ == old(out)@ + field(2, "variations: "@, list_text(record@.variations)),
{
    put_indent(out, 2);
    out.append("variations: ");
    put_list(out, &record.variations);
    out.append(",\n");
    assert(out@ =~= old(out)@ + field(2, "variations: "@, list_text(record@.variations)));
}

/// Appends `entry_text`.
fn put_entry(out: &mut String, names: &TypeNames, entry: &OwnedEntry)
    ensures
        final(out)@ == old(out)@ + entry_text(names@, entry@),
{
    let ghost base = out@;
    put_group(out, names, entry);
    let ghost sum = field(3, "group: "@, names@.group + "::"@ + entry@.group.identifier());
    put_subgroup(out, names, entry);
    proof {
        lemma_concat(base, sum, field(3, "subgroup: "@, quoted(entry@.subgroup)));
    }
    let ghost sum = sum + field(3, "subgroup: "@, quoted(entry@.subgroup));
    put_status(out, names, entry);
    proof {
        lemma_concat(base, sum, field(3, "status: "@, names@.status + "::"@ + entry@.status.identifier()));
    }
    let ghost sum = sum + field(3, "status: "@, names@.status + "::"@ + entry@.status.identifier());
    put_unicode_version(out, names, entry);
    proof {
        lemma_concat(base, sum, field(3, "unicode_version: "@, version_text(names@.version, entry@.unicode_version)));
    }
    let ghost sum = sum + field(3, "unicode_version: "@, version_text(names@.version, entry@.unicode_version));
    put_emoji(out, names, entry);
    proof {
        lemma_concat(base, sum, field(3, "emoji: "@, quoted(entry@.emoji)));
    }
    let ghost sum = sum + field(3, "emoji: "@, quoted(entry@.emoji));
    put_name(out, names, entry);
    proof {
        lemma_concat(base, sum, field(3, "name: "@, quoted(entry@.name)));
    }
    let ghost sum = sum + field(3, "name: "@, quoted(entry@.name));
    put_ios_version(out, names, entry);
    proof {
        lemma_concat(base, sum, field(3, "ios_version: "@, optional_version_text(names@.version, entry@.ios_version)));
    }
    let ghost sum = sum + field(3, "ios_version: "@, optional_version_text(names@.version, entry@.ios_version));
    put_tags(out, names, entry);
    proof {
        lemma_concat(base, sum, field(3, "tags: "@, list_text(entry@.tags)));
    }
    let ghost sum = sum + field(3, "tags: "@, list_text(entry@.tags));
    put_aliases(out, names, entry);
    proof {
        lemma_concat(base, sum, field(3, "aliases: "@, list_text(entry@.aliases)));
    }
    let ghost sum = sum + field(3, "aliases: "@, list_text(entry@.aliases));
}

/// `record` as a value of the table, at the first level: its entry with all
/// its fields, its count of tone variants, its tone and its other spellings.
pub open spec fn record_text(names: Names, record: EmojiView) -> Seq<char> {
    opener(1, ""@, names.emoji)
        + opener(2, "entry: "@, names.entry)
        + entry_text(names, record.entry)
        + closer(2)
        + field(2, "skin_tones: "@, decimal(record.skin_tones))
        + field(2, "skin_tone: "@, optional_tone_text(names.skin_tone, record.skin_tone))
        + field(2, "variations: "@, list_text(record.variations))
        + closer(1)
}

/// Appends `record_text`.
fn put_record(out: &mut String, names: &TypeNames, record: &OwnedEmoji)
    ensures
        final(out)@ == old(out)@ + record_text(names@, record@),
{
    let ghost base = out@;
    put_opener(out, 1, "", &names.emoji);
    let ghost sum = opener(1, ""@, names@.emoji);
    put_opener(out, 2, "entry: ", &names.entry);
    proof {
        lemma_concat(base, sum, opener(2, "entry: "@, names@.entry));
    }
    let ghost sum = sum + opener(2, "entry: "@, names@.entry);
    put_entry(out, names, &record.entry);
    proof {
        lemma_concat(base, sum, entry_text(names@, record@.entry));
    }
    let ghost sum = sum + entry_text(names@, record@.entry);
    put_closer(out, 2);
    proof {
        lemma_concat(base, sum, closer(2));
    }
    let ghost sum = sum + closer(2);
    put_skin_tones(out, names, record);
    proof {
        lemma_concat(base, sum, field(2, "skin_tones: "@, decimal(record@.skin_tones)));
    }
    let ghost sum = sum + field(2, "skin_tones: "@, decimal(record@.skin_tones));
    put_skin_tone(out, names, record);
    proof {
        lemma_concat(base, sum, field(2, "skin_tone: "@, optional_tone_text(names@.skin_tone, record@.skin_tone)));
    }
    let ghost sum = sum + field(2, "skin_tone: "@, optional_tone_text(names@.skin_tone, record@.skin_tone));
    put_variations(out, names, record);
    proof {
        lemma_concat(base, sum, field(2, "variations: "@, list_text(record@.variations)));
    }
    let ghost sum = sum + field(2, "variations: "@, list_text(record@.variations));
    put_closer(out, 1);
    proof {
        lemma_concat(base, sum, closer(1));
    }
    let ghost sum = sum + closer(1);
}

/// The records `records` as values of the table, in their order.
pub open spec fn records_text(names: Names, records: Seq<EmojiView>) -> Seq<char>
    decreases records.len(),
{
    if records.len() == 0 {
        Seq::empty()
    } else {
        records_text(names, records.drop_last()) + record_text(names, records.last())
    }
}

/// The line that imports the types, the empty line after it and the line
/// that opens the table.
pub open spec fn opening(names: Names) -> Seq<char> {
    "use "@ + names.package + "::{"@ + names.emoji + ", "@ + names.entry + ", "@ + names.group
        + ", "@ + names.skin_tone + ", "@ + names.status + ", "@ + names.version
        + "};\n\npub const EMOJIS: &["@ + names.emoji
        + "<&'static str, &'static [&'static str]>] = &[\n"@
}

/// The source text of the table: the opening, the records in their order,
/// each with all its fields, and the line that closes the table.
pub open spec fn rendered(names: Names, records: Seq<EmojiView>) -> Seq<char> {
    opening(names) + records_text(names, records) + "];\n"@
}

/// Appends `opening`.
fn put_opening(out: &mut String, names: &TypeNames)
    ensures
        final(out)@ == old(out)@ + opening(names@),
{
    out.append("use ");
    out.append(names.package.as_str());
    out.append("::{");
    out.append(names.emoji.as_str());
    out.append(", ");
    out.append(names.entry.as_str());
    out.append(", ");
    out.append(names.group.as_str());
    out.append(", ");
    out.append(names.skin_tone.as_str());
    out.append(", ");
    out.append(names.status.as_str());
    out.append(", ");
    out.append(names.version.as_str());
    out.append("};\n\npub const EMOJIS: &[");
    out.append(names.emoji.as_str());
    out.append("<&'static str, &'static [&'static str]>] = &[\n");
    assert(out@ =~= old(out)@ + opening(names@));
}

/// Writes the table `data` as the source text of a constant, with the types
/// named as `names` says.
///
/// The records stand in the order of `data`, and each with all its fields.
pub fn render(names: &TypeNames, data: &Vec<OwnedEmoji>) -> (code: String)
    ensures
        code@ == rendered(names@, emoji_views(data@)),
{
    let ghost all = emoji_views(data@);
    let mut code = String::new();
    put_opening(&mut code, names);
    assert(code@ =~= opening(names@));
    let mut i: usize = 0;
    assert(all.take(0) =~= Seq::<EmojiView>::empty());
    assert(code@ =~= opening(names@) + records_text(names@, all.take(0)));
    while i < data.len()
        invariant
            i <= data.len(),
            all == emoji_views(data@),
            code@ == opening(names@) + records_text(names@, all.take(i as int)),
        decreases data.len() - i,
    {
        let ghost now = all.take(i + 1);
        assert(now.drop_last() =~= all.take(i as int));
        assert(now.last() == data@[i as int]@);
        put_record(&mut code, names, &data[i]);
        assert(code@ =~= opening(names@) + records_text(names@, now));
        i += 1;
    }
    assert(all.take(i as int) =~= all);
    code.append("];\n");
    code
}

/// Writes the table `data` as the source text of a constant that a program
/// can embed.
///
/// The text names the types of this library. The records stand in the order
/// of `data`, and each with all its fields.
pub fn generate_rust_code(data: &Vec<OwnedEmoji>) -> (code: String)
    ensures
        code@ == rendered(own_names(), emoji_views(data@)),
{
    let names = TypeNames::own();
    render(&names, data)
}

/// The source text of the table for the registry text `text` and the
/// catalog `catalog`, or the failure of the build.
pub open spec fn generated(text: Seq<char>, catalog: Seq<GemojiView>) -> Result<
    Seq<char>,
    Failure,
> {
    match built(text, catalog) {
        Err(failure) => Err(failure),
        Ok(records) => Ok(rendered(own_names(), records)),
    }
}

/// Whether `outcome` is what a run on `text` and `catalog` ends with: the
/// source text of the table, or the failure of the build.
pub open spec fn is_outcome(
    text: Seq<char>,
    catalog: Seq<GemojiView>,
    outcome: Result<Seq<char>, Failure>,
) -> bool {
    outcome == generated(text, catalog)
}

/// Builds the table from the text of the registry and the alias catalog and
/// writes it as the source text of a constant.
pub fn generate(data: &str, catalog: &Vec<Gemoji>) -> (r: Result<String, Error>)
    ensures
        is_outcome(
            data@,
            gemoji_views(catalog@),
            match r {
                Ok(code) => Ok(code@),
                Err(e) => Err(e@),
            },
        ),
{
    match build(data, catalog) {
        Err(e) => Err(e),
        Ok(records) => Ok(generate_rust_code(&records)),
    }
}

/// Two runs on the same text and the same catalog end alike: with the same
/// source text, character for character, or with the same failure.
pub proof fn lemma_runs_agree(
    text: Seq<char>,
    catalog: Seq<GemojiView>,
    first: Result<Seq<char>, Failure>,
    second: Result<Seq<char>, Failure>,
)
    requires
        is_outcome(text, catalog, first),
        is_outcome(text, catalog, second),
    ensures
        first == second,
{
}

} // verus!
