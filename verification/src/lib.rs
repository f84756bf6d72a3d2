//! Data model of an emoji table built from the Unicode emoji registry, the
//! parser for the registry text, the aggregation of its lines into canonical
//! records and the rendering of those records as a static table.

use vstd::prelude::*;
use vstd::string::StringExecFns;

pub mod aggregate;
pub mod convert;
pub mod github;
pub mod number;
pub mod order;
pub mod output;
pub mod registry;
pub mod search;
pub mod table;
pub mod text;
pub mod tone;
pub mod util;

verus! {

/// A two-part version number, ordered by `major` and then by `minor`.
#[derive(Clone, Copy, Debug, PartialEq, Eq, Hash, Ord, Structural)]
pub struct Version {
    pub major: i16,
    pub minor: i16,
}

impl Version {
    /// Whether `self` comes strictly before `other`.
    pub open spec fn precedes(self, other: Version) -> bool {
        self.major < other.major || (self.major == other.major && self.minor < other.minor)
    }

    /// Decides `precedes`.
    pub fn is_before(&self, other: &Version) -> (r: bool)
        ensures
            r == self.precedes(*other),
    {
        self.major < other.major || (self.major == other.major && self.minor < other.minor)
    }
}

/// Qualification of a registry line.
#[derive(Debug, Clone, Copy, PartialEq, Eq, Hash, Structural)]
pub enum Status {
    /// A qualified emoji character, or a sequence in which each emoji character is qualified.
    FullyQualified,
    /// A sequence whose first character is qualified while the sequence as a whole is not.
    MinimallyQualified,
    /// Neither fully nor minimally qualified.
    Unqualified,
    /// Not an emoji: a building block for emoji.
    Component,
}

/// The skin tone of a record: none applied, one of the five modifiers, or an
/// ordered pair of two different modifiers. The declaration order is the order
/// in which the tone variants of a family are kept.
#[derive(Debug, Clone, Copy, PartialEq, Eq, Hash, Ord, Structural)]
pub enum SkinTone {
    Default,
    Light,
    MediumLight,
    Medium,
    MediumDark,
    Dark,
    LightAndMediumLight,
    LightAndMedium,
    LightAndMediumDark,
    LightAndDark,
    MediumLightAndLight,
    MediumLightAndMedium,
    MediumLightAndMediumDark,
    MediumLightAndDark,
    MediumAndLight,
    MediumAndMediumLight,
    MediumAndMediumDark,
    MediumAndDark,
    MediumDarkAndLight,
    MediumDarkAndMediumLight,
    MediumDarkAndMedium,
    MediumDarkAndDark,
    DarkAndLight,
    DarkAndMediumLight,
    DarkAndMedium,
    DarkAndMediumDark,
}

/// The category of an emoji. The declaration order is the order of the
/// categories in a selection palette.
#[derive(Debug, Clone, Copy, PartialEq, Eq, Hash, Ord, Structural)]
pub enum Group {
    SmileysAndEmotion,
    PeopleAndBody,
    AnimalsAndNature,
    FoodAndDrink,
    TravelAndPlaces,
    Activities,
    Objects,
    Symbols,
    Flags,
    Component,
}

impl Status {
    /// The keyword that names the status in the registry.
    pub open spec fn keyword(self) -> Seq<char> {
        match self {
            Status::FullyQualified => "fully-qualified"@,
            Status::MinimallyQualified => "minimally-qualified"@,
            Status::Unqualified => "unqualified"@,
            Status::Component => "component"@,
        }
    }

    /// The keyword that names the status in the registry.
    pub fn as_str(&self) -> (r: &'static str)
        ensures
            r@ == self.keyword(),
    {
        match self {
            Status::FullyQualified => "fully-qualified",
            Status::MinimallyQualified => "minimally-qualified",
            Status::Unqualified => "unqualified",
            Status::Component => "component",
        }
    }
}

impl Group {
    /// The canonical name of the group.
    pub open spec fn name(self) -> Seq<char> {
        match self {
            Group::SmileysAndEmotion => "Smileys & Emotion"@,
            Group::PeopleAndBody => "People & Body"@,
            Group::AnimalsAndNature => "Animals & Nature"@,
            Group::FoodAndDrink => "Food & Drink"@,
            Group::TravelAndPlaces => "Travel & Places"@,
            Group::Activities => "Activities"@,
            Group::Objects => "Objects"@,
            Group::Symbols => "Symbols"@,
            Group::Flags => "Flags"@,
            Group::Component => "Component"@,
        }
    }

    /// The canonical name of the group.
    #[must_use]
    pub fn as_str(&self) -> (r: &'static str)
        ensures
            r@ == self.name(),
    {
        match self {
            Group::SmileysAndEmotion => "Smileys & Emotion",
            Group::PeopleAndBody => "People & Body",
            Group::AnimalsAndNature => "Animals & Nature",
            Group::FoodAndDrink => "Food & Drink",
            Group::TravelAndPlaces => "Travel & Places",
            Group::Activities => "Activities",
            Group::Objects => "Objects",
            Group::Symbols => "Symbols",
            Group::Flags => "Flags",
            Group::Component => "Component",
        }
    }
}

/// One textual emoji record. `S` is the type of its strings and `C` that of
/// its string lists.
#[derive(Debug, Clone, PartialEq, Eq, Hash)]
pub struct Entry<S, C> {
    pub group: Group,
    pub subgroup: S,
    pub status: Status,
    pub unicode_version: Version,
    pub emoji: S,
    pub name: S,
    pub ios_version: Option<Version>,
    pub tags: C,
    pub aliases: C,
}

/// An aggregated record: an entry, the number of tone variants folded into
/// its family, its own tone, and the other spellings of the same emoji.
#[derive(Debug, Clone, PartialEq, Eq)]
pub struct Emoji<S, C> {
    pub entry: Entry<S, C>,
    pub skin_tones: usize,
    pub skin_tone: Option<SkinTone>,
    pub variations: C,
}

/// An entry that owns its text.
pub type OwnedEntry = Entry<String, Vec<String>>;

/// An aggregated record that owns its text.
pub type OwnedEmoji = Emoji<String, Vec<String>>;

/// An entry of a table that a program embeds.
pub type StaticEntry = Entry<&'static str, &'static [&'static str]>;

/// An aggregated record of a table that a program embeds.
pub type StaticEmoji = Emoji<&'static str, &'static [&'static str]>;

/// One record of the alias catalog.
#[derive(Clone, Debug)]
pub struct Gemoji {
    pub emoji: String,
    pub aliases: Vec<String>,
    pub ios_version: Version,
    pub tags: Vec<String>,
}

/// The mathematical value of an `OwnedEntry`.
pub struct EntryView {
    pub group: Group,
    pub subgroup: Seq<char>,
    pub status: Status,
    pub unicode_version: Version,
    pub emoji: Seq<char>,
    pub name: Seq<char>,
    pub ios_version: Option<Version>,
    pub tags: Seq<Seq<char>>,
    pub aliases: Seq<Seq<char>>,
}

/// The mathematical value of an `OwnedEmoji`.
pub struct EmojiView {
    pub entry: EntryView,
    pub skin_tones: nat,
    pub skin_tone: Option<SkinTone>,
    pub variations: Seq<Seq<char>>,
}

/// The mathematical value of a `Gemoji`.
pub struct GemojiView {
    pub emoji: Seq<char>,
    pub aliases: Seq<Seq<char>>,
    pub ios_version: Version,
    pub tags: Seq<Seq<char>>,
}

/// The texts held by a list of strings.
pub open spec fn texts(v: Seq<String>) -> Seq<Seq<char>> {
    Seq::new(v.len(), |i: int| v[i]@)
}

impl View for Entry<String, Vec<String>> {
    type V = EntryView;

    open spec fn view(&self) -> EntryView {
        EntryView {
            group: self.group,
            subgroup: self.subgroup@,
            status: self.status,
            unicode_version: self.unicode_version,
            emoji: self.emoji@,
            name: self.name@,
            ios_version: self.ios_version,
            tags: texts(self.tags@),
            aliases: texts(self.aliases@),
        }
    }
}

/// The texts held by a list of string slices.
pub open spec fn slice_texts(v: Seq<&'static str>) -> Seq<Seq<char>> {
    Seq::new(v.len(), |i: int| v[i]@)
}

impl View for Entry<&'static str, &'static [&'static str]> {
    type V = EntryView;

    open spec fn view(&self) -> EntryView {
        EntryView {
            group: self.group,
            subgroup: self.subgroup@,
            status: self.status,
            unicode_version: self.unicode_version,
            emoji: self.emoji@,
            name: self.name@,
            ios_version: self.ios_version,
            tags: slice_texts(self.tags@),
            aliases: slice_texts(self.aliases@),
        }
    }
}

impl View for Emoji<&'static str, &'static [&'static str]> {
    type V = EmojiView;

    open spec fn view(&self) -> EmojiView {
        EmojiView {
            entry: self.entry@,
            skin_tones: self.skin_tones as nat,
            skin_tone: self.skin_tone,
            variations: slice_texts(self.variations@),
        }
    }
}

/// The values of the records of a table that a program embeds.
pub open spec fn static_views(v: Seq<StaticEmoji>) -> Seq<EmojiView> {
    Seq::new(v.len(), |i: int| v[i]@)
}

impl View for Emoji<String, Vec<String>> {
    type V = EmojiView;

    open spec fn view(&self) -> EmojiView {
        EmojiView {
            entry: self.entry@,
            skin_tones: self.skin_tones as nat,
            skin_tone: self.skin_tone,
            variations: texts(self.variations@),
        }
    }
}

impl View for Gemoji {
    type V = GemojiView;

    open spec fn view(&self) -> GemojiView {
        GemojiView {
            emoji: self.emoji@,
            aliases: texts(self.aliases@),
            ios_version: self.ios_version,
            tags: texts(self.tags@),
        }
    }
}

/// The values of a list of records.
pub open spec fn emoji_views(v: Seq<OwnedEmoji>) -> Seq<EmojiView> {
    Seq::new(v.len(), |i: int| v[i]@)
}

/// The values of a list of entries.
pub open spec fn entry_views(v: Seq<OwnedEntry>) -> Seq<EntryView> {
    Seq::new(v.len(), |i: int| v[i]@)
}

/// The values of a catalog.
pub open spec fn gemoji_views(v: Seq<Gemoji>) -> Seq<GemojiView> {
    Seq::new(v.len(), |i: int| v[i]@)
}

/// What can go wrong while a table is built.
#[derive(Debug, Clone, Copy, PartialEq, Eq, Hash, Structural)]
pub enum ErrorKind {
    /// A data line stands before any group header.
    MissingGroup,
    /// A data line stands before any subgroup header.
    MissingSubgroup,
    /// A data line lacks its code points, its status or one of its three fields.
    MalformedLine,
    /// The group header in force names no known group.
    UnknownGroup,
    /// The status of a data line is none of the four keywords.
    UnknownStatus,
    /// A code point of a data line is no Unicode scalar value.
    InvalidScalarValue,
    /// The code points of a data line do not spell its emoji.
    EmojiMismatch,
    /// A version token has no such form, or a part of it is out of range.
    InvalidVersion,
    /// A minimally qualified or unqualified line has no record to attach to.
    NoCanonicalVariant,
    /// A tone variant has no record of its group and subgroup to belong to.
    NoDefaultToneSibling,
    /// An emoji holds more than two tone modifiers.
    UnrecognizedToneCombination,
}

impl ErrorKind {
    /// What went wrong, in a few words.
    pub open spec fn description(self) -> Seq<char> {
        match self {
            ErrorKind::MissingGroup => "missing group"@,
            ErrorKind::MissingSubgroup => "missing subgroup"@,
            ErrorKind::MalformedLine => "malformed line"@,
            ErrorKind::UnknownGroup => "invalid group"@,
            ErrorKind::UnknownStatus => "invalid status"@,
            ErrorKind::InvalidScalarValue => "invalid Unicode scalar value"@,
            ErrorKind::EmojiMismatch => "emoji mismatch"@,
            ErrorKind::InvalidVersion => "invalid version"@,
            ErrorKind::NoCanonicalVariant => "failed to find fully qualified variation"@,
            ErrorKind::NoDefaultToneSibling => "failed to find the default skin tone"@,
            ErrorKind::UnrecognizedToneCombination => "unrecognized skin tone combination"@,
        }
    }

    /// What went wrong, in a few words.
    pub fn as_str(&self) -> (r: &'static str)
        ensures
            r@ == self.description(),
    {
        match self {
            ErrorKind::MissingGroup => "missing group",
            ErrorKind::MissingSubgroup => "missing subgroup",
            ErrorKind::MalformedLine => "malformed line",
            ErrorKind::UnknownGroup => "invalid group",
            ErrorKind::UnknownStatus => "invalid status",
            ErrorKind::InvalidScalarValue => "invalid Unicode scalar value",
            ErrorKind::EmojiMismatch => "emoji mismatch",
            ErrorKind::InvalidVersion => "invalid version",
            ErrorKind::NoCanonicalVariant => "failed to find fully qualified variation",
            ErrorKind::NoDefaultToneSibling => "failed to find the default skin tone",
            ErrorKind::UnrecognizedToneCombination => "unrecognized skin tone combination",
        }
    }
}

/// A failure, with the registry line or the entry name it arose from.
#[derive(Debug, Clone, PartialEq, Eq)]
pub struct Error {
    pub kind: ErrorKind,
    pub context: String,
}

/// The mathematical value of an `Error`.
pub struct Failure {
    pub kind: ErrorKind,
    pub context: Seq<char>,
}

impl View for Error {
    type V = Failure;

    open spec fn view(&self) -> Failure {
        Failure { kind: self.kind, context: self.context@ }
    }
}

impl Failure {
    /// The failure in words: what went wrong, and for which line or entry.
    pub open spec fn message(self) -> Seq<char> {
        self.kind.description() + " for '"@ + self.context + "'"@
    }
}

impl Error {
    /// The failure in words: what went wrong, and for which line or entry.
    pub fn message(&self) -> (r: String)
        ensures
            r@ == self@.message(),
    {
        let mut r = String::from_str(self.kind.as_str());
        r.append(" for '");
        r.append(self.context.as_str());
        r.append("'");
        r
    }
}

} // verus!
