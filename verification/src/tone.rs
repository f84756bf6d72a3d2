//! Skin tones: their order, and the tone that the modifiers in an emoji give it.

use vstd::prelude::*;
use crate::text::to_chars;
use crate::{ErrorKind, OwnedEntry, SkinTone};

verus! {

impl SkinTone {
    /// The place of the tone in the order of the tones, from 0.
    pub open spec fn rank(self) -> nat {
        match self {
            SkinTone::Default => 0,
            SkinTone::Light => 1,
            SkinTone::MediumLight => 2,
            SkinTone::Medium => 3,
            SkinTone::MediumDark => 4,
            SkinTone::Dark => 5,
            SkinTone::LightAndMediumLight => 6,
            SkinTone::LightAndMedium => 7,
            SkinTone::LightAndMediumDark => 8,
            SkinTone::LightAndDark => 9,
            SkinTone::MediumLightAndLight => 10,
            SkinTone::MediumLightAndMedium => 11,
            SkinTone::MediumLightAndMediumDark => 12,
            SkinTone::MediumLightAndDark => 13,
            SkinTone::MediumAndLight => 14,
            SkinTone::MediumAndMediumLight => 15,
            SkinTone::MediumAndMediumDark => 16,
            SkinTone::MediumAndDark => 17,
            SkinTone::MediumDarkAndLight => 18,
            SkinTone::MediumDarkAndMediumLight => 19,
            SkinTone::MediumDarkAndMedium => 20,
            SkinTone::MediumDarkAndDark => 21,
            SkinTone::DarkAndLight => 22,
            SkinTone::DarkAndMediumLight => 23,
            SkinTone::DarkAndMedium => 24,
            SkinTone::DarkAndMediumDark => 25,
        }
    }

    /// Computes `rank`.
    pub fn order(&self) -> (r: u8)
        ensures
            r == self.rank(),
    {
        match self {
            SkinTone::Default => 0u8,
            SkinTone::Light => 1u8,
            SkinTone::MediumLight => 2u8,
            SkinTone::Medium => 3u8,
            SkinTone::MediumDark => 4u8,
            SkinTone::Dark => 5u8,
            SkinTone::LightAndMediumLight => 6u8,
            SkinTone::LightAndMedium => 7u8,
            SkinTone::LightAndMediumDark => 8u8,
            SkinTone::LightAndDark => 9u8,
            SkinTone::MediumLightAndLight => 10u8,
            SkinTone::MediumLightAndMedium => 11u8,
            SkinTone::MediumLightAndMediumDark => 12u8,
            SkinTone::MediumLightAndDark => 13u8,
            SkinTone::MediumAndLight => 14u8,
            SkinTone::MediumAndMediumLight => 15u8,
            SkinTone::MediumAndMediumDark => 16u8,
            SkinTone::MediumAndDark => 17u8,
            SkinTone::MediumDarkAndLight => 18u8,
            SkinTone::MediumDarkAndMediumLight => 19u8,
            SkinTone::MediumDarkAndMedium => 20u8,
            SkinTone::MediumDarkAndDark => 21u8,
            SkinTone::DarkAndLight => 22u8,
            SkinTone::DarkAndMediumLight => 23u8,
            SkinTone::DarkAndMedium => 24u8,
            SkinTone::DarkAndMediumDark => 25u8,
        }
    }

    /// Whether the tone is that of one of the five modifiers.
    pub open spec fn is_single(self) -> bool {
        1 <= self.rank() <= 5
    }

    /// The tone of an emoji with the two modifiers `first` and `second`, in
    /// this order: the tone itself where the two are the same, and else the
    /// pair named after both.
    pub open spec fn pair(first: SkinTone, second: SkinTone) -> SkinTone {
        match (first, second) {
            (SkinTone::Light, SkinTone::MediumLight) => SkinTone::LightAndMediumLight,
            (SkinTone::Light, SkinTone::Medium) => SkinTone::LightAndMedium,
            (SkinTone::Light, SkinTone::MediumDark) => SkinTone::LightAndMediumDark,
            (SkinTone::Light, SkinTone::Dark) => SkinTone::LightAndDark,
            (SkinTone::MediumLight, SkinTone::Light) => SkinTone::MediumLightAndLight,
            (SkinTone::MediumLight, SkinTone::Medium) => SkinTone::MediumLightAndMedium,
            (SkinTone::MediumLight, SkinTone::MediumDark) => SkinTone::MediumLightAndMediumDark,
            (SkinTone::MediumLight, SkinTone::Dark) => SkinTone::MediumLightAndDark,
            (SkinTone::Medium, SkinTone::Light) => SkinTone::MediumAndLight,
            (SkinTone::Medium, SkinTone::MediumLight) => SkinTone::MediumAndMediumLight,
            (SkinTone::Medium, SkinTone::MediumDark) => SkinTone::MediumAndMediumDark,
            (SkinTone::Medium, SkinTone::Dark) => SkinTone::MediumAndDark,
            (SkinTone::MediumDark, SkinTone::Light) => SkinTone::MediumDarkAndLight,
            (SkinTone::MediumDark, SkinTone::MediumLight) => SkinTone::MediumDarkAndMediumLight,
            (SkinTone::MediumDark, SkinTone::Medium) => SkinTone::MediumDarkAndMedium,
            (SkinTone::MediumDark, SkinTone::Dark) => SkinTone::MediumDarkAndDark,
            (SkinTone::Dark, SkinTone::Light) => SkinTone::DarkAndLight,
            (SkinTone::Dark, SkinTone::MediumLight) => SkinTone::DarkAndMediumLight,
            (SkinTone::Dark, SkinTone::Medium) => SkinTone::DarkAndMedium,
            (SkinTone::Dark, SkinTone::MediumDark) => SkinTone::DarkAndMediumDark,
            _ => first,
        }
    }

    /// Computes `pair`.
    pub fn paired(first: SkinTone, second: SkinTone) -> (r: SkinTone)
        ensures
            r == SkinTone::pair(first, second),
    {
        match (first, second) {
            (SkinTone::Light, SkinTone::MediumLight) => SkinTone::LightAndMediumLight,
            (SkinTone::Light, SkinTone::Medium) => SkinTone::LightAndMedium,
            (SkinTone::Light, SkinTone::MediumDark) => SkinTone::LightAndMediumDark,
            (SkinTone::Light, SkinTone::Dark) => SkinTone::LightAndDark,
            (SkinTone::MediumLight, SkinTone::Light) => SkinTone::MediumLightAndLight,
            (SkinTone::MediumLight, SkinTone::Medium) => SkinTone::MediumLightAndMedium,
            (SkinTone::MediumLight, SkinTone::MediumDark) => SkinTone::MediumLightAndMediumDark,
            (SkinTone::MediumLight, SkinTone::Dark) => SkinTone::MediumLightAndDark,
            (SkinTone::Medium, SkinTone::Light) => SkinTone::MediumAndLight,
            (SkinTone::Medium, SkinTone::MediumLight) => SkinTone::MediumAndMediumLight,
            (SkinTone::Medium, SkinTone::MediumDark) => SkinTone::MediumAndMediumDark,
            (SkinTone::Medium, SkinTone::Dark) => SkinTone::MediumAndDark,
            (SkinTone::MediumDark, SkinTone::Light) => SkinTone::MediumDarkAndLight,
            (SkinTone::MediumDark, SkinTone::MediumLight) => SkinTone::MediumDarkAndMediumLight,
            (SkinTone::MediumDark, SkinTone::Medium) => SkinTone::MediumDarkAndMedium,
            (SkinTone::MediumDark, SkinTone::Dark) => SkinTone::MediumDarkAndDark,
            (SkinTone::Dark, SkinTone::Light) => SkinTone::DarkAndLight,
            (SkinTone::Dark, SkinTone::MediumLight) => SkinTone::DarkAndMediumLight,
            (SkinTone::Dark, SkinTone::Medium) => SkinTone::DarkAndMedium,
            (SkinTone::Dark, SkinTone::MediumDark) => SkinTone::DarkAndMediumDark,
            _ => first,
        }
    }
}

/// The tone that the modifier character `c` stands for.
pub open spec fn modifier_tone(c: char) -> Option<SkinTone> {
    if c == '\u{1f3fb}' {
        Some(SkinTone::Light)
    } else if c == '\u{1f3fc}' {
        Some(SkinTone::MediumLight)
    } else if c == '\u{1f3fd}' {
        Some(SkinTone::Medium)
    } else if c == '\u{1f3fe}' {
        Some(SkinTone::MediumDark)
    } else if c == '\u{1f3ff}' {
        Some(SkinTone::Dark)
    } else {
        None
    }
}

/// Computes `modifier_tone`.
pub fn tone_of_modifier(c: char) -> (r: Option<SkinTone>)
    ensures
        r == modifier_tone(c),
{
    if c == '\u{1f3fb}' {
        Some(SkinTone::Light)
    } else if c == '\u{1f3fc}' {
        Some(SkinTone::MediumLight)
    } else if c == '\u{1f3fd}' {
        Some(SkinTone::Medium)
    } else if c == '\u{1f3fe}' {
        Some(SkinTone::MediumDark)
    } else if c == '\u{1f3ff}' {
        Some(SkinTone::Dark)
    } else {
        None
    }
}

/// The tones of the modifiers in `s`, in the order of the modifiers.
pub open spec fn modifiers(s: Seq<char>) -> Seq<SkinTone>
    decreases s.len(),
{
    if s.len() == 0 {
        Seq::empty()
    } else {
        match modifier_tone(s.last()) {
            Some(tone) => modifiers(s.drop_last()).push(tone),
            None => modifiers(s.drop_last()),
        }
    }
}

/// The tone of the emoji `s`: none without a modifier, the tone of its one
/// modifier, the pair of its two; more than two are not recognized.
pub open spec fn classify(s: Seq<char>) -> Result<Option<SkinTone>, ErrorKind> {
    let found = modifiers(s);
    if found.len() == 0 {
        Ok(None)
    } else if found.len() == 1 {
        Ok(Some(found[0]))
    } else if found.len() == 2 {
        Ok(Some(SkinTone::pair(found[0], found[1])))
    } else {
        Err(ErrorKind::UnrecognizedToneCombination)
    }
}

/// Every tone among `modifiers(s)` is that of one modifier.
pub proof fn lemma_modifiers_single(s: Seq<char>)
    ensures
        forall|i: int| 0 <= i < modifiers(s).len() ==> (#[trigger] modifiers(s)[i]).is_single(),
    decreases s.len(),
{
    if s.len() > 0 {
        lemma_modifiers_single(s.drop_last());
        let before = modifiers(s.drop_last());
        assert forall|i: int| 0 <= i < modifiers(s).len() implies (#[trigger] modifiers(
            s,
        )[i]).is_single() by {
            if i < before.len() {
                assert(modifiers(s)[i] == before[i]);
            }
        }
    }
}

/// The tone of an emoji is never `Default`: that tone is given to a record
/// only when a variant of it is found.
pub proof fn lemma_classify_not_default(s: Seq<char>)
    ensures
        classify(s) != Ok::<Option<SkinTone>, ErrorKind>(Some(SkinTone::Default)),
{
    lemma_modifiers_single(s);
    let found = modifiers(s);
    if found.len() == 1 {
        assert(found[0].is_single());
    } else if found.len() == 2 {
        assert(found[0].is_single());
        assert(found[1].is_single());
    }
}

/// Computes `classify`.
pub fn classify_text(s: &str) -> (r: Result<Option<SkinTone>, ErrorKind>)
    ensures
        r == classify(s@),
{
    let chars = to_chars(s);
    let mut found: Vec<SkinTone> = Vec::new();
    let mut i: usize = 0;
    assert(chars@.take(0) == Seq::<char>::empty());
    while i < chars.len()
        invariant
            i <= chars.len(),
            chars@ == s@,
            found@ == modifiers(chars@.take(i as int)),
        decreases chars.len() - i,
    {
        assert(chars@.take(i + 1).drop_last() == chars@.take(i as int));
        match tone_of_modifier(chars[i]) {
            Some(tone) => {
                found.push(tone);
            },
            None => {},
        }
        i += 1;
    }
    assert(chars@.take(i as int) == chars@);
    if found.len() == 0 {
        Ok(None)
    } else if found.len() == 1 {
        Ok(Some(found[0]))
    } else if found.len() == 2 {
        Ok(Some(SkinTone::paired(found[0], found[1])))
    } else {
        Err(ErrorKind::UnrecognizedToneCombination)
    }
}

/// The tone of the emoji of `entry`.
pub fn parse_skin_tone(entry: &OwnedEntry) -> (r: Result<Option<SkinTone>, ErrorKind>)
    ensures
        r == classify(entry@.emoji),
{
    classify_text(entry.emoji.as_str())
}

} // verus!
