use unicode_types::github::genmoji_url;
use unicode_types::{ErrorKind, Group, SkinTone, Version};

const GROUPS: [(Group, &str); 10] = [
    (Group::SmileysAndEmotion, "Smileys & Emotion"),
    (Group::PeopleAndBody, "People & Body"),
    (Group::AnimalsAndNature, "Animals & Nature"),
    (Group::FoodAndDrink, "Food & Drink"),
    (Group::TravelAndPlaces, "Travel & Places"),
    (Group::Activities, "Activities"),
    (Group::Objects, "Objects"),
    (Group::Symbols, "Symbols"),
    (Group::Flags, "Flags"),
    (Group::Component, "Component"),
];

#[test]
fn groups_and_their_names() {
    for (group, name) in GROUPS {
        assert_eq!(group.as_str(), name);
        assert_eq!(Group::try_from(name), Ok(group));
        assert_eq!(Group::try_from(name.to_string()), Ok(group));
        assert_eq!(Group::try_from(group.as_str()), Ok(group));
    }
    assert_eq!(Group::try_from("flags"), Err(ErrorKind::UnknownGroup));
    assert_eq!(Group::try_from(" Flags"), Err(ErrorKind::UnknownGroup));
    assert_eq!(Group::try_from(""), Err(ErrorKind::UnknownGroup));
    assert_eq!(Group::try_from("Smileys and Emotion".to_string()), Err(ErrorKind::UnknownGroup));
}

#[test]
fn groups_are_ordered_as_declared() {
    for i in 0..GROUPS.len() {
        assert_eq!(GROUPS[i].0.order() as usize, i);
        for j in 0..GROUPS.len() {
            assert_eq!(GROUPS[i].0 < GROUPS[j].0, i < j);
            assert_eq!(GROUPS[i].0.partial_cmp(&GROUPS[j].0), Some(i.cmp(&j)));
            assert_eq!(GROUPS[i].0.cmp(&GROUPS[j].0), i.cmp(&j));
        }
    }
}

#[test]
fn tones_are_ordered_as_declared() {
    let tones = [
        SkinTone::Default,
        SkinTone::Light,
        SkinTone::MediumLight,
        SkinTone::Medium,
        SkinTone::MediumDark,
        SkinTone::Dark,
        SkinTone::LightAndMediumLight,
        SkinTone::LightAndMedium,
        SkinTone::LightAndMediumDark,
        SkinTone::LightAndDark,
        SkinTone::MediumLightAndLight,
        SkinTone::MediumLightAndMedium,
        SkinTone::MediumLightAndMediumDark,
        SkinTone::MediumLightAndDark,
        SkinTone::MediumAndLight,
        SkinTone::MediumAndMediumLight,
        SkinTone::MediumAndMediumDark,
        SkinTone::MediumAndDark,
        SkinTone::MediumDarkAndLight,
        SkinTone::MediumDarkAndMediumLight,
        SkinTone::MediumDarkAndMedium,
        SkinTone::MediumDarkAndDark,
        SkinTone::DarkAndLight,
        SkinTone::DarkAndMediumLight,
        SkinTone::DarkAndMedium,
        SkinTone::DarkAndMediumDark,
    ];
    for i in 0..tones.len() {
        assert_eq!(tones[i].order() as usize, i);
        for j in 0..tones.len() {
            assert_eq!(tones[i] < tones[j], i < j);
            assert_eq!(tones[i].partial_cmp(&tones[j]), Some(i.cmp(&j)));
            assert_eq!(tones[i].cmp(&tones[j]), i.cmp(&j));
            assert_eq!(Some(tones[i]) < Some(tones[j]), i < j);
        }
        assert!(None < Some(tones[i]));
    }
}

#[test]
fn versions_from_text() {
    assert_eq!(Version::try_from("6.0"), Ok(Version { major: 6, minor: 0 }));
    assert_eq!(Version::try_from("12.1".to_string()), Ok(Version { major: 12, minor: 1 }));
    assert_eq!(Version::try_from("-1.+2"), Ok(Version { major: -1, minor: 2 }));
    assert_eq!(Version::try_from("6"), Err(ErrorKind::InvalidVersion));
    assert_eq!(Version::try_from("E6.0"), Err(ErrorKind::InvalidVersion));
    assert_eq!(Version::try_from("6.0.1"), Err(ErrorKind::InvalidVersion));
    assert_eq!(Version::try_from("6.x"), Err(ErrorKind::InvalidVersion));
    assert_eq!(Version::try_from("40000.0"), Err(ErrorKind::InvalidVersion));
    assert_eq!(Version::try_from("".to_string()), Err(ErrorKind::InvalidVersion));
}

#[test]
fn versions_are_ordered_by_major_then_minor() {
    let a = Version { major: 1, minor: 9 };
    let b = Version { major: 2, minor: 0 };
    let c = Version { major: 2, minor: 1 };
    assert!(a.is_before(&b));
    assert!(b.is_before(&c));
    assert!(a.is_before(&c));
    assert!(!b.is_before(&a));
    assert!(!b.is_before(&b));
    assert!(!c.is_before(&b));
    assert!(Version { major: -1, minor: 5 }.is_before(&Version { major: 0, minor: -5 }));
}

#[test]
fn address_of_the_catalog() {
    assert_eq!(
        genmoji_url(),
        "https://raw.githubusercontent.com/github/gemoji/v4.1.0/db/emoji.json"
    );
}

#[test]
fn failures_in_words() {
    let e = unicode_types::Error { kind: ErrorKind::EmojiMismatch, context: "1F600 ; x".to_string() };
    assert_eq!(e.message(), "emoji mismatch for '1F600 ; x'");
    let e = unicode_types::Error { kind: ErrorKind::NoDefaultToneSibling, context: "waving hand".to_string() };
    assert_eq!(e.message(), "failed to find the default skin tone for 'waving hand'");
    let kinds = [
        (ErrorKind::MissingGroup, "missing group"),
        (ErrorKind::MissingSubgroup, "missing subgroup"),
        (ErrorKind::MalformedLine, "malformed line"),
        (ErrorKind::UnknownGroup, "invalid group"),
        (ErrorKind::UnknownStatus, "invalid status"),
        (ErrorKind::InvalidScalarValue, "invalid Unicode scalar value"),
        (ErrorKind::EmojiMismatch, "emoji mismatch"),
        (ErrorKind::InvalidVersion, "invalid version"),
        (ErrorKind::NoCanonicalVariant, "failed to find fully qualified variation"),
        (ErrorKind::NoDefaultToneSibling, "failed to find the default skin tone"),
        (ErrorKind::UnrecognizedToneCombination, "unrecognized skin tone combination"),
    ];
    for (kind, words) in kinds {
        assert_eq!(kind.as_str(), words);
        let e = unicode_types::Error { kind, context: String::new() };
        assert_eq!(e.message(), format!("{} for ''", words));
    }
}

#[test]
fn versions_compare_by_major_then_minor() {
    let versions = [
        Version { major: -1, minor: 7 },
        Version { major: 0, minor: -2 },
        Version { major: 0, minor: 6 },
        Version { major: 1, minor: 0 },
        Version { major: 15, minor: 1 },
    ];
    for i in 0..versions.len() {
        for j in 0..versions.len() {
            assert_eq!(versions[i] < versions[j], i < j);
            assert_eq!(versions[i].partial_cmp(&versions[j]), Some(i.cmp(&j)));
            assert_eq!(versions[i].cmp(&versions[j]), i.cmp(&j));
            assert_eq!(versions[i].is_before(&versions[j]), i < j);
        }
    }
}
