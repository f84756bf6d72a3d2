use unicode_types::search::text_contains;
use unicode_types::{Emoji, Entry, Group, OwnedEmoji, Status, Version};

fn record() -> OwnedEmoji {
    Emoji {
        entry: Entry {
            group: Group::SmileysAndEmotion,
            subgroup: "Face-Smiling".to_string(),
            status: Status::FullyQualified,
            unicode_version: Version { major: 1, minor: 0 },
            emoji: "\u{1F600}".to_string(),
            name: "Grinning Face".to_string(),
            ios_version: None,
            tags: vec!["Smile".to_string(), "HAPPY".to_string()],
            aliases: vec!["grinning".to_string(), "\u{C9}t\u{E9}".to_string()],
        },
        skin_tones: 1,
        skin_tone: None,
        variations: vec!["hidden-spelling".to_string()],
    }
}

#[test]
fn empty_query_matches_every_record() {
    assert!(record().matches_search(""));
}

#[test]
fn query_is_looked_for_in_each_text() {
    let r = record();
    assert!(r.matches_search("\u{1F600}"));
    assert!(r.matches_search("grinning face"));
    assert!(r.matches_search("inning"));
    assert!(r.matches_search("face-smi"));
    assert!(r.matches_search("smile"));
    assert!(r.matches_search("happy"));
    assert!(r.matches_search("grinning"));
    assert!(!r.matches_search("sad"));
    assert!(!r.matches_search("grinning face!"));
    assert!(!r.matches_search("smilehappy"));
}

#[test]
fn case_is_not_regarded() {
    let r = record();
    assert!(r.matches_search("GRINNING"));
    assert!(r.matches_search("Happy"));
    assert!(r.matches_search("FACE-SMILING"));
    assert!(r.matches_search("\u{E9}T\u{C9}"));
    assert!(r.matches_search("sMiLe"));
}

#[test]
fn group_and_other_spellings_are_not_searched() {
    let r = record();
    assert!(!r.matches_search("Smileys"));
    assert!(!r.matches_search("hidden"));
    assert!(!r.matches_search("fully"));
}

#[test]
fn one_text_in_another() {
    assert!(text_contains("hello world", "o w"));
    assert!(text_contains("hello world", "hello world"));
    assert!(text_contains("hello world", ""));
    assert!(text_contains("", ""));
    assert!(text_contains("aab", "ab"));
    assert!(text_contains("\u{1F600}x\u{1F601}", "x\u{1F601}"));
    assert!(!text_contains("hello world", "hello world!"));
    assert!(!text_contains("", "a"));
    assert!(!text_contains("Hello", "hello"));
    assert!(!text_contains("abab", "abb"));
    for (hay, needle) in [("abcabc", "cab"), ("abc", "abcd"), ("x", "x"), ("xy", "yx")] {
        assert_eq!(text_contains(hay, needle), hay.contains(needle));
    }
}

use unicode_types::search::search;
use unicode_types::{SkinTone, StaticEmoji};

const TABLE: &[StaticEmoji] = &[
    Emoji {
        entry: Entry {
            group: Group::SmileysAndEmotion,
            subgroup: "face-smiling",
            status: Status::FullyQualified,
            unicode_version: Version { major: 1, minor: 0 },
            emoji: "\u{1F600}",
            name: "grinning face",
            ios_version: Some(Version { major: 6, minor: 0 }),
            tags: &["smile", "happy"],
            aliases: &["grinning"],
        },
        skin_tones: 1,
        skin_tone: None,
        variations: &[],
    },
    Emoji {
        entry: Entry {
            group: Group::PeopleAndBody,
            subgroup: "hand-fingers-open",
            status: Status::FullyQualified,
            unicode_version: Version { major: 0, minor: 6 },
            emoji: "\u{1F44B}",
            name: "waving hand",
            ios_version: None,
            tags: &["goodbye"],
            aliases: &["wave"],
        },
        skin_tones: 2,
        skin_tone: Some(SkinTone::Default),
        variations: &[],
    },
    Emoji {
        entry: Entry {
            group: Group::PeopleAndBody,
            subgroup: "hand-fingers-open",
            status: Status::FullyQualified,
            unicode_version: Version { major: 1, minor: 0 },
            emoji: "\u{1F44B}\u{1F3FB}",
            name: "waving hand: light skin tone",
            ios_version: None,
            tags: &[],
            aliases: &[],
        },
        skin_tones: 1,
        skin_tone: Some(SkinTone::Light),
        variations: &["unseen"],
    },
];

#[test]
fn embedded_records_are_searched_alike() {
    assert!(TABLE[0].matches_search(""));
    assert!(TABLE[0].matches_search("HAPPY"));
    assert!(TABLE[0].matches_search("Face-Smiling"));
    assert!(TABLE[0].matches_search("\u{1F600}"));
    assert!(!TABLE[0].matches_search("wave"));
    assert!(TABLE[1].matches_search("Wave"));
    assert!(TABLE[1].matches_search("goodbye"));
    assert!(TABLE[2].matches_search("light skin"));
    assert!(!TABLE[2].matches_search("unseen"));
    assert!(!TABLE[2].matches_search("wave"));
}

#[test]
fn picker_shows_what_the_query_matches() {
    assert_eq!(search(TABLE, ""), vec![0, 1, 2]);
    assert_eq!(search(TABLE, "hand"), vec![1, 2]);
    assert_eq!(search(TABLE, "HAND"), vec![1, 2]);
    assert_eq!(search(TABLE, "Grinning"), vec![0]);
    assert_eq!(search(TABLE, "light"), vec![2]);
    assert_eq!(search(TABLE, "\u{1F44B}"), vec![1, 2]);
    assert_eq!(search(TABLE, "nothing"), Vec::<usize>::new());
    assert_eq!(search(&[], "x"), Vec::<usize>::new());
    assert_eq!(search(&[], ""), Vec::<usize>::new());
}
