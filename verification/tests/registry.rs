use unicode_types::registry::{
    parse_code_points, parse_data, parse_emoji_data, parse_entry, parse_status,
    parse_unicode_version, unicode_url,
};
use unicode_types::{ErrorKind, Group, Status, Version};

const HEADERS: &str = "# group: Smileys & Emotion\n# subgroup: face-smiling\n";

fn under_headers(line: &str) -> String {
    format!("{}{}\n", HEADERS, line)
}

#[test]
fn one_line_gives_one_entry() {
    let entries = parse_data(&under_headers(
        "1F600                                                  ; fully-qualified     # \u{1F600} E1.0 grinning face",
    ))
    .unwrap();
    assert_eq!(entries.len(), 1);
    let e = &entries[0];
    assert_eq!(e.group, Group::SmileysAndEmotion);
    assert_eq!(e.subgroup, "face-smiling");
    assert_eq!(e.status, Status::FullyQualified);
    assert_eq!(e.unicode_version, Version { major: 1, minor: 0 });
    assert_eq!(e.emoji, "\u{1F600}");
    assert_eq!(e.name, "grinning face");
    assert_eq!(e.ios_version, None);
    assert!(e.tags.is_empty());
    assert!(e.aliases.is_empty());
}

#[test]
fn the_two_readers_agree() {
    let text = under_headers("1F600 ; fully-qualified # \u{1F600} E1.0 grinning face");
    assert_eq!(parse_data(&text), parse_emoji_data(&text));
}

#[test]
fn empty_text_gives_no_entry() {
    assert_eq!(parse_data("").unwrap().len(), 0);
    assert_eq!(parse_data("\n\n\n").unwrap().len(), 0);
    assert_eq!(parse_data("# just a comment").unwrap().len(), 0);
}

#[test]
fn comments_and_empty_lines_are_passed_over() {
    let text = "# emoji-test.txt\n#\n\n# group: Flags\n\n# subgroup: flag\n# a remark\n1F3C1 ; fully-qualified # \u{1F3C1} E0.6 chequered flag\n\n#EOF\n";
    let entries = parse_data(text).unwrap();
    assert_eq!(entries.len(), 1);
    assert_eq!(entries[0].group, Group::Flags);
    assert_eq!(entries[0].subgroup, "flag");
    assert_eq!(entries[0].unicode_version, Version { major: 0, minor: 6 });
}

#[test]
fn headers_are_trimmed_and_kept_from_line_to_line() {
    let text = "# group:   Food & Drink  \n# subgroup: \tfood-fruit \n1F347 ; fully-qualified # \u{1F347} E0.6 grapes\n1F348 ; fully-qualified # \u{1F348} E0.6 melon\n# subgroup: food-vegetable\n1F345 ; fully-qualified # \u{1F345} E0.6 tomato\n";
    let entries = parse_data(text).unwrap();
    assert_eq!(entries.len(), 3);
    assert_eq!(entries[0].group, Group::FoodAndDrink);
    assert_eq!(entries[0].subgroup, "food-fruit");
    assert_eq!(entries[1].subgroup, "food-fruit");
    assert_eq!(entries[2].group, Group::FoodAndDrink);
    assert_eq!(entries[2].subgroup, "food-vegetable");
    assert_eq!(entries[2].name, "tomato");
}

#[test]
fn carriage_return_before_line_feed_is_no_part_of_the_line() {
    let text = "# group: Flags\r\n# subgroup: flag\r\n1F3C1 ; fully-qualified # \u{1F3C1} E0.6 chequered flag\r\n";
    let entries = parse_data(text).unwrap();
    assert_eq!(entries.len(), 1);
    assert_eq!(entries[0].subgroup, "flag");
    assert_eq!(entries[0].name, "chequered flag");
}

#[test]
fn last_line_needs_no_line_feed() {
    let text = "# group: Flags\n# subgroup: flag\n1F3C1 ; fully-qualified # \u{1F3C1} E0.6 chequered flag";
    let entries = parse_data(text).unwrap();
    assert_eq!(entries.len(), 1);
    assert_eq!(entries[0].name, "chequered flag");
}

#[test]
fn name_keeps_its_whitespace() {
    let entries = parse_data(&under_headers(
        "1F600 ; fully-qualified # \u{1F600} E1.0 grinning  face with\ttab",
    ))
    .unwrap();
    assert_eq!(entries[0].name, "grinning  face with\ttab");
}

#[test]
fn several_code_points_spell_the_emoji() {
    let entries = parse_data(&under_headers(
        "263A FE0F ; fully-qualified # \u{263A}\u{FE0F} E0.6 smiling face",
    ))
    .unwrap();
    assert_eq!(entries[0].emoji, "\u{263A}\u{FE0F}");
}

#[test]
fn all_four_statuses_are_read() {
    let text = format!(
        "{}{}\n{}\n{}\n{}\n",
        HEADERS,
        "263A FE0F ; fully-qualified # \u{263A}\u{FE0F} E0.6 smiling face",
        "263A ; unqualified # \u{263A} E0.6 smiling face",
        "263A ; minimally-qualified # \u{263A} E0.6 smiling face",
        "1F3FB ; component # \u{1F3FB} E1.0 light skin tone"
    );
    let entries = parse_data(&text).unwrap();
    let statuses: Vec<Status> = entries.iter().map(|e| e.status).collect();
    assert_eq!(
        statuses,
        vec![
            Status::FullyQualified,
            Status::Unqualified,
            Status::MinimallyQualified,
            Status::Component
        ]
    );
}

#[test]
fn data_line_before_group_header_is_refused() {
    let e = parse_data("1F600 ; fully-qualified # \u{1F600} E1.0 grinning face\n").unwrap_err();
    assert_eq!(e.kind, ErrorKind::MissingGroup);
    assert_eq!(e.context, "1F600 ; fully-qualified # \u{1F600} E1.0 grinning face");
}

#[test]
fn data_line_before_subgroup_header_is_refused() {
    let e = parse_data("# group: Flags\n1F3C1 ; fully-qualified # \u{1F3C1} E0.6 chequered flag\n")
        .unwrap_err();
    assert_eq!(e.kind, ErrorKind::MissingSubgroup);
}

#[test]
fn empty_group_header_counts_as_none() {
    let e = parse_data("# group: \n# subgroup: flag\n1F3C1 ; fully-qualified # \u{1F3C1} E0.6 flag\n")
        .unwrap_err();
    assert_eq!(e.kind, ErrorKind::MissingGroup);
}

#[test]
fn unknown_group_is_refused_at_its_first_data_line() {
    assert_eq!(parse_data("# group: Nonsense\n# subgroup: x\n").unwrap().len(), 0);
    let e = parse_data("# group: Nonsense\n# subgroup: x\n1F3C1 ; fully-qualified # \u{1F3C1} E0.6 flag\n")
        .unwrap_err();
    assert_eq!(e.kind, ErrorKind::UnknownGroup);
    assert_eq!(e.context, "1F3C1 ; fully-qualified # \u{1F3C1} E0.6 flag");
}

#[test]
fn line_without_semicolon_is_malformed() {
    let e = parse_data(&under_headers("1F600 fully-qualified # \u{1F600} E1.0 grinning face"))
        .unwrap_err();
    assert_eq!(e.kind, ErrorKind::MalformedLine);
}

#[test]
fn line_without_hash_is_malformed() {
    let e = parse_data(&under_headers("1F600 ; fully-qualified \u{1F600} E1.0 grinning face"))
        .unwrap_err();
    assert_eq!(e.kind, ErrorKind::MalformedLine);
}

#[test]
fn line_with_fewer_than_three_fields_is_malformed() {
    let e = parse_data(&under_headers("1F600 ; fully-qualified # \u{1F600} E1.0")).unwrap_err();
    assert_eq!(e.kind, ErrorKind::MalformedLine);
    let e = parse_data(&under_headers("1F600 ; fully-qualified # \u{1F600}")).unwrap_err();
    assert_eq!(e.kind, ErrorKind::MalformedLine);
    let e = parse_data(&under_headers("1F600 ; fully-qualified #")).unwrap_err();
    assert_eq!(e.kind, ErrorKind::MalformedLine);
    let e = parse_data(&under_headers(" ")).unwrap_err();
    assert_eq!(e.kind, ErrorKind::MalformedLine);
}

#[test]
fn code_point_that_is_no_number_is_malformed() {
    let e = parse_data(&under_headers("1F6G0 ; fully-qualified # \u{1F600} E1.0 grinning face"))
        .unwrap_err();
    assert_eq!(e.kind, ErrorKind::MalformedLine);
    let e = parse_data(&under_headers("1FFFFFFFF ; fully-qualified # \u{1F600} E1.0 grinning face"))
        .unwrap_err();
    assert_eq!(e.kind, ErrorKind::MalformedLine);
}

#[test]
fn surrogate_is_no_scalar_value() {
    let e = parse_data(&under_headers("D800 ; fully-qualified # \u{1F600} E1.0 grinning face"))
        .unwrap_err();
    assert_eq!(e.kind, ErrorKind::InvalidScalarValue);
    let e = parse_data(&under_headers("110000 ; fully-qualified # \u{1F600} E1.0 grinning face"))
        .unwrap_err();
    assert_eq!(e.kind, ErrorKind::InvalidScalarValue);
}

#[test]
fn wrong_code_point_is_a_mismatch() {
    let e = parse_data(&under_headers("1F601 ; fully-qualified # \u{1F600} E1.0 grinning face"))
        .unwrap_err();
    assert_eq!(e.kind, ErrorKind::EmojiMismatch);
    let e = parse_data(&under_headers("1F600 FE0F ; fully-qualified # \u{1F600} E1.0 grinning face"))
        .unwrap_err();
    assert_eq!(e.kind, ErrorKind::EmojiMismatch);
    let e = parse_data(&under_headers(" ; fully-qualified # \u{1F600} E1.0 grinning face"))
        .unwrap_err();
    assert_eq!(e.kind, ErrorKind::EmojiMismatch);
}

#[test]
fn unknown_status_is_refused() {
    let e = parse_data(&under_headers("1F600 ; qualified # \u{1F600} E1.0 grinning face"))
        .unwrap_err();
    assert_eq!(e.kind, ErrorKind::UnknownStatus);
    assert_eq!(parse_status("Fully-Qualified"), Err(ErrorKind::UnknownStatus));
    assert_eq!(parse_status(""), Err(ErrorKind::UnknownStatus));
}

#[test]
fn status_keywords() {
    assert_eq!(parse_status("fully-qualified"), Ok(Status::FullyQualified));
    assert_eq!(parse_status("minimally-qualified"), Ok(Status::MinimallyQualified));
    assert_eq!(parse_status("unqualified"), Ok(Status::Unqualified));
    assert_eq!(parse_status("component"), Ok(Status::Component));
    assert_eq!(Status::MinimallyQualified.as_str(), "minimally-qualified");
}

#[test]
fn bad_version_is_refused() {
    let e = parse_data(&under_headers("1F600 ; fully-qualified # \u{1F600} 1.0 grinning face"))
        .unwrap_err();
    assert_eq!(e.kind, ErrorKind::InvalidVersion);
    let e = parse_data(&under_headers("1F600 ; fully-qualified # \u{1F600}  E1.0 grinning face"))
        .unwrap_err();
    assert_eq!(e.kind, ErrorKind::InvalidVersion);
}

#[test]
fn failures_come_in_the_order_of_the_checks() {
    // The code points are looked at before the status, the status before the version.
    let e = parse_data(&under_headers("1F601 ; nonsense # \u{1F600} x grinning face")).unwrap_err();
    assert_eq!(e.kind, ErrorKind::EmojiMismatch);
    let e = parse_data(&under_headers("1F600 ; nonsense # \u{1F600} x grinning face")).unwrap_err();
    assert_eq!(e.kind, ErrorKind::UnknownStatus);
    let e = parse_data(&under_headers("D800 ; nonsense # \u{1F600} x grinning face")).unwrap_err();
    assert_eq!(e.kind, ErrorKind::InvalidScalarValue);
}

#[test]
fn first_failing_line_ends_the_reading() {
    let text = format!(
        "{}{}\n{}\n{}\n",
        HEADERS,
        "1F600 ; fully-qualified # \u{1F600} E1.0 grinning face",
        "1F601 ; nonsense # \u{1F601} E1.0 beaming face",
        "D800 ; fully-qualified # x E1.0 broken"
    );
    let e = parse_data(&text).unwrap_err();
    assert_eq!(e.kind, ErrorKind::UnknownStatus);
    assert_eq!(e.context, "1F601 ; nonsense # \u{1F601} E1.0 beaming face");
}

#[test]
fn unicode_versions() {
    assert_eq!(parse_unicode_version("E1.0"), Ok(Version { major: 1, minor: 0 }));
    assert_eq!(parse_unicode_version("E15.1"), Ok(Version { major: 15, minor: 1 }));
    assert_eq!(parse_unicode_version("E0.6"), Ok(Version { major: 0, minor: 6 }));
    assert_eq!(parse_unicode_version("E+3.-4"), Ok(Version { major: 3, minor: -4 }));
    assert_eq!(parse_unicode_version("E32767.-32768"), Ok(Version { major: 32767, minor: -32768 }));
    assert_eq!(parse_unicode_version("E007.000"), Ok(Version { major: 7, minor: 0 }));
    assert_eq!(parse_unicode_version("1.0"), Err(ErrorKind::InvalidVersion));
    assert_eq!(parse_unicode_version("e1.0"), Err(ErrorKind::InvalidVersion));
    assert_eq!(parse_unicode_version("E1"), Err(ErrorKind::InvalidVersion));
    assert_eq!(parse_unicode_version("E1."), Err(ErrorKind::InvalidVersion));
    assert_eq!(parse_unicode_version("E.1"), Err(ErrorKind::InvalidVersion));
    assert_eq!(parse_unicode_version("E1.0.0"), Err(ErrorKind::InvalidVersion));
    assert_eq!(parse_unicode_version("E32768.0"), Err(ErrorKind::InvalidVersion));
    assert_eq!(parse_unicode_version("E1.-32769"), Err(ErrorKind::InvalidVersion));
    assert_eq!(parse_unicode_version("E1.x"), Err(ErrorKind::InvalidVersion));
    assert_eq!(parse_unicode_version("E-.1"), Err(ErrorKind::InvalidVersion));
    assert_eq!(parse_unicode_version(""), Err(ErrorKind::InvalidVersion));
}

#[test]
fn code_points_are_read_as_std_reads_them() {
    assert_eq!(parse_code_points("1F600"), Ok(vec!['\u{1F600}']));
    assert_eq!(parse_code_points("  1f600\t+41  0061 "), Ok(vec!['\u{1F600}', 'A', 'a']));
    assert_eq!(parse_code_points(""), Ok(vec![]));
    assert_eq!(parse_code_points("   "), Ok(vec![]));
    assert_eq!(parse_code_points("0"), Ok(vec!['\0']));
    assert_eq!(parse_code_points("10FFFF D7FF E000"), Ok(vec!['\u{10FFFF}', '\u{D7FF}', '\u{E000}']));
    assert_eq!(parse_code_points("DFFF"), Err(ErrorKind::InvalidScalarValue));
    assert_eq!(parse_code_points("FFFFFFFF"), Err(ErrorKind::InvalidScalarValue));
    assert_eq!(parse_code_points("100000000"), Err(ErrorKind::MalformedLine));
    assert_eq!(parse_code_points("-41"), Err(ErrorKind::MalformedLine));
    assert_eq!(parse_code_points("+"), Err(ErrorKind::MalformedLine));
    assert_eq!(parse_code_points("++41"), Err(ErrorKind::MalformedLine));
    assert_eq!(parse_code_points("41 zz D800"), Err(ErrorKind::MalformedLine));
    assert_eq!(parse_code_points("41 D800 zz"), Err(ErrorKind::InvalidScalarValue));
    // A no-break space is no ASCII whitespace: it does not part two tokens.
    assert_eq!(parse_code_points("41\u{A0}42"), Err(ErrorKind::MalformedLine));
    for token in ["0", "7f", "1F600", "+1f3fb", "d7ff", "D800", "110000", "ffffffff", "g", ""] {
        let expected = match u32::from_str_radix(token, 16) {
            Err(_) => {
                if token.is_empty() {
                    Ok(vec![])
                } else {
                    Err(ErrorKind::MalformedLine)
                }
            }
            Ok(v) => match char::from_u32(v) {
                Some(c) => Ok(vec![c]),
                None => Err(ErrorKind::InvalidScalarValue),
            },
        };
        assert_eq!(parse_code_points(token), expected);
    }
}

#[test]
fn one_data_line_alone() {
    let entry = parse_entry(
        Group::PeopleAndBody,
        String::from("hand-fingers-open"),
        "1F44B 1F3FB ; fully-qualified # \u{1F44B}\u{1F3FB} E1.0 waving hand: light skin tone",
    )
    .unwrap();
    assert_eq!(entry.group, Group::PeopleAndBody);
    assert_eq!(entry.subgroup, "hand-fingers-open");
    assert_eq!(entry.emoji, "\u{1F44B}\u{1F3FB}");
    assert_eq!(entry.name, "waving hand: light skin tone");
    assert_eq!(
        parse_entry(Group::Flags, String::new(), "no separator at all"),
        Err(ErrorKind::MalformedLine)
    );
    assert_eq!(
        parse_entry(Group::Flags, String::new(), "1F44C ; fully-qualified # \u{1F44B} E1.0 waving hand"),
        Err(ErrorKind::EmojiMismatch)
    );
}

#[test]
fn address_of_the_registry() {
    assert_eq!(unicode_url(), "https://unicode.org/Public/17.0.0/emoji/emoji-test.txt");
}
