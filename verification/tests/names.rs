use unicode_types::util::{cache_file_name, cache_key, package_of, segment_of, struct_name, struct_package};
use unicode_types::{Group, OwnedEmoji, OwnedEntry, SkinTone, Status, Version};

#[test]
fn test_struct_name_empty_case() {
    assert_eq!(struct_name::<i32>(), "i32");
    assert_eq!(struct_name::<u64>(), "u64");
    assert_eq!(struct_name::<bool>(), "bool");
    assert_eq!(struct_name::<Group>(), "Group");
}

#[test]
fn test_struct_package_no_module() {
    assert_eq!(struct_package::<i32>(), "");
    assert_eq!(struct_package::<Group>(), "unicode_types");
}

#[test]
fn names_of_the_other_types() {
    assert_eq!(struct_name::<OwnedEmoji>(), "Emoji");
    assert_eq!(struct_name::<OwnedEntry>(), "Entry");
    assert_eq!(struct_name::<SkinTone>(), "SkinTone");
    assert_eq!(struct_name::<Status>(), "Status");
    assert_eq!(struct_name::<Version>(), "Version");
    assert_eq!(struct_package::<OwnedEmoji>(), "unicode_types");
}

#[test]
fn segment_and_package_of_a_description() {
    assert_eq!(segment_of("a::b::C<d::E>"), "C");
    assert_eq!(package_of("a::b::C<d::E>"), "a::b");
    assert_eq!(segment_of("plain"), "plain");
    assert_eq!(package_of("plain"), "");
    assert_eq!(segment_of("a:::b"), "b");
    assert_eq!(package_of("a:::b"), "a:");
    assert_eq!(segment_of(""), "");
    assert_eq!(package_of("<a::b>"), "");
    assert_eq!(segment_of("x::"), "");
    assert_eq!(package_of("x::"), "x");
}

#[test]
fn cache_key_is_the_digest_in_hexadecimal() {
    assert_eq!(
        cache_key("abc"),
        "ba7816bf8f01cfea414140de5dae2223b00361a396177a9cb410ff61f20015ad"
    );
    assert_eq!(
        cache_key(""),
        "e3b0c44298fc1c149afbf4c8996fb92427ae41e4649b934ca495991b7852b855"
    );
    assert_eq!(
        cache_file_name("abc"),
        "ba7816bf8f01cfea414140de5dae2223b00361a396177a9cb410ff61f20015ad.txt"
    );
}
