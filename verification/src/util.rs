//! Names of types as the table writes them, and the names of cached files.

use vstd::prelude::*;
use vstd::string::StringSliceAdditionalSpecFns;
use crate::text::{find, lemma_find, position, to_chars, CharClass};
use crate::{Emoji, Entry, Group, SkinTone, Status, Version};
use sha2::{Digest, Sha256};

verus! {

/// A type that can say how it is written in full: its path and, where it
/// has any, its generic arguments in angle brackets.
pub trait Named {
    /// The type as it is written in full.
    spec fn written() -> Seq<char>;

    /// The type as it is written in full.
    fn full_name() -> (r: &'static str)
        ensures
            r@ == Self::written(),
    ;
}

/// The part of the type description `full` before its generic arguments:
/// all that stands before the first `<`.
pub open spec fn before_generics(full: Seq<char>) -> Seq<char> {
    full.take(find(full, CharClass::Exactly('<')) as int)
}

/// The index of the last `::` in `s`.
pub open spec fn last_separator(s: Seq<char>) -> Option<int>
    decreases s.len(),
{
    if s.len() < 2 {
        None
    } else if s[s.len() - 2] == ':' && s[s.len() - 1] == ':' {
        Some(s.len() - 2)
    } else {
        last_separator(s.drop_last())
    }
}

/// The name of the type described by `full`: what stands behind the last
/// `::` before the generic arguments, or all of that part without a `::`.
pub open spec fn type_segment(full: Seq<char>) -> Seq<char> {
    let path = before_generics(full);
    match last_separator(path) {
        Some(i) => path.skip(i + 2),
        None => path,
    }
}

/// The path of the module of the type described by `full`: what stands
/// before the last `::` before the generic arguments, or nothing without a
/// `::`.
pub open spec fn type_package(full: Seq<char>) -> Seq<char> {
    let path = before_generics(full);
    match last_separator(path) {
        Some(i) => path.take(i),
        None => Seq::empty(),
    }
}

/// Computes `last_separator` for the first `end` characters of `s`.
fn find_last_separator(s: &[char], end: usize) -> (r: Option<usize>)
    requires
        end <= s.len(),
    ensures
        match r {
            Some(i) => last_separator(s@.take(end as int)) == Some(i as int) && i + 2 <= end,
            None => last_separator(s@.take(end as int)) is None,
        },
{
    let ghost path = s@.take(end as int);
    let mut k: usize = end;
    assert(path.take(k as int) == path);
    while k >= 2
        invariant
            k <= end <= s.len(),
            path == s@.take(end as int),
            last_separator(path) == last_separator(path.take(k as int)),
        decreases k,
    {
        if s[k - 2] == ':' && s[k - 1] == ':' {
            return Some(k - 2);
        }
        assert(path.take(k as int).drop_last() == path.take(k - 1));
        k -= 1;
    }
    None
}

/// The name of the type that `full` describes.
pub fn segment_of<'a>(full: &'a str) -> (r: &'a str)
    ensures
        r@ == type_segment(full@),
{
    let chars = to_chars(full);
    let end = position(chars.as_slice(), CharClass::Exactly('<'));
    proof {
        lemma_find(full@, CharClass::Exactly('<'));
    }
    match find_last_separator(chars.as_slice(), end) {
        Some(i) => {
            assert(full@.subrange(i + 2, end as int) == before_generics(full@).skip(i + 2));
            full.substring_char(i + 2, end)
        },
        None => {
            assert(full@.subrange(0, end as int) == before_generics(full@));
            full.substring_char(0, end)
        },
    }
}

/// The path of the module of the type that `full` describes.
pub fn package_of<'a>(full: &'a str) -> (r: &'a str)
    ensures
        r@ == type_package(full@),
{
    let chars = to_chars(full);
    let end = position(chars.as_slice(), CharClass::Exactly('<'));
    proof {
        lemma_find(full@, CharClass::Exactly('<'));
    }
    match find_last_separator(chars.as_slice(), end) {
        Some(i) => {
            assert(full@.subrange(0, i as int) == before_generics(full@).take(i as int));
            full.substring_char(0, i)
        },
        None => {
            assert(full@.subrange(0, 0) == Seq::<char>::empty());
            full.substring_char(0, 0)
        },
    }
}

/// The name of the type `T`, without its path and its generic arguments.
pub fn struct_name<T: Named>() -> (r: String)
    ensures
        r@ == type_segment(T::written()),
{
    segment_of(T::full_name()).to_owned()
}

/// The path of the module that defines the type `T`; empty for a type
/// without a path.
pub fn struct_package<T: Named>() -> (r: &'static str)
    ensures
        r@ == type_package(T::written()),
{
    package_of(T::full_name())
}

impl Named for i32 {
    open spec fn written() -> Seq<char> {
        "i32"@
    }

    fn full_name() -> (r: &'static str) {
        "i32"
    }
}

impl Named for u64 {
    open spec fn written() -> Seq<char> {
        "u64"@
    }

    fn full_name() -> (r: &'static str) {
        "u64"
    }
}

impl Named for bool {
    open spec fn written() -> Seq<char> {
        "bool"@
    }

    fn full_name() -> (r: &'static str) {
        "bool"
    }
}

impl Named for Group {
    open spec fn written() -> Seq<char> {
        "unicode_types::Group"@
    }

    fn full_name() -> (r: &'static str) {
        "unicode_types::Group"
    }
}

impl Named for Status {
    open spec fn written() -> Seq<char> {
        "unicode_types::Status"@
    }

    fn full_name() -> (r: &'static str) {
        "unicode_types::Status"
    }
}

impl Named for SkinTone {
    open spec fn written() -> Seq<char> {
        "unicode_types::SkinTone"@
    }

    fn full_name() -> (r: &'static str) {
        "unicode_types::SkinTone"
    }
}

impl Named for Version {
    open spec fn written() -> Seq<char> {
        "unicode_types::Version"@
    }

    fn full_name() -> (r: &'static str) {
        "unicode_types::Version"
    }
}

impl Named for Entry<String, Vec<String>> {
    open spec fn written() -> Seq<char> {
        "unicode_types::Entry<alloc::string::String, alloc::vec::Vec<alloc::string::String>>"@
    }

    fn full_name() -> (r: &'static str) {
        "unicode_types::Entry<alloc::string::String, alloc::vec::Vec<alloc::string::String>>"
    }
}

impl Named for Emoji<String, Vec<String>> {
    open spec fn written() -> Seq<char> {
        "unicode_types::Emoji<alloc::string::String, alloc::vec::Vec<alloc::string::String>>"@
    }

    fn full_name() -> (r: &'static str) {
        "unicode_types::Emoji<alloc::string::String, alloc::vec::Vec<alloc::string::String>>"
    }
}

/// The SHA-256 digest of `data`, as `Sha256::digest` of the crate `sha2`
/// computes it.
pub uninterp spec fn sha256(data: Seq<u8>) -> Seq<u8>;

/// `Sha256::digest` of the crate `sha2` hashes the bytes handed to it. The
/// contract gives the digest the name `sha256` and claims only that it
/// depends on nothing but those bytes.
#[verifier::external_body]
fn digest(data: &[u8]) -> (out: Vec<u8>)
    ensures
        out@ == sha256(data@),
{
    Sha256::digest(data).to_vec()
}

/// The character that writes the hexadecimal digit `d` in lower case.
pub open spec fn hex_digit(d: int) -> char {
    if d < 10 {
        (48 + d) as char
    } else {
        (87 + d) as char
    }
}

/// `data` in hexadecimal: for each byte its high and its low digit, in lower
/// case.
pub open spec fn hex_lower(data: Seq<u8>) -> Seq<char> {
    Seq::new(
        2 * data.len(),
        |i: int|
            if i % 2 == 0 {
                hex_digit(data[i / 2] as int / 16)
            } else {
                hex_digit(data[i / 2] as int % 16)
            },
    )
}

/// `hex::encode` of the crate `hex` writes each byte as two hexadecimal
/// digits in lower case, the high digit first, and nothing else.
#[verifier::external_body]
fn hex_encode(data: &[u8]) -> (s: String)
    ensures
        s@ == hex_lower(data@),
{
    hex::encode(data)
}

/// The key under which the document at `url` is cached: the SHA-256 digest
/// of the bytes of `url`, in hexadecimal.
pub open spec fn cache_key_of(url: &str) -> Seq<char> {
    hex_lower(sha256(url.spec_bytes()))
}

/// The key under which the document at `url` is cached.
pub fn cache_key(url: &str) -> (r: String)
    ensures
        r@ == cache_key_of(url),
{
    let hash = digest(url.as_bytes());
    hex_encode(hash.as_slice())
}

/// The name of the file that caches the document at `url`: its key and the
/// extension `.txt`.
pub fn cache_file_name(url: &str) -> (r: String)
    ensures
        r@ == cache_key_of(url) + ".txt"@,
{
    let mut name = cache_key(url);
    name.append(".txt");
    name
}

} // verus!
