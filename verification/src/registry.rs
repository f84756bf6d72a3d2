//! The parser for the text of the emoji registry.

use vstd::prelude::*;
use vstd::slice::slice_subrange;
use vstd::string::StringExecFns;
use crate::github::{dotted, push_dotted};
use crate::number::{read_i16, read_u32, signed_value, unsigned_value};
use crate::text::{
    find, has_prefix, lemma_find, position, same_text, split_at_first, split_once, starts_with,
    to_chars, to_text, trim, trimmed, CharClass,
};
use crate::{
    entry_views, Entry, EntryView, Error, ErrorKind, Failure, Group, OwnedEntry, Status, Version,
};

verus! {

/// The major number of the version of Unicode whose registry is read.
pub const VERSION_MAJOR: usize = 17;

/// The minor number of the version of Unicode whose registry is read.
pub const VERSION_MINOR: usize = 0;

/// The patch number of the version of Unicode whose registry is read.
pub const VERSION_PATCH: usize = 0;

/// The address of the registry in the version that this library reads.
pub open spec fn unicode_url_text() -> Seq<char> {
    "https://unicode.org/Public/"@ + dotted(
        VERSION_MAJOR as nat,
        VERSION_MINOR as nat,
        VERSION_PATCH as nat,
    ) + "/emoji/emoji-test.txt"@
}

/// The address of the registry in the version that this library reads.
pub fn unicode_url() -> (r: String)
    ensures
        r@ == unicode_url_text(),
{
    let mut url = String::from_str("https://unicode.org/Public/");
    push_dotted(&mut url, VERSION_MAJOR, VERSION_MINOR, VERSION_PATCH);
    url.append("/emoji/emoji-test.txt");
    url
}

/// `char::from_u32` gives the character with the scalar value `i`, and none
/// where `i` is a surrogate or lies above `0x10FFFF`.
pub assume_specification[ char::from_u32 ](i: u32) -> (r: Option<char>)
    ensures
        r == scalar_char(i as nat),
;

/// The character with the scalar value `v`, where there is one.
pub open spec fn scalar_char(v: nat) -> Option<char> {
    if v <= 0xd7ff || 0xe000 <= v <= 0x10ffff {
        Some(v as char)
    } else {
        None
    }
}

/// The status that the keyword `s` names.
pub open spec fn status_of(s: Seq<char>) -> Option<Status> {
    if s == Status::FullyQualified.keyword() {
        Some(Status::FullyQualified)
    } else if s == Status::MinimallyQualified.keyword() {
        Some(Status::MinimallyQualified)
    } else if s == Status::Unqualified.keyword() {
        Some(Status::Unqualified)
    } else if s == Status::Component.keyword() {
        Some(Status::Component)
    } else {
        None
    }
}

/// Computes `status_of`.
pub fn read_status(s: &[char]) -> (r: Option<Status>)
    ensures
        r == status_of(s@),
{
    if same_text(s, to_chars(Status::FullyQualified.as_str()).as_slice()) {
        Some(Status::FullyQualified)
    } else if same_text(s, to_chars(Status::MinimallyQualified.as_str()).as_slice()) {
        Some(Status::MinimallyQualified)
    } else if same_text(s, to_chars(Status::Unqualified.as_str()).as_slice()) {
        Some(Status::Unqualified)
    } else if same_text(s, to_chars(Status::Component.as_str()).as_slice()) {
        Some(Status::Component)
    } else {
        None
    }
}

/// Reads the status keyword of a data line: `UnknownStatus` unless `s` is one
/// of the four keywords.
pub fn parse_status(s: &str) -> (r: Result<Status, ErrorKind>)
    ensures
        r == match status_of(s@) {
            Some(status) => Ok::<Status, ErrorKind>(status),
            None => Err(ErrorKind::UnknownStatus),
        },
{
    match read_status(to_chars(s).as_slice()) {
        Some(status) => Ok(status),
        None => Err(ErrorKind::UnknownStatus),
    }
}

/// The version that `s` writes as `<major>.<minor>`, each part a decimal
/// number of sixteen bits with an optional sign.
pub open spec fn version_of(s: Seq<char>) -> Option<Version> {
    match split_once(s, CharClass::Exactly('.')) {
        None => None,
        Some((major, minor)) => match signed_value(major, -32768, 32767) {
            None => None,
            Some(a) => match signed_value(minor, -32768, 32767) {
                None => None,
                Some(b) => Some(Version { major: a as i16, minor: b as i16 }),
            },
        },
    }
}

/// Computes `version_of`.
pub fn read_version(s: &[char]) -> (r: Option<Version>)
    ensures
        r == version_of(s@),
{
    match split_at_first(s, CharClass::Exactly('.')) {
        None => None,
        Some((major, minor)) => match read_i16(major) {
            None => None,
            Some(a) => match read_i16(minor) {
                None => None,
                Some(b) => Some(Version { major: a, minor: b }),
            },
        },
    }
}

/// The version that `s` writes as `E<major>.<minor>`.
pub open spec fn unicode_version_of(s: Seq<char>) -> Option<Version> {
    if s.len() > 0 && s[0] == 'E' {
        version_of(s.drop_first())
    } else {
        None
    }
}

/// Computes `unicode_version_of`.
pub fn read_unicode_version(s: &[char]) -> (r: Option<Version>)
    ensures
        r == unicode_version_of(s@),
{
    if s.len() > 0 && s[0] == 'E' {
        read_version(slice_subrange(s, 1, s.len()))
    } else {
        None
    }
}

/// Reads the version token of a data line: `InvalidVersion` unless `s` is
/// `E<major>.<minor>`.
pub fn parse_unicode_version(s: &str) -> (r: Result<Version, ErrorKind>)
    ensures
        r == match unicode_version_of(s@) {
            Some(version) => Ok::<Version, ErrorKind>(version),
            None => Err(ErrorKind::InvalidVersion),
        },
{
    match read_unicode_version(to_chars(s).as_slice()) {
        Some(version) => Ok(version),
        None => Err(ErrorKind::InvalidVersion),
    }
}

/// The character that the hexadecimal token `token` names: `MalformedLine`
/// where it is no number of 32 bits, `InvalidScalarValue` where that number
/// is no character.
pub open spec fn scalar_of(token: Seq<char>) -> Result<char, ErrorKind> {
    match unsigned_value(token, 16, 0xffff_ffff) {
        None => Err(ErrorKind::MalformedLine),
        Some(v) => match scalar_char(v) {
            None => Err(ErrorKind::InvalidScalarValue),
            Some(c) => Ok(c),
        },
    }
}

/// Computes `scalar_of`.
pub fn read_scalar(token: &[char]) -> (r: Result<char, ErrorKind>)
    ensures
        r == scalar_of(token@),
{
    match read_u32(token, 16) {
        None => Err(ErrorKind::MalformedLine),
        Some(v) => match char::from_u32(v) {
            None => Err(ErrorKind::InvalidScalarValue),
            Some(c) => Ok(c),
        },
    }
}

/// `head` before the characters of `rest`, or the failure of `rest`.
pub open spec fn prepend(head: Seq<char>, rest: Result<Seq<char>, ErrorKind>) -> Result<
    Seq<char>,
    ErrorKind,
> {
    match rest {
        Ok(tail) => Ok(head + tail),
        Err(kind) => Err(kind),
    }
}

/// The characters that the tokens of `s` name, in order. The tokens are the
/// runs of `s` between its ASCII whitespace; the first token that names no
/// character decides the failure.
pub open spec fn code_points(s: Seq<char>) -> Result<Seq<char>, ErrorKind>
    decreases s.len(),
{
    if s.len() == 0 {
        Ok(Seq::empty())
    } else if CharClass::AsciiWhitespace.has(s[0]) {
        code_points(s.drop_first())
    } else {
        let n = find(s, CharClass::AsciiWhitespace) as int;
        proof {
            lemma_find(s, CharClass::AsciiWhitespace);
        }
        match scalar_of(s.take(n)) {
            Err(kind) => Err(kind),
            Ok(c) => prepend(seq![c], code_points(s.skip(n))),
        }
    }
}

/// Computes `code_points`.
pub fn read_code_points(s: &[char]) -> (r: Result<Vec<char>, ErrorKind>)
    ensures
        match r {
            Ok(v) => code_points(s@) == Ok::<Seq<char>, ErrorKind>(v@),
            Err(kind) => code_points(s@) == Err::<Seq<char>, ErrorKind>(kind),
        },
{
    let n = s.len();
    let mut out: Vec<char> = Vec::new();
    let mut i: usize = 0;
    assert(s@.skip(0) == s@);
    assert(prepend(out@, code_points(s@)) == code_points(s@)) by {
        match code_points(s@) {
            Ok(tail) => {
                assert(out@ + tail == tail);
            },
            Err(_) => {},
        }
    }
    while i < n
        invariant
            n == s.len(),
            i <= n,
            code_points(s@) == prepend(out@, code_points(s@.skip(i as int))),
        decreases n - i,
    {
        let ghost here = s@.skip(i as int);
        if CharClass::AsciiWhitespace.contains(s[i]) {
            assert(here.drop_first() == s@.skip(i + 1));
            i += 1;
        } else {
            let rest = slice_subrange(s, i, n);
            let len = position(rest, CharClass::AsciiWhitespace);
            proof {
                lemma_find(here, CharClass::AsciiWhitespace);
            }
            assert(rest@ == here);
            assert(len >= 1);
            let token = slice_subrange(rest, 0, len);
            assert(token@ == here.take(len as int));
            assert(here.skip(len as int) == s@.skip(i + len));
            match read_scalar(token) {
                Err(kind) => {
                    return Err(kind);
                },
                Ok(c) => {
                    let ghost before = out@;
                    out.push(c);
                    assert(prepend(before, prepend(seq![c], code_points(s@.skip(i + len))))
                        == prepend(out@, code_points(s@.skip(i + len)))) by {
                        match code_points(s@.skip(i + len)) {
                            Ok(tail) => {
                                assert(before + (seq![c] + tail) == before.push(c) + tail);
                            },
                            Err(_) => {},
                        }
                    }
                },
            }
            i += len;
        }
    }
    assert(s@.skip(i as int).len() == 0);
    assert(out@ + Seq::<char>::empty() == out@);
    Ok(out)
}

/// Reads the code points of a data line and gives the characters they name.
pub fn parse_code_points(s: &str) -> (r: Result<Vec<char>, ErrorKind>)
    ensures
        match r {
            Ok(v) => code_points(s@) == Ok::<Seq<char>, ErrorKind>(v@),
            Err(kind) => code_points(s@) == Err::<Seq<char>, ErrorKind>(kind),
        },
{
    read_code_points(to_chars(s).as_slice())
}

/// The group with the canonical name `s`.
pub open spec fn group_of(s: Seq<char>) -> Option<Group> {
    if s == Group::SmileysAndEmotion.name() {
        Some(Group::SmileysAndEmotion)
    } else if s == Group::PeopleAndBody.name() {
        Some(Group::PeopleAndBody)
    } else if s == Group::AnimalsAndNature.name() {
        Some(Group::AnimalsAndNature)
    } else if s == Group::FoodAndDrink.name() {
        Some(Group::FoodAndDrink)
    } else if s == Group::TravelAndPlaces.name() {
        Some(Group::TravelAndPlaces)
    } else if s == Group::Activities.name() {
        Some(Group::Activities)
    } else if s == Group::Objects.name() {
        Some(Group::Objects)
    } else if s == Group::Symbols.name() {
        Some(Group::Symbols)
    } else if s == Group::Flags.name() {
        Some(Group::Flags)
    } else if s == Group::Component.name() {
        Some(Group::Component)
    } else {
        None
    }
}

/// Whether `s` is the canonical name of `group`.
fn names(s: &[char], group: Group) -> (r: bool)
    ensures
        r == (s@ == group.name()),
{
    same_text(s, to_chars(group.as_str()).as_slice())
}

/// Computes `group_of`.
pub fn read_group(s: &[char]) -> (r: Option<Group>)
    ensures
        r == group_of(s@),
{
    if names(s, Group::SmileysAndEmotion) {
        Some(Group::SmileysAndEmotion)
    } else if names(s, Group::PeopleAndBody) {
        Some(Group::PeopleAndBody)
    } else if names(s, Group::AnimalsAndNature) {
        Some(Group::AnimalsAndNature)
    } else if names(s, Group::FoodAndDrink) {
        Some(Group::FoodAndDrink)
    } else if names(s, Group::TravelAndPlaces) {
        Some(Group::TravelAndPlaces)
    } else if names(s, Group::Activities) {
        Some(Group::Activities)
    } else if names(s, Group::Objects) {
        Some(Group::Objects)
    } else if names(s, Group::Symbols) {
        Some(Group::Symbols)
    } else if names(s, Group::Flags) {
        Some(Group::Flags)
    } else if names(s, Group::Component) {
        Some(Group::Component)
    } else {
        None
    }
}

/// The three fields of the text after the `#` of a data line: the emoji and
/// the version token, each ended by one whitespace character, and the name,
/// which is all the rest.
pub open spec fn fields(s: Seq<char>) -> Option<(Seq<char>, Seq<char>, Seq<char>)> {
    match split_once(s, CharClass::Whitespace) {
        None => None,
        Some((emoji, rest)) => match split_once(rest, CharClass::Whitespace) {
            None => None,
            Some((version, name)) => Some((emoji, version, name)),
        },
    }
}

/// The entry that the data line `line` writes under `group` and `subgroup`.
///
/// The line is `<code points>;<status>#<emoji> <version> <name>`. It is
/// malformed without its `;`, its `#` or one of the three fields; its code
/// points must spell its emoji; its status and its version must be valid.
/// The first of these that fails, in this order, decides the failure.
pub open spec fn entry_of_line(group: Group, subgroup: Seq<char>, line: Seq<char>) -> Result<
    EntryView,
    ErrorKind,
> {
    match split_once(line, CharClass::Exactly(';')) {
        None => Err(ErrorKind::MalformedLine),
        Some((points, rest)) => match split_once(rest, CharClass::Exactly('#')) {
            None => Err(ErrorKind::MalformedLine),
            Some((status, rest)) => match fields(trim(rest)) {
                None => Err(ErrorKind::MalformedLine),
                Some((emoji, version, name)) => match code_points(points) {
                    Err(kind) => Err(kind),
                    Ok(spelled) => if spelled != emoji {
                        Err(ErrorKind::EmojiMismatch)
                    } else {
                        match status_of(trim(status)) {
                            None => Err(ErrorKind::UnknownStatus),
                            Some(status) => match unicode_version_of(version) {
                                None => Err(ErrorKind::InvalidVersion),
                                Some(unicode_version) => Ok(
                                    EntryView {
                                        group,
                                        subgroup,
                                        status,
                                        unicode_version,
                                        emoji,
                                        name,
                                        ios_version: None,
                                        tags: Seq::empty(),
                                        aliases: Seq::empty(),
                                    },
                                ),
                            },
                        }
                    },
                },
            },
        },
    }
}

/// Computes `entry_of_line`.
pub fn read_entry(group: Group, subgroup: String, line: &[char]) -> (r: Result<
    OwnedEntry,
    ErrorKind,
>)
    ensures
        match r {
            Ok(entry) => entry_of_line(group, subgroup@, line@) == Ok::<EntryView, ErrorKind>(
                entry@,
            ),
            Err(kind) => entry_of_line(group, subgroup@, line@) == Err::<EntryView, ErrorKind>(
                kind,
            ),
        },
{
    let (points, rest) = match split_at_first(line, CharClass::Exactly(';')) {
        None => { return Err(ErrorKind::MalformedLine); },
        Some(parts) => parts,
    };
    let (status, rest) = match split_at_first(rest, CharClass::Exactly('#')) {
        None => { return Err(ErrorKind::MalformedLine); },
        Some(parts) => parts,
    };
    let (emoji, rest) = match split_at_first(trimmed(rest), CharClass::Whitespace) {
        None => { return Err(ErrorKind::MalformedLine); },
        Some(parts) => parts,
    };
    let (version, name) = match split_at_first(rest, CharClass::Whitespace) {
        None => { return Err(ErrorKind::MalformedLine); },
        Some(parts) => parts,
    };
    let spelled = match read_code_points(points) {
        Err(kind) => { return Err(kind); },
        Ok(spelled) => spelled,
    };
    if !same_text(spelled.as_slice(), emoji) {
        return Err(ErrorKind::EmojiMismatch);
    }
    let status = match read_status(trimmed(status)) {
        None => { return Err(ErrorKind::UnknownStatus); },
        Some(status) => status,
    };
    let unicode_version = match read_unicode_version(version) {
        None => { return Err(ErrorKind::InvalidVersion); },
        Some(version) => version,
    };
    let entry = Entry {
        group,
        subgroup,
        status,
        unicode_version,
        emoji: to_text(emoji),
        name: to_text(name),
        ios_version: None,
        tags: Vec::new(),
        aliases: Vec::new(),
    };
    assert(entry@.tags == Seq::<Seq<char>>::empty());
    assert(entry@.aliases == Seq::<Seq<char>>::empty());
    Ok(entry)
}

/// Reads one data line of the registry under the group and subgroup in force.
///
/// The emoji of the entry is the text that the code points of the line
/// spell: a line that spells another text is refused with `EmojiMismatch`.
pub fn parse_entry(group: Group, subgroup: String, line: &str) -> (r: Result<OwnedEntry, ErrorKind>)
    ensures
        match r {
            Ok(entry) => {
                &&& entry_of_line(group, subgroup@, line@) == Ok::<EntryView, ErrorKind>(entry@)
                &&& exists|points: Seq<char>| code_points(points) == Ok::<Seq<char>, ErrorKind>(
                    entry@.emoji,
                ) && has_prefix(line@, points)
            },
            Err(kind) => entry_of_line(group, subgroup@, line@) == Err::<EntryView, ErrorKind>(
                kind,
            ),
        },
{
    let r = read_entry(group, subgroup, to_chars(line).as_slice());
    proof {
        if r is Ok {
            lemma_entry_spelled(group, subgroup@, line@);
        }
    }
    r
}

/// The emoji of an entry is the text that the code points of its line, the
/// part before the first `;`, spell.
pub proof fn lemma_entry_spelled(group: Group, subgroup: Seq<char>, line: Seq<char>)
    requires
        entry_of_line(group, subgroup, line) is Ok,
    ensures
        exists|points: Seq<char>|
            code_points(points) == Ok::<Seq<char>, ErrorKind>(
                entry_of_line(group, subgroup, line)->Ok_0.emoji,
            ) && has_prefix(line, points),
{
    let i = find(line, CharClass::Exactly(';')) as int;
    lemma_find(line, CharClass::Exactly(';'));
    let points = line.take(i);
    assert(split_once(line, CharClass::Exactly(';'))->Some_0.0 == points);
    assert(code_points(points) == Ok::<Seq<char>, ErrorKind>(
        entry_of_line(group, subgroup, line)->Ok_0.emoji,
    ));
    assert(has_prefix(line, points));
}

/// What the parser has seen so far: the group and subgroup headers in force,
/// each empty until one was seen, and the entries read.
pub struct Progress {
    pub group: Seq<char>,
    pub subgroup: Seq<char>,
    pub entries: Seq<EntryView>,
}

/// `line` without the carriage return at its end, where it has one.
pub open spec fn without_return(line: Seq<char>) -> Seq<char> {
    if line.len() > 0 && line.last() == '\r' {
        line.drop_last()
    } else {
        line
    }
}

/// The headers in force after the comment line `line`.
pub open spec fn after_comment(seen: Progress, line: Seq<char>) -> Progress {
    if has_prefix(line, "# group: "@) {
        Progress { group: trim(line.skip("# group: "@.len() as int)), ..seen }
    } else if has_prefix(line, "# subgroup: "@) {
        Progress { subgroup: trim(line.skip("# subgroup: "@.len() as int)), ..seen }
    } else {
        seen
    }
}

/// The entry of the data line `line` under the headers `group` and
/// `subgroup`: it needs a group and a subgroup in force, the group must be a
/// known one, and the line must write an entry. A failure carries the line.
pub open spec fn data_line(group: Seq<char>, subgroup: Seq<char>, line: Seq<char>) -> Result<
    EntryView,
    Failure,
> {
    if group.len() == 0 {
        Err(Failure { kind: ErrorKind::MissingGroup, context: line })
    } else if subgroup.len() == 0 {
        Err(Failure { kind: ErrorKind::MissingSubgroup, context: line })
    } else {
        match group_of(group) {
            None => Err(Failure { kind: ErrorKind::UnknownGroup, context: line }),
            Some(g) => match entry_of_line(g, subgroup, line) {
                Err(kind) => Err(Failure { kind, context: line }),
                Ok(entry) => Ok(entry),
            },
        }
    }
}

/// The state after one line. An empty line changes nothing, a line that
/// begins with `#` at most the headers in force, and any other line is a
/// data line, whose entry is added.
pub open spec fn after_line(seen: Progress, line: Seq<char>) -> Result<Progress, Failure> {
    if line.len() == 0 {
        Ok(seen)
    } else if line[0] == '#' {
        Ok(after_comment(seen, line))
    } else {
        match data_line(seen.group, seen.subgroup, line) {
            Err(failure) => Err(failure),
            Ok(entry) => Ok(Progress { entries: seen.entries.push(entry), ..seen }),
        }
    }
}

/// The state after the lines of `text`, or the failure of the first line
/// that fails. A line ends at a line feed, and a carriage return just before
/// that line feed is no part of the line; the last line ends with the text.
#[verifier::opaque]
pub open spec fn after_text(seen: Progress, text: Seq<char>) -> Result<Progress, Failure>
    decreases text.len(),
{
    if text.len() == 0 {
        Ok(seen)
    } else {
        let n = find(text, CharClass::Exactly('\n')) as int;
        if n < text.len() {
            match after_line(seen, without_return(text.take(n))) {
                Err(failure) => Err(failure),
                Ok(next) => after_text(next, text.skip(n + 1)),
            }
        } else {
            after_line(seen, text)
        }
    }
}

/// The entries that the registry text `text` writes, in the order of its
/// lines, or the failure of its first line that fails.
pub open spec fn registry_entries(text: Seq<char>) -> Result<Seq<EntryView>, Failure> {
    let start = Progress { group: Seq::empty(), subgroup: Seq::empty(), entries: Seq::empty() };
    match after_text(start, text) {
        Err(failure) => Err(failure),
        Ok(seen) => Ok(seen.entries),
    }
}

/// The failure `kind` at the line `line`.
fn failure_at(kind: ErrorKind, line: &[char]) -> (e: Error)
    ensures
        e@ == (Failure { kind, context: line@ }),
{
    Error { kind, context: to_text(line) }
}

/// Computes `data_line`.
fn read_data_line(group: &[char], subgroup: &[char], line: &[char]) -> (r: Result<
    OwnedEntry,
    Error,
>)
    ensures
        match r {
            Ok(entry) => data_line(group@, subgroup@, line@) == Ok::<EntryView, Failure>(entry@),
            Err(e) => data_line(group@, subgroup@, line@) == Err::<EntryView, Failure>(e@),
        },
{
    if group.len() == 0 {
        return Err(failure_at(ErrorKind::MissingGroup, line));
    }
    if subgroup.len() == 0 {
        return Err(failure_at(ErrorKind::MissingSubgroup, line));
    }
    match read_group(group) {
        None => Err(failure_at(ErrorKind::UnknownGroup, line)),
        Some(g) => match read_entry(g, to_text(subgroup), line) {
            Err(kind) => Err(failure_at(kind, line)),
            Ok(entry) => Ok(entry),
        },
    }
}

/// The headers in force after the comment line `line`.
fn read_comment<'a>(
    group: &'a [char],
    subgroup: &'a [char],
    line: &'a [char],
    Ghost(entries): Ghost<Seq<EntryView>>,
) -> (r: (&'a [char], &'a [char]))
    ensures
        after_comment(Progress { group: group@, subgroup: subgroup@, entries }, line@) == (Progress {
            group: r.0@,
            subgroup: r.1@,
            entries,
        }),
{
    let group_prefix = to_chars("# group: ");
    let subgroup_prefix = to_chars("# subgroup: ");
    if starts_with(line, group_prefix.as_slice()) {
        (trimmed(slice_subrange(line, group_prefix.len(), line.len())), subgroup)
    } else if starts_with(line, subgroup_prefix.as_slice()) {
        (group, trimmed(slice_subrange(line, subgroup_prefix.len(), line.len())))
    } else {
        (group, subgroup)
    }
}

/// The first line of `text` from the index `from`, and the index at which
/// the next line begins.
fn first_line<'a>(text: &'a [char], from: usize, Ghost(seen): Ghost<Progress>) -> (r: (
    &'a [char],
    usize,
))
    requires
        from < text.len(),
    ensures
        from < r.1 <= text.len(),
        after_text(seen, text@.skip(from as int)) == match after_line(seen, r.0@) {
            Err(failure) => Err::<Progress, Failure>(failure),
            Ok(next) => after_text(next, text@.skip(r.1 as int)),
        },
{
    let n = text.len();
    let rest = slice_subrange(text, from, n);
    let len = position(rest, CharClass::Exactly('\n'));
    assert(rest@ == text@.skip(from as int));
    reveal(after_text);
    if len < rest.len() {
        let line = if len > 0 && rest[len - 1] == '\r' {
            slice_subrange(rest, 0, len - 1)
        } else {
            slice_subrange(rest, 0, len)
        };
        assert(rest@.take(len as int).len() == len);
        assert(line@ == without_return(rest@.take(len as int)));
        assert(rest@.skip(len + 1) == text@.skip(from + len + 1));
        (line, from + len + 1)
    } else {
        assert(text@.skip(n as int).len() == 0);
        proof {
            match after_line(seen, rest@) {
                Err(_) => {},
                Ok(next) => {
                    assert(after_text(next, text@.skip(n as int)) == Ok::<Progress, Failure>(
                        next,
                    ));
                },
            }
        }
        (rest, n)
    }
}

/// Reads the line of `text` that begins at `from`: gives the index at which
/// the next line begins and the headers in force there, and adds the entry
/// of a data line to `entries`.
fn read_line<'a>(
    text: &'a [char],
    from: usize,
    group: &'a [char],
    subgroup: &'a [char],
    entries: &mut Vec<OwnedEntry>,
) -> (r: Result<(usize, &'a [char], &'a [char]), Error>)
    requires
        from < text.len(),
    ensures
        match r {
            Ok((next, g, s)) => {
                &&& from < next <= text.len()
                &&& after_text(
                    Progress {
                        group: group@,
                        subgroup: subgroup@,
                        entries: entry_views(old(entries)@),
                    },
                    text@.skip(from as int),
                ) == after_text(
                    Progress { group: g@, subgroup: s@, entries: entry_views(final(entries)@) },
                    text@.skip(next as int),
                )
            },
            Err(e) => after_text(
                Progress { group: group@, subgroup: subgroup@, entries: entry_views(old(entries)@) },
                text@.skip(from as int),
            ) == Err::<Progress, Failure>(e@),
        },
{
    let ghost seen = Progress {
        group: group@,
        subgroup: subgroup@,
        entries: entry_views(entries@),
    };
    let (line, next) = first_line(text, from, Ghost(seen));
    if line.len() == 0 {
        Ok((next, group, subgroup))
    } else if line[0] == '#' {
        let headers = read_comment(group, subgroup, line, Ghost(seen.entries));
        Ok((next, headers.0, headers.1))
    } else {
        match read_data_line(group, subgroup, line) {
            Err(e) => Err(e),
            Ok(entry) => {
                entries.push(entry);
                assert(entry_views(entries@) == seen.entries.push(entry@));
                Ok((next, group, subgroup))
            },
        }
    }
}

/// Reads the registry text line by line, keeping the group and subgroup
/// headers in force from line to line.
pub fn parse_emoji_data(data: &str) -> (r: Result<Vec<OwnedEntry>, Error>)
    ensures
        match r {
            Ok(entries) => registry_entries(data@) == Ok::<Seq<EntryView>, Failure>(
                entry_views(entries@),
            ),
            Err(e) => registry_entries(data@) == Err::<Seq<EntryView>, Failure>(e@),
        },
{
    let chars = to_chars(data);
    let text = chars.as_slice();
    let n = text.len();
    let mut entries: Vec<OwnedEntry> = Vec::new();
    let mut group: &[char] = slice_subrange(text, 0, 0);
    let mut subgroup: &[char] = slice_subrange(text, 0, 0);
    let mut i: usize = 0;
    let ghost start = Progress {
        group: Seq::empty(),
        subgroup: Seq::empty(),
        entries: Seq::empty(),
    };
    assert(text@.skip(0) == text@);
    assert(group@ == Seq::<char>::empty());
    assert(subgroup@ == Seq::<char>::empty());
    assert(entry_views(entries@) == Seq::<EntryView>::empty());
    while i < n
        invariant
            n == text.len(),
            text@ == data@,
            start == (Progress { group: Seq::empty(), subgroup: Seq::empty(), entries: Seq::empty() }),
            i <= n,
            after_text(start, text@) == after_text(
                Progress { group: group@, subgroup: subgroup@, entries: entry_views(entries@) },
                text@.skip(i as int),
            ),
        decreases n - i,
    {
        match read_line(text, i, group, subgroup, &mut entries) {
            Err(e) => {
                return Err(e);
            },
            Ok((next, g, s)) => {
                i = next;
                group = g;
                subgroup = s;
            },
        }
    }
    proof {
        reveal(after_text);
    }
    assert(text@.skip(i as int).len() == 0);
    Ok(entries)
}

/// Reads the text of the emoji registry.
///
/// Gives the entries of its data lines in their order, each under the group
/// and the subgroup of the headers before it, or the failure of the first
/// line that fails, with that line as its context.
pub fn parse_data(data: &str) -> (r: Result<Vec<OwnedEntry>, Error>)
    ensures
        match r {
            Ok(entries) => registry_entries(data@) == Ok::<Seq<EntryView>, Failure>(
                entry_views(entries@),
            ),
            Err(e) => registry_entries(data@) == Err::<Seq<EntryView>, Failure>(e@),
        },
{
    parse_emoji_data(data)
}

/// Whether some code points spell the emoji of `entry`.
pub open spec fn is_spelled(entry: EntryView) -> bool {
    exists|points: Seq<char>| code_points(points) == Ok::<Seq<char>, ErrorKind>(entry.emoji)
}

/// Every entry that the lines of a text add is spelled by code points, where
/// those read before are.
proof fn lemma_after_text_spelled(seen: Progress, text: Seq<char>)
    requires
        forall|i: int| 0 <= i < seen.entries.len() ==> is_spelled(#[trigger] seen.entries[i]),
        after_text(seen, text) is Ok,
    ensures
        forall|i: int|
            0 <= i < after_text(seen, text)->Ok_0.entries.len() ==> is_spelled(
                #[trigger] after_text(seen, text)->Ok_0.entries[i],
            ),
    decreases text.len(),
{
    reveal(after_text);
    if text.len() > 0 {
        let n = find(text, CharClass::Exactly('\n')) as int;
        let line = if n < text.len() {
            without_return(text.take(n))
        } else {
            text
        };
        let next = after_line(seen, line)->Ok_0;
        assert forall|i: int| 0 <= i < next.entries.len() implies is_spelled(
            #[trigger] next.entries[i],
        ) by {
            if i < seen.entries.len() {
                assert(next.entries[i] == seen.entries[i]);
            } else {
                let group = group_of(seen.group)->Some_0;
                lemma_entry_spelled(group, seen.subgroup, line);
            }
        }
        if n < text.len() {
            lemma_after_text_spelled(next, text.skip(n + 1));
        }
    }
}

/// The emoji of every entry of a registry is the text that the code points
/// of its line spell.
pub proof fn lemma_entries_spelled(text: Seq<char>)
    requires
        registry_entries(text) is Ok,
    ensures
        forall|i: int|
            0 <= i < registry_entries(text)->Ok_0.len() ==> is_spelled(
                #[trigger] registry_entries(text)->Ok_0[i],
            ),
{
    let start = Progress { group: Seq::empty(), subgroup: Seq::empty(), entries: Seq::empty() };
    lemma_after_text_spelled(start, text);
}

} // verus!
