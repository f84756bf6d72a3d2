//! The versions and groups that texts name.

use vstd::prelude::*;
use vstd::std_specs::convert::TryFromSpecImpl;
use crate::registry::{group_of, read_group, read_version, status_of, version_of};
use crate::text::to_chars;
use crate::{ErrorKind, Group, Status, Version};

verus! {

impl TryFrom<&str> for Version {
    type Error = ErrorKind;

    /// The version that `s` writes as `<major>.<minor>`; `InvalidVersion`
    /// where it writes none.
    fn try_from(s: &str) -> (r: Result<Version, ErrorKind>) {
        match read_version(to_chars(s).as_slice()) {
            Some(version) => Ok(version),
            None => Err(ErrorKind::InvalidVersion),
        }
    }
}

impl TryFromSpecImpl<&str> for Version {
    open spec fn obeys_try_from_spec() -> bool {
        true
    }

    open spec fn try_from_spec(s: &str) -> Result<Version, ErrorKind> {
        match version_of(s@) {
            Some(version) => Ok(version),
            None => Err(ErrorKind::InvalidVersion),
        }
    }
}

impl TryFrom<String> for Version {
    type Error = ErrorKind;

    /// The version that `s` writes as `<major>.<minor>`; `InvalidVersion`
    /// where it writes none.
    fn try_from(s: String) -> (r: Result<Version, ErrorKind>) {
        match read_version(to_chars(s.as_str()).as_slice()) {
            Some(version) => Ok(version),
            None => Err(ErrorKind::InvalidVersion),
        }
    }
}

impl TryFromSpecImpl<String> for Version {
    open spec fn obeys_try_from_spec() -> bool {
        true
    }

    open spec fn try_from_spec(s: String) -> Result<Version, ErrorKind> {
        match version_of(s@) {
            Some(version) => Ok(version),
            None => Err(ErrorKind::InvalidVersion),
        }
    }
}

impl TryFrom<&str> for Group {
    type Error = ErrorKind;

    /// The group with the canonical name `s`; `UnknownGroup` where there is
    /// none.
    fn try_from(s: &str) -> (r: Result<Group, ErrorKind>) {
        match read_group(to_chars(s).as_slice()) {
            Some(group) => Ok(group),
            None => Err(ErrorKind::UnknownGroup),
        }
    }
}

impl TryFromSpecImpl<&str> for Group {
    open spec fn obeys_try_from_spec() -> bool {
        true
    }

    open spec fn try_from_spec(s: &str) -> Result<Group, ErrorKind> {
        match group_of(s@) {
            Some(group) => Ok(group),
            None => Err(ErrorKind::UnknownGroup),
        }
    }
}

impl TryFrom<String> for Group {
    type Error = ErrorKind;

    /// The group with the canonical name `s`; `UnknownGroup` where there is
    /// none.
    fn try_from(s: String) -> (r: Result<Group, ErrorKind>) {
        match read_group(to_chars(s.as_str()).as_slice()) {
            Some(group) => Ok(group),
            None => Err(ErrorKind::UnknownGroup),
        }
    }
}

impl TryFromSpecImpl<String> for Group {
    open spec fn obeys_try_from_spec() -> bool {
        true
    }

    open spec fn try_from_spec(s: String) -> Result<Group, ErrorKind> {
        match group_of(s@) {
            Some(group) => Ok(group),
            None => Err(ErrorKind::UnknownGroup),
        }
    }
}

/// Reading the canonical name of a group gives that group back.
pub proof fn lemma_group_round_trip(group: Group)
    ensures
        group_of(group.name()) == Some(group),
{
    reveal_strlit("Smileys & Emotion");
    reveal_strlit("People & Body");
    reveal_strlit("Animals & Nature");
    reveal_strlit("Food & Drink");
    reveal_strlit("Travel & Places");
    reveal_strlit("Activities");
    reveal_strlit("Objects");
    reveal_strlit("Symbols");
    reveal_strlit("Flags");
    reveal_strlit("Component");
    let a = Group::SmileysAndEmotion.name();
    let b = Group::PeopleAndBody.name();
    let c = Group::AnimalsAndNature.name();
    let d = Group::FoodAndDrink.name();
    let e = Group::TravelAndPlaces.name();
    let f = Group::Activities.name();
    let g = Group::Objects.name();
    let h = Group::Symbols.name();
    let i = Group::Flags.name();
    let j = Group::Component.name();
    assert(a.len() == 17 && a[0] == 'S');
    assert(b.len() == 13 && b[0] == 'P');
    assert(c.len() == 16);
    assert(d.len() == 12);
    assert(e.len() == 15);
    assert(f.len() == 10);
    assert(g.len() == 7 && g[0] == 'O');
    assert(h.len() == 7 && h[0] == 'S');
    assert(i.len() == 5);
    assert(j.len() == 9);
}

/// Reading the keyword of a status gives that status back.
pub proof fn lemma_status_round_trip(status: Status)
    ensures
        status_of(status.keyword()) == Some(status),
{
    reveal_strlit("fully-qualified");
    reveal_strlit("minimally-qualified");
    reveal_strlit("unqualified");
    reveal_strlit("component");
    assert(Status::FullyQualified.keyword().len() == 15);
    assert(Status::MinimallyQualified.keyword().len() == 19);
    assert(Status::Unqualified.keyword().len() == 11);
    assert(Status::Component.keyword().len() == 9);
}

} // verus!
