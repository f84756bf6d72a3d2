//! The order of the groups and of the skin tones: that of their declaration.

use vstd::prelude::*;
use vstd::std_specs::cmp::PartialOrdSpecImpl;
use core::cmp::Ordering;
use crate::{Group, SkinTone, Version};

verus! {

impl Group {
    /// The place of the group in the order of the groups, from 0.
    pub open spec fn rank(self) -> nat {
        match self {
            Group::SmileysAndEmotion => 0,
            Group::PeopleAndBody => 1,
            Group::AnimalsAndNature => 2,
            Group::FoodAndDrink => 3,
            Group::TravelAndPlaces => 4,
            Group::Activities => 5,
            Group::Objects => 6,
            Group::Symbols => 7,
            Group::Flags => 8,
            Group::Component => 9,
        }
    }

    /// Computes `rank`.
    pub fn order(&self) -> (r: u8)
        ensures
            r == self.rank(),
    {
        match self {
            Group::SmileysAndEmotion => 0u8,
            Group::PeopleAndBody => 1u8,
            Group::AnimalsAndNature => 2u8,
            Group::FoodAndDrink => 3u8,
            Group::TravelAndPlaces => 4u8,
            Group::Activities => 5u8,
            Group::Objects => 6u8,
            Group::Symbols => 7u8,
            Group::Flags => 8u8,
            Group::Component => 9u8,
        }
    }
}

/// How the number `a` stands to the number `b`.
pub open spec fn compared(a: nat, b: nat) -> Ordering {
    if a < b {
        Ordering::Less
    } else if a == b {
        Ordering::Equal
    } else {
        Ordering::Greater
    }
}

/// Computes `compared`.
fn compare(a: u8, b: u8) -> (r: Ordering)
    ensures
        a < b ==> r == Ordering::Less,
        a == b ==> r == Ordering::Equal,
        a > b ==> r == Ordering::Greater,
{
    if a < b {
        Ordering::Less
    } else if a == b {
        Ordering::Equal
    } else {
        Ordering::Greater
    }
}

impl PartialOrd for SkinTone {
    /// The tones are ordered by their rank.
    fn partial_cmp(&self, other: &SkinTone) -> (r: Option<Ordering>) {
        Some(compare(self.order(), other.order()))
    }
}

impl PartialOrdSpecImpl for SkinTone {
    open spec fn obeys_partial_cmp_spec() -> bool {
        true
    }

    open spec fn partial_cmp_spec(&self, other: &SkinTone) -> Option<Ordering> {
        Some(compared(self.rank(), other.rank()))
    }
}

impl PartialOrd for Group {
    /// The groups are ordered by their rank.
    fn partial_cmp(&self, other: &Group) -> (r: Option<Ordering>) {
        Some(compare(self.order(), other.order()))
    }
}

impl PartialOrdSpecImpl for Group {
    open spec fn obeys_partial_cmp_spec() -> bool {
        true
    }

    open spec fn partial_cmp_spec(&self, other: &Group) -> Option<Ordering> {
        Some(compared(self.rank(), other.rank()))
    }
}

/// How the version `a` stands to the version `b`: by their major numbers,
/// and by their minor numbers where those are the same.
pub open spec fn compared_versions(a: Version, b: Version) -> Ordering {
    if a.major < b.major {
        Ordering::Less
    } else if a.major > b.major {
        Ordering::Greater
    } else if a.minor < b.minor {
        Ordering::Less
    } else if a.minor > b.minor {
        Ordering::Greater
    } else {
        Ordering::Equal
    }
}

impl PartialOrd for Version {
    /// The versions are ordered by major and then by minor number.
    fn partial_cmp(&self, other: &Version) -> (r: Option<Ordering>) {
        if self.major < other.major {
            Some(Ordering::Less)
        } else if self.major > other.major {
            Some(Ordering::Greater)
        } else if self.minor < other.minor {
            Some(Ordering::Less)
        } else if self.minor > other.minor {
            Some(Ordering::Greater)
        } else {
            Some(Ordering::Equal)
        }
    }
}

impl PartialOrdSpecImpl for Version {
    open spec fn obeys_partial_cmp_spec() -> bool {
        true
    }

    open spec fn partial_cmp_spec(&self, other: &Version) -> Option<Ordering> {
        Some(compared_versions(*self, *other))
    }
}

/// The order of the versions is total: of two versions one comes before the
/// other, or they are the same; and it is transitive.
pub proof fn lemma_versions_totally_ordered(a: Version, b: Version, c: Version)
    ensures
        compared_versions(a, b) == Ordering::Equal <==> a == b,
        compared_versions(a, b) == Ordering::Less <==> compared_versions(b, a) == Ordering::Greater,
        compared_versions(a, b) == Ordering::Less && compared_versions(b, c) == Ordering::Less
            ==> compared_versions(a, c) == Ordering::Less,
        compared_versions(a, b) == Ordering::Less <==> a.precedes(b),
{
}

} // verus!
