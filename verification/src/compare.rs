//! `==` and `<` on versions, by precedence, and `==` on their parts and on releases.

use crate::precedence::identifier_same;
use crate::release::Release;
use crate::version::{Identifier, Prerelease, Version};
use core::cmp::Ordering;
use vstd::prelude::*;
use vstd::std_specs::cmp::{PartialEqSpecImpl, PartialOrdSpecImpl};

verus! {

impl PartialEq for Identifier {
    fn eq(&self, other: &Identifier) -> (r: bool) {
        identifier_same(self, other)
    }
}

impl PartialEqSpecImpl for Identifier {
    open spec fn obeys_eq_spec() -> bool {
        true
    }

    open spec fn eq_spec(&self, other: &Identifier) -> bool {
        self@ == other@
    }
}

impl Eq for Identifier {

}

impl PartialEq for Prerelease {
    fn eq(&self, other: &Prerelease) -> (r: bool) {
        self.same(other)
    }
}

impl PartialEqSpecImpl for Prerelease {
    open spec fn obeys_eq_spec() -> bool {
        true
    }

    open spec fn eq_spec(&self, other: &Prerelease) -> bool {
        self@ == other@
    }
}

impl Eq for Prerelease {

}

impl PartialEq for Version {
    /// Two versions are equal when they have the same precedence: build
    /// metadata is not looked at.
    fn eq(&self, other: &Version) -> (r: bool) {
        self.same_precedence(other)
    }
}

impl PartialEqSpecImpl for Version {
    open spec fn obeys_eq_spec() -> bool {
        true
    }

    open spec fn eq_spec(&self, other: &Version) -> bool {
        self@.same_precedence(other@)
    }
}

impl Eq for Version {

}

impl PartialOrd for Version {
    /// Every two versions are ordered, by precedence.
    fn partial_cmp(&self, other: &Version) -> (r: Option<Ordering>) {
        if self.precedes(other) {
            Some(Ordering::Less)
        } else if other.precedes(self) {
            Some(Ordering::Greater)
        } else {
            Some(Ordering::Equal)
        }
    }
}

impl PartialOrdSpecImpl for Version {
    open spec fn obeys_partial_cmp_spec() -> bool {
        true
    }

    open spec fn partial_cmp_spec(&self, other: &Version) -> Option<Ordering> {
        if self@.precedes(other@) {
            Some(Ordering::Less)
        } else if other@.precedes(self@) {
            Some(Ordering::Greater)
        } else {
            Some(Ordering::Equal)
        }
    }
}

impl PartialEq for Release {
    /// Two releases are equal when their versions are equal and their links
    /// are the same.
    fn eq(&self, other: &Release) -> (r: bool) {
        self.version.same_precedence(&other.version) && self.link == other.link
    }
}

impl PartialEqSpecImpl for Release {
    open spec fn obeys_eq_spec() -> bool {
        true
    }

    open spec fn eq_spec(&self, other: &Release) -> bool {
        self.version@.same_precedence(other.version@) && self.link@ == other.link@
    }
}

impl Eq for Release {

}

} // verus!
