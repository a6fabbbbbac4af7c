//! What a Nessie catalog server reports: references, merges and conflicts.

use vstd::prelude::*;

use crate::text::DeepClone;

verus! {

/// A reference and the commit it points at.
#[derive(Clone, Debug, PartialEq, Eq)]
pub struct ReferenceInfo {
    pub name: String,
    pub hash: String,
}

/// The contents of a [`ReferenceInfo`].
pub struct ReferenceInfoView {
    pub name: Seq<char>,
    pub hash: Seq<char>,
}

impl DeepView for ReferenceInfo {
    type V = ReferenceInfoView;

    open spec fn deep_view(&self) -> ReferenceInfoView {
        ReferenceInfoView {
            name: self.name@,
            hash: self.hash@,
        }
    }
}

impl DeepClone for ReferenceInfo {
    fn deep_clone(&self) -> (copy: Self) {
        ReferenceInfo {
            name: self.name.deep_clone(),
            hash: self.hash.deep_clone(),
        }
    }
}

impl ReferenceInfo {
    /// A branch at a commit.
    pub fn branch(name: &str, hash: &str) -> (r: Self)
        ensures
            r.name@ == name@,
            r.hash@ == hash@,
    {
        ReferenceInfo { name: name.to_owned(), hash: hash.to_owned() }
    }
}

/// Something that keeps two branches from merging.
#[derive(Clone, Debug, PartialEq, Eq)]
pub struct Conflict {
    pub path: String,
    pub message: String,
}

/// The contents of a [`Conflict`].
pub struct ConflictView {
    pub path: Seq<char>,
    pub message: Seq<char>,
}

impl DeepView for Conflict {
    type V = ConflictView;

    open spec fn deep_view(&self) -> ConflictView {
        ConflictView {
            path: self.path@,
            message: self.message@,
        }
    }
}

impl DeepClone for Conflict {
    fn deep_clone(&self) -> (copy: Self) {
        Conflict {
            path: self.path.deep_clone(),
            message: self.message.deep_clone(),
        }
    }
}

/// What a merge, or a check for one, came to.
#[derive(Clone, Debug, PartialEq, Eq)]
pub struct MergeOutcome {
    /// The target's commit after the merge, where one is known.
    pub hash: Option<String>,
    pub conflicts: Vec<Conflict>,
}

/// The contents of a [`MergeOutcome`].
pub struct MergeOutcomeView {
    pub hash: Option<Seq<char>>,
    pub conflicts: Seq<ConflictView>,
}

impl DeepView for MergeOutcome {
    type V = MergeOutcomeView;

    open spec fn deep_view(&self) -> MergeOutcomeView {
        MergeOutcomeView {
            hash: self.hash.deep_view(),
            conflicts: self.conflicts.deep_view(),
        }
    }
}

impl DeepClone for MergeOutcome {
    fn deep_clone(&self) -> (copy: Self) {
        MergeOutcome {
            hash: self.hash.deep_clone(),
            conflicts: self.conflicts.deep_clone(),
        }
    }
}

impl MergeOutcome {
    /// Nothing stands in the way of the merge.
    pub fn is_clean(&self) -> (r: bool)
        ensures
            r == (self.deep_view().conflicts.len() == 0),
    {
        assert(self.conflicts.deep_view().len() == self.conflicts@.len());
        self.conflicts.len() == 0
    }
}

} // verus!
