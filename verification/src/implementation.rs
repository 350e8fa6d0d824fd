//! The key table of an enum: one arm for each variant, in declaration order.

use vstd::prelude::*;

verus! {

/// One arm of the dispatch: a variant and the key it maps to.
#[derive(Debug, Clone, PartialEq, Eq)]
pub struct Arm {
    pub variant: String,
    pub key: String,
}

/// The mathematical value of an [`Arm`].
pub struct ArmView {
    pub variant: Seq<char>,
    pub key: Seq<char>,
}

impl View for Arm {
    type V = ArmView;

    open spec fn view(&self) -> ArmView {
        ArmView { variant: self.variant@, key: self.key@ }
    }
}

/// The mathematical values of a list of arms, in order.
pub open spec fn arm_views(arms: Seq<Arm>) -> Seq<ArmView> {
    Seq::new(arms.len(), |i: int| arms[i]@)
}

/// The implementation made for an enum: its name and its arms.
#[derive(Debug, Clone, PartialEq, Eq)]
pub struct Implementation {
    pub name: String,
    pub arms: Vec<Arm>,
}

/// The mathematical value of an [`Implementation`].
pub struct ImplementationView {
    pub name: Seq<char>,
    pub arms: Seq<ArmView>,
}

impl View for Implementation {
    type V = ImplementationView;

    open spec fn view(&self) -> ImplementationView {
        ImplementationView { name: self.name@, arms: arm_views(self.arms@) }
    }
}

impl ImplementationView {
    /// The key of the variant at position `variant`, if there is such a
    /// variant.
    pub open spec fn key(self, variant: int) -> Option<Seq<char>> {
        if 0 <= variant < self.arms.len() {
            Some(self.arms[variant].key)
        } else {
            None
        }
    }
}

impl Implementation {
    /// The key of the variant at position `variant` in the declaration, or
    /// `None` when the enum has no variant there.
    pub fn key(&self, variant: usize) -> (key: Option<&str>)
        ensures
            match key {
                Some(text) => self@.key(variant as int) == Some(text@),
                None => self@.key(variant as int).is_none(),
            },
    {
        if variant < self.arms.len() {
            Some(self.arms[variant].key.as_str())
        } else {
            None
        }
    }
}

} // verus!
