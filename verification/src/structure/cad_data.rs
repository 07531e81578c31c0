//! The scene container wrapping a finished assembly tree.

use vstd::prelude::*;

use crate::structure::tree::Tree;
use crate::units::Length;

verus! {

/// The central in-memory data-structure for loaded CAD data.
pub struct CADData {
    /// The assembly structure of the CAD data.
    tree: Tree,
    /// The length unit in which all spatial coordinates are defined.
    length_unit: Length,
}

impl CADData {
    /// The stored assembly tree.
    pub closed spec fn spec_assembly(&self) -> Tree {
        self.tree
    }

    /// The stored length unit.
    pub closed spec fn spec_length_unit(&self) -> Length {
        self.length_unit
    }

    /// Creates and returns a new CAD data object with meters as its unit.
    pub fn new(tree: Tree) -> (r: Self)
        ensures
            r.spec_assembly() == tree,
            r.spec_length_unit().in_nanometers == 1_000_000_000u64,
    {
        Self { tree, length_unit: Length::meter() }
    }

    /// Returns a reference onto the assembly structure of the CAD data.
    pub fn get_assembly(&self) -> (r: &Tree)
        ensures
            *r == self.spec_assembly(),
    {
        &self.tree
    }

    /// Returns the unit for lengths.
    pub fn get_length_unit(&self) -> (r: Length)
        ensures
            r == self.spec_length_unit(),
    {
        self.length_unit
    }

    /// Changes the unit for lengths to a new one.
    pub fn change_length_unit(&mut self, length_unit: Length)
        ensures
            final(self).spec_assembly() == old(self).spec_assembly(),
            final(self).spec_length_unit() == length_unit,
    {
        self.length_unit = length_unit;
    }
}

} // verus!
