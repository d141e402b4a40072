//! The direction of a position.

use vstd::prelude::*;

verus! {

#[derive(Debug, Clone, Copy, PartialEq, Eq, Structural)]
pub enum Side {
    Long,
    Short,
    /// No direction.
    Flat,
}

impl Side {
    /// The lower-case name of a side.
    pub open spec fn spec_name(side: Side) -> Seq<char> {
        match side {
            Side::Long => "long"@,
            Side::Short => "short"@,
            Side::Flat => "none"@,
        }
    }

    pub fn to_string(side: &Self) -> (r: &'static str)
        ensures
            r@ == Self::spec_name(*side),
    {
        match side {
            Side::Long => "long",
            Side::Short => "short",
            Side::Flat => "none",
        }
    }
}

} // verus!
