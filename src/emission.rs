//! Taxonomy of emission events: the kind of light source, held in the
//! taxonomy byte of an event word. Codes not listed are reserved.
use vstd::prelude::*;

verus! {

#[derive(Clone, Copy, Debug, PartialEq, Eq, Structural)]
pub enum Emission {
    PointSource,
    Laser,
}

impl Emission {
    pub open spec fn spec_code(self) -> u8 {
        match self {
            Emission::PointSource => 0,
            Emission::Laser => 1,
        }
    }

    pub open spec fn spec_from_code(c: u8) -> Option<Emission> {
        if c == 0 {
            Some(Emission::PointSource)
        } else if c == 1 {
            Some(Emission::Laser)
        } else {
            None
        }
    }

    /// Taxonomy byte of this emission kind.
    pub fn code(self) -> (r: u8)
        ensures
            r == self.spec_code(),
    {
        match self {
            Emission::PointSource => 0,
            Emission::Laser => 1,
        }
    }

    pub fn from_code(c: u8) -> (r: Option<Emission>)
        ensures
            r == Self::spec_from_code(c),
    {
        if c == 0 {
            Some(Emission::PointSource)
        } else if c == 1 {
            Some(Emission::Laser)
        } else {
            None
        }
    }
}

} // verus!
