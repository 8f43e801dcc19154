//! Level of Traffic Stress classification of road and path segments from
//! their tags.

use vstd::prelude::*;

pub mod green_mazovia;
pub mod parse;
pub mod routes;
pub mod rules;
pub mod tags;
pub mod text;
pub mod trail;

pub use green_mazovia::green_mazovia;
pub use tags::Tags;

verus! {

/// The cycling comfort category of a segment.
///
/// The four stress levels run from the calmest (`LTS1`) to the most
/// stressful (`LTS4`). `NotAllowed` stands apart from that scale: cycling is
/// not permitted on the segment at all.
#[derive(Clone, Copy, Debug, PartialEq, Eq, Structural)]
pub enum LTS {
    NotAllowed,
    LTS1,
    LTS2,
    LTS3,
    LTS4,
}

impl LTS {
    /// The position on the stress scale: 1 to 4, and none for `NotAllowed`.
    pub open spec fn stress(self) -> Option<int> {
        match self {
            LTS::NotAllowed => None,
            LTS::LTS1 => Some(1),
            LTS::LTS2 => Some(2),
            LTS::LTS3 => Some(3),
            LTS::LTS4 => Some(4),
        }
    }

    /// Returns the position on the stress scale, 1 to 4, or `None` where
    /// cycling is not allowed.
    pub fn level(self) -> (r: Option<u8>)
        ensures
            match r {
                Some(n) => self.stress() == Some(n as int),
                None => self.stress() is None,
            },
    {
        match self {
            LTS::NotAllowed => None,
            LTS::LTS1 => Some(1),
            LTS::LTS2 => Some(2),
            LTS::LTS3 => Some(3),
            LTS::LTS4 => Some(4),
        }
    }
}

} // verus!
