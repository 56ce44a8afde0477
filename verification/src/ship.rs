use vstd::prelude::*;

use crate::errors::Errcode;
use crate::galaxy::SpaceCoord;

verus! {

/// Identifier of a ship.
pub type ShipId = u64;

/// Whether two positions are the same.
pub fn same_position(a: &SpaceCoord, b: &SpaceCoord) -> (r: bool)
    ensures
        r == (*a == *b),
{
    a.0 == b.0 && a.1 == b.1 && a.2 == b.2
}

/// A travel order: where the ship is to go.
#[derive(Debug, Clone, Copy)]
pub struct Travel {
    pub destination: SpaceCoord,
}

impl Travel {
    /// Whether a ship at `start` can be sent on this travel: it cannot when it is at the
    /// destination already, since the travel would cover no distance.
    pub fn check_distance(&self, start: &SpaceCoord) -> (r: Result<(), Errcode>)
        ensures
            r is Err <==> self.destination == *start,
            r matches Err(e) ==> e == Errcode::NullDistance,
    {
        if same_position(&self.destination, start) {
            Err(Errcode::NullDistance)
        } else {
            Ok(())
        }
    }
}

} // verus!
