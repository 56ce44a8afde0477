use vstd::prelude::*;

use crate::galaxy::StationId;
use crate::player::PlayerId;
use crate::ship::ShipId;

verus! {

/// Why a request of a player was refused.
#[derive(Debug, Clone, PartialEq, Eq)]
pub enum Errcode {
    /// The player owns no station of that id.
    NoSuchStation(StationId),
    /// The player owns no ship of that id, or the shipyard sells none.
    ShipNotFound(ShipId),
    /// The ship is not at the station where the request was made.
    ShipNotInStation,
    /// The player cannot pay the price.
    NotEnoughMoney,
    /// A player of that name exists already, under that id.
    PlayerAlreadyExists(PlayerId, String),
    /// No player has that id.
    PlayerNotFound(PlayerId),
    /// A travel to the position the ship is at already.
    NullDistance,
    /// An argument of the request could not be read; names which one.
    InvalidArgument(&'static str),
}

} // verus!
