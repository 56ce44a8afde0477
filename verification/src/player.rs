use std::collections::BTreeMap;
use std::hash::{DefaultHasher, Hasher};
use base64::Engine;
use vstd::prelude::*;
use vstd::std_specs::hash::DefaultHasherAdditionalSpecFns;

use crate::errors::Errcode;
use crate::galaxy::{SpaceCoord, StationId};
use crate::module::{install_module, next_module_id, ShipModule, ShipModuleId, ShipModuleType};
use crate::ship::{same_position, ShipId};

verus! {

/// Identifier of a player.
pub type PlayerId = u16;

/// The secret key that authenticates a player.
pub type PlayerKey = [u8; 128];

/// The identifier given to a player whose name hashes to `h`.
pub open spec fn id_from_hash(h: u64) -> PlayerId {
    (h % 0xffff) as PlayerId
}

/// A player's identifier is its name's hash modulo `u16::MAX`: hashes that differ by a
/// multiple of `u16::MAX` give the same identifier, and every identifier below `u16::MAX`
/// is reached.
pub proof fn lemma_id_is_hash_mod_u16_max(h: u64)
    ensures
        id_from_hash(h) as int == h as int % (u16::MAX as int),
        h < u16::MAX ==> id_from_hash(h) == h,
        h as int + u16::MAX as int <= u64::MAX as int ==> id_from_hash((h + u16::MAX) as u64) == id_from_hash(h),
{
    vstd::arithmetic::div_mod::lemma_mod_add_multiples_vanish(h as int, u16::MAX as int);
}

/// The hash of a name: one write of its UTF-8 bytes into a fresh `DefaultHasher`.
pub open spec fn name_hash(name: Seq<char>) -> u64 {
    DefaultHasher::spec_finish(seq![vstd::utf8::encode_utf8(name)])
}

/// The identifier of a player whose name hashes to `h`: `h` modulo `u16::MAX`.
pub fn player_id_from_hash(h: u64) -> (id: PlayerId)
    ensures
        id == id_from_hash(h),
        id as int == h as int % 0xffff,
        id < 0xffff,
{
    (h % 0xffff) as PlayerId
}

/// The identifier of a new player named `name`, derived from a hash of the name.
pub fn player_id_for_name(name: &str) -> (id: PlayerId)
    ensures
        id == id_from_hash(name_hash(name@)),
{
    let mut hasher = DefaultHasher::new();
    hasher.write(name.as_bytes());
    let h = hasher.finish();
    player_id_from_hash(h)
}

/// Two players with the same name get the same identifier.
pub proof fn lemma_same_name_same_id(a: Seq<char>, b: Seq<char>)
    requires
        a == b,
    ensures
        id_from_hash(name_hash(a)) == id_from_hash(name_hash(b)),
{
}

/// `rand::fill`: fills the key with bytes from the thread-local generator. Nothing is
/// stated of the bytes.
#[verifier::external_body]
fn random_key() -> (key: PlayerKey) {
    let mut key = [0u8; 128];
    rand::fill(&mut key[..]);
    key
}

/// A fresh random key for a new player.
pub fn new_player_key() -> (key: PlayerKey)
    ensures
        key@.len() == 128,
{
    random_key()
}

/// The standard Base64 encoding (alphabet `A-Za-z0-9+/`, with `=` padding) of `bytes`.
pub uninterp spec fn base64_standard(bytes: Seq<u8>) -> Seq<char>;

/// `base64::engine::general_purpose::STANDARD.encode`: the result is the standard padded
/// encoding of the bytes, four characters for each started group of three bytes.
#[verifier::external_body]
fn base64_encode(bytes: &[u8]) -> (s: String)
    ensures
        s@ == base64_standard(bytes@),
        s@.len() == 4 * ((bytes@.len() + 2) / 3),
{
    base64::prelude::BASE64_STANDARD.encode(bytes)
}

/// The text form of a player key, as handed to the player: its standard Base64 encoding,
/// 172 characters long.
pub fn encode_player_key(key: &PlayerKey) -> (s: String)
    ensures
        s@ == base64_standard(key@),
        s@.len() == 172,
{
    base64_encode(key.as_slice())
}

/// Whether two player keys are the same.
pub fn keys_match(a: &PlayerKey, b: &PlayerKey) -> (r: bool)
    ensures
        r == (a@ == b@),
{
    let mut i: usize = 0;
    while i < 128
        invariant
            i <= 128,
            a@.len() == 128,
            b@.len() == 128,
            forall|j: int| 0 <= j < i ==> a@[j] == b@[j],
        decreases 128 - i,
    {
        if a[i] != b[i] {
            return false;
        }
        i = i + 1;
    }
    assert(a@ =~= b@);
    true
}

/// The stations of a new player: the one it starts with.
pub fn initial_stations(station: (StationId, SpaceCoord)) -> (m: BTreeMap<StationId, SpaceCoord>)
    ensures
        m@ == map![station.0 => station.1],
{
    broadcast use vstd::std_specs::btree::group_btree_axioms;
    let mut m = BTreeMap::new();
    m.insert(station.0, station.1);
    m
}

/// The index of the first entry of `players` named `name`.
pub open spec fn is_first_named(players: Seq<(PlayerId, String)>, name: Seq<char>, i: int) -> bool {
    &&& 0 <= i < players.len()
    &&& players[i].1@ == name
    &&& forall|j: int| 0 <= j < i ==> (#[trigger] players[j]).1@ != name
}

/// Refuses a new player whose name is taken: `players` lists the identifier and name of
/// each player, and the error names the first one found with that name.
pub fn check_new_player_name(players: &Vec<(PlayerId, String)>, name: &String) -> (r: Result<(), Errcode>)
    ensures
        r is Ok <==> forall|j: int| 0 <= j < players@.len() ==> (#[trigger] players@[j]).1@ != name@,
        r matches Err(e) ==> exists|i: int| #[trigger] is_first_named(players@, name@, i)
            && (e matches Errcode::PlayerAlreadyExists(pid, n) && pid == players@[i].0 && n@ == name@),
{
    let mut i: usize = 0;
    while i < players.len()
        invariant
            i <= players.len(),
            forall|j: int| 0 <= j < i ==> (#[trigger] players@[j]).1@ != name@,
        decreases players.len() - i,
    {
        if players[i].1 == *name {
            assert(is_first_named(players@, name@, i as int));
            return Err(Errcode::PlayerAlreadyExists(players[i].0, name.clone()));
        }
        i = i + 1;
    }
    Ok(())
}

/// Why a player cannot buy a module of a ship at a station, checked in this order: the
/// player owns no station `station_id`; no ship `ship_id` (whose position is
/// `ship_position`, `None` when the player has no such ship); the ship is not at the
/// station; the player cannot pay (`can_pay`). `None` when the purchase can go ahead.
pub open spec fn module_purchase_refusal(
    stations: Map<StationId, SpaceCoord>,
    station_id: StationId,
    ship_id: ShipId,
    ship_position: Option<SpaceCoord>,
    can_pay: bool,
) -> Option<Errcode> {
    if !stations.contains_key(station_id) {
        Some(Errcode::NoSuchStation(station_id))
    } else if ship_position is None {
        Some(Errcode::ShipNotFound(ship_id))
    } else if stations[station_id] != ship_position->0 {
        Some(Errcode::ShipNotInStation)
    } else if !can_pay {
        Some(Errcode::NotEnoughMoney)
    } else {
        None
    }
}

/// Checks that a player can buy a module for its ship `ship_id` at its station
/// `station_id` (see [`module_purchase_refusal`]).
pub fn check_module_purchase(
    stations: &BTreeMap<StationId, SpaceCoord>,
    station_id: StationId,
    ship_id: ShipId,
    ship_position: Option<SpaceCoord>,
    can_pay: bool,
) -> (r: Result<(), Errcode>)
    ensures
        match module_purchase_refusal(stations@, station_id, ship_id, ship_position, can_pay) {
            Some(e) => r == Err::<(), Errcode>(e),
            None => r is Ok,
        },
{
    broadcast use vstd::std_specs::btree::group_btree_axioms;
    let station = match stations.get(&station_id) {
        Some(s) => s,
        None => return Err(Errcode::NoSuchStation(station_id)),
    };
    let pos = match ship_position {
        Some(p) => p,
        None => return Err(Errcode::ShipNotFound(ship_id)),
    };
    if !same_position(station, &pos) {
        return Err(Errcode::ShipNotInStation);
    }
    if !can_pay {
        return Err(Errcode::NotEnoughMoney);
    }
    Ok(())
}

/// The purchase of a module of type `modtype` for a ship whose modules are `modules`:
/// checked as [`check_module_purchase`] does, and on success installed, its identifier
/// returned. On a refusal the modules are left as they were.
pub fn buy_ship_module(
    stations: &BTreeMap<StationId, SpaceCoord>,
    station_id: StationId,
    ship_id: ShipId,
    ship_position: Option<SpaceCoord>,
    modules: &mut BTreeMap<ShipModuleId, ShipModule>,
    modtype: ShipModuleType,
    can_pay: bool,
) -> (r: Result<ShipModuleId, Errcode>)
    ensures
        match module_purchase_refusal(stations@, station_id, ship_id, ship_position, can_pay) {
            Some(e) => r == Err::<ShipModuleId, Errcode>(e) && final(modules)@ == old(modules)@,
            None => r == Ok::<ShipModuleId, Errcode>(next_module_id(old(modules)@.len()))
                && final(modules)@ == old(modules)@.insert(
                    next_module_id(old(modules)@.len()),
                    ShipModule { operator: None, modtype },
                ),
        },
{
    match check_module_purchase(stations, station_id, ship_id, ship_position, can_pay) {
        Err(e) => Err(e),
        Ok(()) => Ok(install_module(modules, modtype)),
    }
}

/// The index of the ship `id` among the ships for sale at a shipyard, listed by id: the
/// last one of that id when several are.
pub fn find_shipyard_ship(ids: &Vec<ShipId>, id: ShipId) -> (r: Option<usize>)
    ensures
        match r {
            Some(i) => i < ids@.len() && ids@[i as int] == id
                && forall|j: int| i < j < ids@.len() ==> ids@[j] != id,
            None => forall|j: int| 0 <= j < ids@.len() ==> ids@[j] != id,
        },
{
    let mut found: Option<usize> = None;
    let mut n: usize = 0;
    while n < ids.len()
        invariant
            n <= ids.len(),
            match found {
                Some(i) => i < n && ids@[i as int] == id && forall|j: int| i < j < n ==> ids@[j] != id,
                None => forall|j: int| 0 <= j < n ==> ids@[j] != id,
            },
        decreases ids.len() - n,
    {
        if ids[n] == id {
            found = Some(n);
        }
        n = n + 1;
    }
    found
}

} // verus!
