use std::collections::BTreeMap;

use simeis::errors::Errcode;
use simeis::module::{ShipModule, ShipModuleType};
use simeis::player::{
    buy_ship_module, check_module_purchase, check_new_player_name, encode_player_key, find_shipyard_ship,
    initial_stations, keys_match, new_player_key, player_id_for_name, player_id_from_hash,
};

#[test]
fn player_id_is_hash_modulo_u16_max() {
    assert_eq!(player_id_from_hash(0), 0);
    assert_eq!(player_id_from_hash(65535), 0);
    assert_eq!(player_id_from_hash(65536), 1);
    assert_eq!(player_id_from_hash(u64::MAX), (u64::MAX % 65535) as u16);
}

#[test]
fn same_name_gives_same_id() {
    let a = player_id_for_name("alice");
    assert_eq!(a, player_id_for_name("alice"));
    assert!(a < u16::MAX);
}

#[test]
fn player_key_text_is_base64() {
    let key = [0u8; 128];
    let s = encode_player_key(&key);
    assert_eq!(s.len(), 172);
    assert_eq!(s, format!("{}=", "A".repeat(171)));
    let mut key2 = [0u8; 128];
    key2[0] = 0xff;
    assert!(encode_player_key(&key2).starts_with("/w"));
}

#[test]
fn fresh_keys_match_themselves() {
    let k = new_player_key();
    assert!(keys_match(&k, &k));
    let mut other = k;
    other[127] ^= 1;
    assert!(!keys_match(&k, &other));
}

#[test]
fn new_player_starts_with_one_station() {
    let m = initial_stations((7, (5, 3, 1)));
    assert_eq!(m.len(), 1);
    assert_eq!(m.get(&7), Some(&(5, 3, 1)));
}

#[test]
fn taken_names_are_refused() {
    let players = vec![(4u16, "bob".to_string()), (9u16, "carol".to_string()), (12u16, "bob".to_string())];
    assert_eq!(check_new_player_name(&players, &"dave".to_string()), Ok(()));
    assert_eq!(
        check_new_player_name(&players, &"bob".to_string()),
        Err(Errcode::PlayerAlreadyExists(4, "bob".to_string()))
    );
    assert_eq!(check_new_player_name(&vec![], &"bob".to_string()), Ok(()));
}

#[test]
fn module_purchase_checks_in_order() {
    let mut stations = BTreeMap::new();
    stations.insert(1u16, (5u32, 3u32, 1u32));
    assert_eq!(check_module_purchase(&stations, 2, 8, Some((5, 3, 1)), true), Err(Errcode::NoSuchStation(2)));
    assert_eq!(check_module_purchase(&stations, 1, 8, None, true), Err(Errcode::ShipNotFound(8)));
    assert_eq!(check_module_purchase(&stations, 1, 8, Some((5, 3, 2)), true), Err(Errcode::ShipNotInStation));
    assert_eq!(check_module_purchase(&stations, 1, 8, Some((5, 3, 1)), false), Err(Errcode::NotEnoughMoney));
    assert_eq!(check_module_purchase(&stations, 1, 8, Some((5, 3, 1)), true), Ok(()));
}

#[test]
fn bought_module_is_installed_only_when_allowed() {
    let mut stations = BTreeMap::new();
    stations.insert(1u16, (5u32, 3u32, 1u32));
    let mut modules = BTreeMap::new();
    let r = buy_ship_module(&stations, 1, 8, Some((5, 3, 1)), &mut modules, ShipModuleType::Miner, false);
    assert_eq!(r, Err(Errcode::NotEnoughMoney));
    assert!(modules.is_empty());
    let r = buy_ship_module(&stations, 1, 8, Some((5, 3, 1)), &mut modules, ShipModuleType::Miner, true);
    assert_eq!(r, Ok(1));
    assert_eq!(modules.get(&1), Some(&ShipModule { operator: None, modtype: ShipModuleType::Miner }));
}

#[test]
fn shipyard_search_takes_last_match() {
    assert_eq!(find_shipyard_ship(&vec![3, 5, 3, 9], 3), Some(2));
    assert_eq!(find_shipyard_ship(&vec![3, 5, 3, 9], 9), Some(3));
    assert_eq!(find_shipyard_ship(&vec![3, 5, 3, 9], 4), None);
    assert_eq!(find_shipyard_ship(&vec![], 4), None);
}
