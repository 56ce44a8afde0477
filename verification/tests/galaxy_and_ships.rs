use std::collections::BTreeMap;

use simeis::errors::Errcode;
use simeis::galaxy::{get_distance_sq, init_new_station, Planet, ScanResult, SpaceObject, StationInfo};
use simeis::game::{fleet_tick, next_step, remove_ships, GameSignal, LoopStep, ShipActivity, ShipTick, SyslogEvent};
use simeis::ship::Travel;

#[test]
fn squared_distance_is_exact() {
    assert_eq!(get_distance_sq(&(1, 2, 3), &(4, 6, 3)), 25);
    assert_eq!(get_distance_sq(&(4, 6, 3), &(1, 2, 3)), 25);
    assert_eq!(get_distance_sq(&(0, 0, 0), &(u32::MAX, u32::MAX, u32::MAX)), 3 * (u32::MAX as u128) * (u32::MAX as u128));
}

#[test]
fn empty_scan_has_no_closest_planet() {
    let scan = ScanResult::empty();
    assert!(scan.planets().is_empty());
    assert!(scan.stations().is_empty());
    assert_eq!(scan.get_closest_planet(&(0, 0, 0)), None);
}

#[test]
fn scan_sorts_objects_and_finds_closest_planet() {
    let mut scan = ScanResult::empty();
    scan.add(&SpaceObject::Planet(Planet { position: (10, 0, 0) }));
    scan.add(&SpaceObject::BaseStation(StationInfo { id: 3, position: (1, 1, 1) }));
    scan.add(&SpaceObject::Planet(Planet { position: (0, 2, 0) }));
    scan.add(&SpaceObject::Planet(Planet { position: (0, 0, 7) }));
    assert_eq!(scan.planets().len(), 3);
    assert_eq!(scan.stations(), &vec![StationInfo { id: 3, position: (1, 1, 1) }]);
    assert_eq!(scan.get_closest_planet(&(0, 0, 0)), Some(Planet { position: (0, 2, 0) }));
    assert_eq!(scan.get_closest_planet(&(9, 0, 0)), Some(Planet { position: (10, 0, 0) }));
}

#[test]
fn closest_planet_tie_goes_to_first_found() {
    let mut scan = ScanResult::empty();
    scan.add(&SpaceObject::Planet(Planet { position: (0, 0, 4) }));
    scan.add(&SpaceObject::Planet(Planet { position: (4, 0, 0) }));
    assert_eq!(scan.get_closest_planet(&(0, 0, 0)), Some(Planet { position: (0, 0, 4) }));
}

#[test]
fn new_station_position_is_fixed() {
    let players: BTreeMap<u64, ()> = BTreeMap::new();
    assert_eq!(init_new_station(&players), (5, 3, 1));
}

#[test]
fn travel_to_own_position_is_refused() {
    let t = Travel { destination: (1, 2, 3) };
    assert_eq!(t.check_distance(&(1, 2, 3)), Err(Errcode::NullDistance));
    assert_eq!(t.check_distance(&(1, 2, 4)), Ok(()));
}

#[test]
fn game_loop_runs_on_tick_only() {
    assert_eq!(next_step(Some(GameSignal::Tick)), LoopStep::RunTick);
    assert_eq!(next_step(Some(GameSignal::Stop)), LoopStep::Exit);
    assert_eq!(next_step(None), LoopStep::Exit);
}

#[test]
fn fleet_tick_ends_activities_and_destroys_worn_ships() {
    let ships = vec![
        ShipTick { id: 1, activity: ShipActivity::Idle, finished: true, hull_worn_out: true },
        ShipTick { id: 2, activity: ShipActivity::InFlight, finished: true, hull_worn_out: true },
        ShipTick { id: 3, activity: ShipActivity::Extracting, finished: true, hull_worn_out: false },
        ShipTick { id: 4, activity: ShipActivity::InFlight, finished: false, hull_worn_out: true },
        ShipTick { id: 5, activity: ShipActivity::InFlight, finished: true, hull_worn_out: false },
    ];
    let r = fleet_tick(&ships);
    assert_eq!(
        r.activities,
        vec![ShipActivity::Idle, ShipActivity::Idle, ShipActivity::Idle, ShipActivity::InFlight, ShipActivity::Idle]
    );
    assert_eq!(r.destroyed, vec![2]);
    assert_eq!(
        r.events,
        vec![SyslogEvent::ExtractionStopped(3), SyslogEvent::ShipFlightFinished(5), SyslogEvent::ShipDestroyed(2)]
    );
}

#[test]
fn destroyed_ships_leave_the_fleet() {
    let mut fleet: BTreeMap<u64, &str> = BTreeMap::new();
    fleet.insert(1, "a");
    fleet.insert(2, "b");
    fleet.insert(3, "c");
    remove_ships(&mut fleet, &vec![2, 7]);
    assert_eq!(fleet.keys().copied().collect::<Vec<u64>>(), vec![1, 3]);
}
