use std::collections::BTreeMap;

use simeis::crew::{hire_crew_member, Crew, CrewMember, CrewMemberType};
use simeis::industry::{IndustryUnit, IndustryUnitType};
use simeis::module::{install_module, ShipModule, ShipModuleType};

#[test]
fn crew_member_from_type_starts_at_rank_one() {
    let m = CrewMember::from(CrewMemberType::Trader);
    assert_eq!(m.member_type, CrewMemberType::Trader);
    assert_eq!(m.rank, 1);
}

#[test]
fn crew_type_names_read_back_ignoring_case() {
    assert_eq!(CrewMemberType::from_name("pilot"), Some(CrewMemberType::Pilot));
    assert_eq!(CrewMemberType::from_name("OPERATOR"), Some(CrewMemberType::Operator));
    assert_eq!(CrewMemberType::from_name("TrAdEr"), Some(CrewMemberType::Trader));
    assert_eq!(CrewMemberType::from_name("Soldier"), Some(CrewMemberType::Soldier));
    assert_eq!(CrewMemberType::from_name("Soldiers"), None);
    assert_eq!(CrewMemberType::from_name(""), None);
    for t in [CrewMemberType::Pilot, CrewMemberType::Operator, CrewMemberType::Trader, CrewMemberType::Soldier] {
        assert_eq!(CrewMemberType::from_name(t.name()), Some(t));
    }
    assert_eq!(CrewMemberType::Operator.name(), "Operator");
}

#[test]
fn hiring_adds_a_rank_one_member() {
    let mut crew = Crew(BTreeMap::new());
    let id = hire_crew_member(&mut crew, CrewMemberType::Soldier);
    assert_eq!(crew.0.len(), 1);
    assert_eq!(crew.0.get(&id), Some(&CrewMember { member_type: CrewMemberType::Soldier, rank: 1 }));
}

#[test]
fn new_module_has_no_operator_and_needs_one() {
    let m = ShipModuleType::Miner.new_module();
    assert_eq!(m, ShipModule { operator: None, modtype: ShipModuleType::Miner });
    assert!(m.need(&CrewMemberType::Operator));
    assert!(!m.need(&CrewMemberType::Pilot));
    assert!(!m.need(&CrewMemberType::Trader));
    let operated = ShipModule { operator: Some(4), modtype: ShipModuleType::GasSucker };
    assert!(!operated.need(&CrewMemberType::Operator));
}

#[test]
fn module_type_names_read_back_ignoring_case() {
    assert_eq!(ShipModuleType::from_name("miner"), Some(ShipModuleType::Miner));
    assert_eq!(ShipModuleType::from_name("gassucker"), Some(ShipModuleType::GasSucker));
    assert_eq!(ShipModuleType::from_name("gas_sucker"), None);
    assert_eq!(ShipModuleType::GasSucker.name(), "GasSucker");
}

#[test]
fn installed_modules_are_numbered_from_one() {
    let mut modules = BTreeMap::new();
    assert_eq!(install_module(&mut modules, ShipModuleType::Miner), 1);
    assert_eq!(install_module(&mut modules, ShipModuleType::GasSucker), 2);
    assert_eq!(modules.len(), 2);
    assert_eq!(modules.get(&1), Some(&ShipModule { operator: None, modtype: ShipModuleType::Miner }));
    assert_eq!(modules.get(&2), Some(&ShipModule { operator: None, modtype: ShipModuleType::GasSucker }));
}

#[test]
fn new_unit_is_rank_one_and_needs_an_operator() {
    let u = IndustryUnitType::HullFoundry.new_unit();
    assert_eq!(u, IndustryUnit { operator: None, unittype: IndustryUnitType::HullFoundry, rank: 1 });
    assert!(u.need(&CrewMemberType::Operator));
    assert!(!u.need(&CrewMemberType::Soldier));
    let operated = IndustryUnit { operator: Some(1), unittype: IndustryUnitType::FuelRefinery, rank: 3 };
    assert!(!operated.need(&CrewMemberType::Operator));
}

#[test]
fn unit_type_names_read_back_ignoring_case() {
    assert_eq!(IndustryUnitType::from_name("fuelrefinery"), Some(IndustryUnitType::FuelRefinery));
    assert_eq!(IndustryUnitType::from_name("HULLFOUNDRY"), Some(IndustryUnitType::HullFoundry));
    assert_eq!(IndustryUnitType::from_name("refinery"), None);
    assert_eq!(IndustryUnitType::FuelRefinery.name(), "FuelRefinery");
}
