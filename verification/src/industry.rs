use vstd::prelude::*;

use crate::crew::{CrewId, CrewMemberType};
use crate::text::{eq_ignore_ascii_case, same_ignoring_ascii_case};

verus! {

/// The kinds of industry unit a station can run.
#[derive(Debug, Clone, Copy, PartialEq, Eq, Structural)]
pub enum IndustryUnitType {
    FuelRefinery,
    HullFoundry,
}

/// The name of each unit type.
pub open spec fn unit_type_name(t: IndustryUnitType) -> Seq<char> {
    match t {
        IndustryUnitType::FuelRefinery => "FuelRefinery"@,
        IndustryUnitType::HullFoundry => "HullFoundry"@,
    }
}

/// The unit type whose name is `s`, ASCII case ignored.
pub open spec fn unit_type_named(s: Seq<char>) -> Option<IndustryUnitType> {
    if same_ignoring_ascii_case(s, "FuelRefinery"@) {
        Some(IndustryUnitType::FuelRefinery)
    } else if same_ignoring_ascii_case(s, "HullFoundry"@) {
        Some(IndustryUnitType::HullFoundry)
    } else {
        None
    }
}

/// An industry unit: its kind, its rank, and the crew member operating it, if any.
#[derive(Debug, Clone, Copy, PartialEq, Eq, Structural)]
pub struct IndustryUnit {
    pub operator: Option<CrewId>,
    pub unittype: IndustryUnitType,
    pub rank: u8,
}

/// Whether a unit of type `unittype` with operator `operator` needs a crew member of type
/// `ctype`: every unit kind takes one operator.
pub open spec fn unit_needs(unittype: IndustryUnitType, operator: Option<CrewId>, ctype: CrewMemberType) -> bool {
    match unittype {
        IndustryUnitType::FuelRefinery | IndustryUnitType::HullFoundry => ctype
            == CrewMemberType::Operator && operator is None,
    }
}

impl IndustryUnitType {
    /// A new unit of this type, at rank 1, with no operator.
    pub fn new_unit(self) -> (u: IndustryUnit)
        ensures
            u == (IndustryUnit { operator: None, unittype: self, rank: 1 }),
    {
        IndustryUnit { operator: None, unittype: self, rank: 1 }
    }

    /// The name of the type, as written in the enum.
    pub fn name(&self) -> (s: &'static str)
        ensures
            s@ == unit_type_name(*self),
    {
        match self {
            IndustryUnitType::FuelRefinery => "FuelRefinery",
            IndustryUnitType::HullFoundry => "HullFoundry",
        }
    }

    /// The type whose name is `s`, ASCII case ignored.
    pub fn from_name(s: &str) -> (t: Option<IndustryUnitType>)
        ensures
            t == unit_type_named(s@),
            forall|u: IndustryUnitType| same_ignoring_ascii_case(s@, #[trigger] unit_type_name(u)) ==> t == Some(u),
    {
        proof {
            assert forall|u: IndustryUnitType| same_ignoring_ascii_case(s@, #[trigger] unit_type_name(u)) implies unit_type_named(s@) == Some(u) by {
                lemma_unit_type_name_any_case(u, s@);
            }
        }
        if eq_ignore_ascii_case(s, "FuelRefinery") {
            Some(IndustryUnitType::FuelRefinery)
        } else if eq_ignore_ascii_case(s, "HullFoundry") {
            Some(IndustryUnitType::HullFoundry)
        } else {
            None
        }
    }
}

impl IndustryUnit {
    /// Whether this unit needs a crew member of type `ctype`.
    pub fn need(&self, ctype: &CrewMemberType) -> (r: bool)
        ensures
            r == unit_needs(self.unittype, self.operator, *ctype),
    {
        match self.unittype {
            IndustryUnitType::FuelRefinery | IndustryUnitType::HullFoundry => {
                *ctype == CrewMemberType::Operator && self.operator.is_none()
            },
        }
    }
}

/// Any text equal to a type's name up to ASCII case (`"soldier"`, `"SOLDIER"`, ...) reads
/// as that type.
pub proof fn lemma_unit_type_name_any_case(t: IndustryUnitType, s: Seq<char>)
    requires
        same_ignoring_ascii_case(s, unit_type_name(t)),
    ensures
        unit_type_named(s) == Some(t),
{
    reveal_strlit("FuelRefinery");
    reveal_strlit("HullFoundry");
}

/// Reading a type's name gives back that type.
pub proof fn lemma_unit_type_name_round_trip(t: IndustryUnitType)
    ensures
        unit_type_named(unit_type_name(t)) == Some(t),
{
    reveal_strlit("FuelRefinery");
    reveal_strlit("HullFoundry");
    if t == IndustryUnitType::HullFoundry {
        assert(!same_ignoring_ascii_case("HullFoundry"@, "FuelRefinery"@));
    }
}

} // verus!
