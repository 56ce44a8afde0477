use std::collections::BTreeMap;
use vstd::prelude::*;

use crate::crew::{CrewId, CrewMemberType};
use crate::text::{eq_ignore_ascii_case, same_ignoring_ascii_case};

verus! {

/// Identifier of a module on a ship.
pub type ShipModuleId = u16;

/// The kinds of module a ship can carry.
#[derive(Debug, Clone, Copy, PartialEq, Eq, Structural)]
pub enum ShipModuleType {
    Miner,
    GasSucker,
}

/// The name of each module type.
pub open spec fn module_type_name(t: ShipModuleType) -> Seq<char> {
    match t {
        ShipModuleType::Miner => "Miner"@,
        ShipModuleType::GasSucker => "GasSucker"@,
    }
}

/// The module type whose name is `s`, ASCII case ignored.
pub open spec fn module_type_named(s: Seq<char>) -> Option<ShipModuleType> {
    if same_ignoring_ascii_case(s, "Miner"@) {
        Some(ShipModuleType::Miner)
    } else if same_ignoring_ascii_case(s, "GasSucker"@) {
        Some(ShipModuleType::GasSucker)
    } else {
        None
    }
}

/// A module of a ship: its kind, and the crew member operating it, if any.
#[derive(Debug, Clone, Copy, PartialEq, Eq, Structural)]
pub struct ShipModule {
    pub operator: Option<CrewId>,
    pub modtype: ShipModuleType,
}

/// Whether a module of type `modtype` with operator `operator` needs a crew member of type
/// `ctype`: every module kind takes one operator.
pub open spec fn module_needs(modtype: ShipModuleType, operator: Option<CrewId>, ctype: CrewMemberType) -> bool {
    match modtype {
        ShipModuleType::Miner | ShipModuleType::GasSucker => ctype == CrewMemberType::Operator
            && operator is None,
    }
}

impl ShipModuleType {
    /// A new module of this type, with no operator.
    pub fn new_module(self) -> (m: ShipModule)
        ensures
            m == (ShipModule { operator: None, modtype: self }),
    {
        ShipModule { operator: None, modtype: self }
    }

    /// The name of the type, as written in the enum.
    pub fn name(&self) -> (s: &'static str)
        ensures
            s@ == module_type_name(*self),
    {
        match self {
            ShipModuleType::Miner => "Miner",
            ShipModuleType::GasSucker => "GasSucker",
        }
    }

    /// The type whose name is `s`, ASCII case ignored.
    pub fn from_name(s: &str) -> (t: Option<ShipModuleType>)
        ensures
            t == module_type_named(s@),
            forall|u: ShipModuleType| same_ignoring_ascii_case(s@, #[trigger] module_type_name(u)) ==> t == Some(u),
    {
        proof {
            assert forall|u: ShipModuleType| same_ignoring_ascii_case(s@, #[trigger] module_type_name(u)) implies module_type_named(s@) == Some(u) by {
                lemma_module_type_name_any_case(u, s@);
            }
        }
        if eq_ignore_ascii_case(s, "Miner") {
            Some(ShipModuleType::Miner)
        } else if eq_ignore_ascii_case(s, "GasSucker") {
            Some(ShipModuleType::GasSucker)
        } else {
            None
        }
    }
}

impl ShipModule {
    /// Whether this module needs a crew member of type `ctype`.
    pub fn need(&self, ctype: &CrewMemberType) -> (r: bool)
        ensures
            r == module_needs(self.modtype, self.operator, *ctype),
    {
        match self.modtype {
            ShipModuleType::Miner | ShipModuleType::GasSucker => {
                *ctype == CrewMemberType::Operator && self.operator.is_none()
            },
        }
    }
}

/// The identifier that the next module installed among `modules` gets: one more than their
/// number, wrapping around past `u16::MAX`.
pub open spec fn next_module_id(count: nat) -> ShipModuleId {
    ((count + 1) % 0x1_0000) as ShipModuleId
}

/// Installs a new module of type `modtype` (with no operator) among a ship's `modules`
/// and returns its identifier, one more than the number of modules installed before.
pub fn install_module(modules: &mut BTreeMap<ShipModuleId, ShipModule>, modtype: ShipModuleType) -> (id: ShipModuleId)
    ensures
        id == next_module_id(old(modules)@.len()),
        final(modules)@ == old(modules)@.insert(id, ShipModule { operator: None, modtype }),
{
    broadcast use vstd::std_specs::btree::group_btree_axioms;
    let n = modules.len();
    let id: ShipModuleId = if n < 0xffff {
        (n + 1) as ShipModuleId
    } else {
        ((n % 0x1_0000 + 1) % 0x1_0000) as ShipModuleId
    };
    assert(id == next_module_id(old(modules)@.len())) by {
        assert(((n % 0x1_0000 + 1) % 0x1_0000) == ((n + 1) % 0x1_0000)) by (nonlinear_arith);
    }
    modules.insert(id, modtype.new_module());
    id
}

/// Whether the modules of a ship are numbered `1` to their number, as installing them one
/// after the other numbers them.
pub open spec fn numbered_in_order(modules: Map<ShipModuleId, ShipModule>) -> bool {
    forall|k: ShipModuleId| #[trigger] modules.contains_key(k) <==> 1 <= k <= modules.len()
}

/// Installing a module among modules numbered `1` to `n` (with `n < u16::MAX`) gives it
/// the number `n + 1`: the modules are then numbered `1` to `n + 1`, and none was replaced.
pub proof fn lemma_install_keeps_numbering(modules: Map<ShipModuleId, ShipModule>, m: ShipModule)
    requires
        modules.dom().finite(),
        numbered_in_order(modules),
        modules.len() < 0xffff,
    ensures
        !modules.contains_key(next_module_id(modules.len())),
        numbered_in_order(modules.insert(next_module_id(modules.len()), m)),
        modules.insert(next_module_id(modules.len()), m).len() == modules.len() + 1,
{
    let id = next_module_id(modules.len());
    assert(id == modules.len() + 1);
    let after = modules.insert(id, m);
    assert(after.len() == modules.len() + 1);
    assert forall|k: ShipModuleId| #[trigger] after.contains_key(k) <==> 1 <= k <= after.len() by {
        if k == id {
        } else {
            assert(after.contains_key(k) == modules.contains_key(k));
        }
    }
}

/// Any text equal to a type's name up to ASCII case (`"soldier"`, `"SOLDIER"`, ...) reads
/// as that type.
pub proof fn lemma_module_type_name_any_case(t: ShipModuleType, s: Seq<char>)
    requires
        same_ignoring_ascii_case(s, module_type_name(t)),
    ensures
        module_type_named(s) == Some(t),
{
    reveal_strlit("Miner");
    reveal_strlit("GasSucker");
}

/// Reading a type's name gives back that type.
pub proof fn lemma_module_type_name_round_trip(t: ShipModuleType)
    ensures
        module_type_named(module_type_name(t)) == Some(t),
{
    reveal_strlit("Miner");
    reveal_strlit("GasSucker");
    if t == ShipModuleType::GasSucker {
        assert(!same_ignoring_ascii_case("GasSucker"@, "Miner"@));
    }
}

/// A new module needs an operator, and no other crew member.
pub proof fn lemma_new_module_needs_operator(t: ShipModuleType, ctype: CrewMemberType)
    ensures
        module_needs(t, None, ctype) <==> ctype == CrewMemberType::Operator,
{
}

/// A module with an operator needs no one.
pub proof fn lemma_operated_module_needs_no_one(t: ShipModuleType, op: CrewId, ctype: CrewMemberType)
    ensures
        !module_needs(t, Some(op), ctype),
{
}

} // verus!
