use std::collections::BTreeMap;
use vstd::prelude::*;

use crate::text::{eq_ignore_ascii_case, same_ignoring_ascii_case};

verus! {

/// Identifier of a crew member inside a [`Crew`].
pub type CrewId = u32;

/// The jobs a crew member can hold.
#[derive(Debug, Clone, Copy, PartialEq, Eq, Structural)]
pub enum CrewMemberType {
    Pilot,
    Operator,
    Trader,
    Soldier,
}

/// The name of each crew member type.
pub open spec fn crew_type_name(t: CrewMemberType) -> Seq<char> {
    match t {
        CrewMemberType::Pilot => "Pilot"@,
        CrewMemberType::Operator => "Operator"@,
        CrewMemberType::Trader => "Trader"@,
        CrewMemberType::Soldier => "Soldier"@,
    }
}

/// The crew member type whose name is `s`, ASCII case ignored.
pub open spec fn crew_type_named(s: Seq<char>) -> Option<CrewMemberType> {
    if same_ignoring_ascii_case(s, "Pilot"@) {
        Some(CrewMemberType::Pilot)
    } else if same_ignoring_ascii_case(s, "Operator"@) {
        Some(CrewMemberType::Operator)
    } else if same_ignoring_ascii_case(s, "Trader"@) {
        Some(CrewMemberType::Trader)
    } else if same_ignoring_ascii_case(s, "Soldier"@) {
        Some(CrewMemberType::Soldier)
    } else {
        None
    }
}

impl CrewMemberType {
    /// The name of the type, as written in the enum.
    pub fn name(&self) -> (s: &'static str)
        ensures
            s@ == crew_type_name(*self),
    {
        match self {
            CrewMemberType::Pilot => "Pilot",
            CrewMemberType::Operator => "Operator",
            CrewMemberType::Trader => "Trader",
            CrewMemberType::Soldier => "Soldier",
        }
    }

    /// The type whose name is `s`, ASCII case ignored (`"pilot"` and `"PILOT"` give `Pilot`).
    pub fn from_name(s: &str) -> (t: Option<CrewMemberType>)
        ensures
            t == crew_type_named(s@),
            forall|u: CrewMemberType| same_ignoring_ascii_case(s@, #[trigger] crew_type_name(u)) ==> t == Some(u),
    {
        proof {
            assert forall|u: CrewMemberType| same_ignoring_ascii_case(s@, #[trigger] crew_type_name(u)) implies crew_type_named(s@) == Some(u) by {
                lemma_crew_type_name_any_case(u, s@);
            }
        }
        if eq_ignore_ascii_case(s, "Pilot") {
            Some(CrewMemberType::Pilot)
        } else if eq_ignore_ascii_case(s, "Operator") {
            Some(CrewMemberType::Operator)
        } else if eq_ignore_ascii_case(s, "Trader") {
            Some(CrewMemberType::Trader)
        } else if eq_ignore_ascii_case(s, "Soldier") {
            Some(CrewMemberType::Soldier)
        } else {
            None
        }
    }
}

/// Any text equal to a type's name up to ASCII case (`"soldier"`, `"SOLDIER"`, ...) reads
/// as that type.
pub proof fn lemma_crew_type_name_any_case(t: CrewMemberType, s: Seq<char>)
    requires
        same_ignoring_ascii_case(s, crew_type_name(t)),
    ensures
        crew_type_named(s) == Some(t),
{
    reveal_strlit("Pilot");
    reveal_strlit("Operator");
    reveal_strlit("Trader");
    reveal_strlit("Soldier");
}

/// Reading a type's name gives back that type.
pub proof fn lemma_crew_type_name_round_trip(t: CrewMemberType)
    ensures
        crew_type_named(crew_type_name(t)) == Some(t),
{
    reveal_strlit("Pilot");
    reveal_strlit("Operator");
    reveal_strlit("Trader");
    reveal_strlit("Soldier");
    match t {
        CrewMemberType::Pilot => {}
        CrewMemberType::Operator => {
            assert(!same_ignoring_ascii_case("Operator"@, "Pilot"@));
        }
        CrewMemberType::Trader => {
            assert(!same_ignoring_ascii_case("Trader"@, "Pilot"@));
            assert(!same_ignoring_ascii_case("Trader"@, "Operator"@));
        }
        CrewMemberType::Soldier => {
            assert(!same_ignoring_ascii_case("Soldier"@, "Pilot"@));
            assert(!same_ignoring_ascii_case("Soldier"@, "Operator"@));
            assert(!same_ignoring_ascii_case("Soldier"@, "Trader"@));
        }
    }
}

/// A member of a crew: a job and a rank.
#[derive(Debug, Clone, Copy, PartialEq, Eq, Structural)]
pub struct CrewMember {
    pub member_type: CrewMemberType,
    pub rank: u8,
}

impl From<CrewMemberType> for CrewMember {
    /// A newly hired member of the given type, at rank 1.
    fn from(member_type: CrewMemberType) -> (m: CrewMember) {
        CrewMember { member_type, rank: 1 }
    }
}

impl vstd::std_specs::convert::FromSpecImpl<CrewMemberType> for CrewMember {
    open spec fn obeys_from_spec() -> bool {
        true
    }

    open spec fn from_spec(member_type: CrewMemberType) -> CrewMember {
        CrewMember { member_type, rank: 1 }
    }
}

/// The crew of a ship, or the idle crew of a station, by id.
#[derive(Debug)]
pub struct Crew(pub BTreeMap<CrewId, CrewMember>);

impl Crew {
    /// The members, by id.
    pub open spec fn view(&self) -> Map<CrewId, CrewMember> {
        self.0@
    }
}

/// `rand::random::<u32>()`: an identifier drawn from the thread-local generator. Nothing is
/// stated of which value comes out.
#[verifier::external_body]
fn random_crew_id() -> (id: CrewId) {
    rand::random::<u32>()
}

/// Hires a new member of type `crewtype` (at rank 1) into `crew` under a random id, which
/// is returned. A member already under that id is replaced.
pub fn hire_crew_member(crew: &mut Crew, crewtype: CrewMemberType) -> (id: CrewId)
    ensures
        final(crew)@ == old(crew)@.insert(id, CrewMember { member_type: crewtype, rank: 1 }),
{
    broadcast use vstd::std_specs::btree::group_btree_axioms;
    let id = random_crew_id();
    let member = CrewMember::from(crewtype);
    crew.0.insert(id, member);
    id
}

} // verus!
