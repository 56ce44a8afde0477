use vstd::prelude::*;

use std::collections::BTreeMap;

use crate::ship::ShipId;

verus! {

/// What the game loop is told between two ticks.
#[derive(Debug, Clone, Copy, PartialEq, Eq, Structural)]
pub enum GameSignal {
    Stop,
    Tick,
}

/// What the game loop does next.
#[derive(Debug, Clone, Copy, PartialEq, Eq, Structural)]
pub enum LoopStep {
    /// Run one tick of the game, then wait for the next signal.
    RunTick,
    /// Leave the loop: the game thread ends.
    Exit,
}

/// The game loop's decision on what it received: `None` when the signal channel failed.
/// A tick runs the game; a stop, or a failed channel, ends the loop.
pub fn next_step(got: Option<GameSignal>) -> (step: LoopStep)
    ensures
        step == LoopStep::RunTick <==> got == Some(GameSignal::Tick),
{
    match got {
        Some(GameSignal::Tick) => LoopStep::RunTick,
        None | Some(GameSignal::Stop) => LoopStep::Exit,
    }
}

/// Events of a player's game that are logged for it.
#[derive(Debug, Clone, Copy, PartialEq, Eq, Structural)]
pub enum SyslogEvent {
    GameStarted,
    ShipFlightFinished(ShipId),
    ExtractionStopped(ShipId),
    ShipDestroyed(ShipId),
}

/// What a ship is doing.
#[derive(Debug, Clone, Copy, PartialEq, Eq, Structural)]
pub enum ShipActivity {
    Idle,
    InFlight,
    Extracting,
}

/// A ship as a tick of the game sees it: its activity, whether that activity ended during
/// this tick (its flight arrived, or its extraction stopped), and whether its hull is worn
/// out (decay at or over capacity).
#[derive(Debug, Clone, Copy, PartialEq, Eq, Structural)]
pub struct ShipTick {
    pub id: ShipId,
    pub activity: ShipActivity,
    pub finished: bool,
    pub hull_worn_out: bool,
}

/// A ship whose activity ends during the tick becomes idle; the others keep theirs.
pub open spec fn activity_after(t: ShipTick) -> ShipActivity {
    if t.finished && (t.activity == ShipActivity::InFlight || t.activity == ShipActivity::Extracting) {
        ShipActivity::Idle
    } else {
        t.activity
    }
}

/// A ship is destroyed when its flight ends with its hull worn out.
pub open spec fn destroyed_by_tick(t: ShipTick) -> bool {
    t.activity == ShipActivity::InFlight && t.finished && t.hull_worn_out
}

/// The event logged for a ship as the tick goes over it (the destruction of a ship is logged
/// later, after every ship was gone over).
pub open spec fn tick_event(t: ShipTick) -> Option<SyslogEvent> {
    if t.activity == ShipActivity::InFlight && t.finished && !t.hull_worn_out {
        Some(SyslogEvent::ShipFlightFinished(t.id))
    } else if t.activity == ShipActivity::Extracting && t.finished {
        Some(SyslogEvent::ExtractionStopped(t.id))
    } else {
        None
    }
}

/// The events logged while going over `ships`, in order.
pub open spec fn tick_events(ships: Seq<ShipTick>) -> Seq<SyslogEvent>
    decreases ships.len(),
{
    if ships.len() == 0 {
        Seq::empty()
    } else {
        let prev = tick_events(ships.drop_last());
        match tick_event(ships.last()) {
            Some(e) => prev.push(e),
            None => prev,
        }
    }
}

/// The ships among `ships` that the tick destroys, in order.
pub open spec fn destroyed_ships(ships: Seq<ShipTick>) -> Seq<ShipId>
    decreases ships.len(),
{
    if ships.len() == 0 {
        Seq::empty()
    } else {
        let prev = destroyed_ships(ships.drop_last());
        if destroyed_by_tick(ships.last()) {
            prev.push(ships.last().id)
        } else {
            prev
        }
    }
}

/// What one tick of the game does to a player's fleet.
pub struct FleetTick {
    /// The activity of each ship after the tick, in the order the ships were given.
    pub activities: Vec<ShipActivity>,
    /// The events to log for the player, in order.
    pub events: Vec<SyslogEvent>,
    /// The ships destroyed, to be removed from the player's fleet.
    pub destroyed: Vec<ShipId>,
}

/// One tick of the game over a player's fleet (`ships` in the order the fleet holds
/// them): which ship becomes idle, which is destroyed, and the events to log: first, ship
/// by ship, the flights ended and the extractions stopped, then each destruction.
pub fn fleet_tick(ships: &Vec<ShipTick>) -> (r: FleetTick)
    ensures
        r.activities@.len() == ships@.len(),
        forall|i: int| 0 <= i < ships@.len() ==> r.activities@[i] == activity_after(#[trigger] ships@[i]),
        forall|i: int| 0 <= i < ships@.len() && !(#[trigger] ships@[i]).finished ==> r.activities@[i] == ships@[i].activity,
        forall|i: int| 0 <= i < ships@.len() && (#[trigger] ships@[i]).finished ==> r.activities@[i] == ShipActivity::Idle,
        r.destroyed@ == destroyed_ships(ships@),
        r.events@ == tick_events(ships@) + destroyed_ships(ships@).map_values(
            |id: ShipId| SyslogEvent::ShipDestroyed(id),
        ),
{
    let mut activities: Vec<ShipActivity> = Vec::new();
    let mut events: Vec<SyslogEvent> = Vec::new();
    let mut destroyed: Vec<ShipId> = Vec::new();
    let mut i: usize = 0;
    while i < ships.len()
        invariant
            i <= ships.len(),
            activities@.len() == i,
            forall|j: int| 0 <= j < i ==> activities@[j] == activity_after(#[trigger] ships@[j]),
            events@ == tick_events(ships@.take(i as int)),
            destroyed@ == destroyed_ships(ships@.take(i as int)),
        decreases ships.len() - i,
    {
        let t = ships[i];
        assert(ships@.take(i + 1).drop_last() =~= ships@.take(i as int));
        assert(ships@.take(i + 1).last() == t);
        let finished_now = t.finished && (match t.activity {
            ShipActivity::InFlight | ShipActivity::Extracting => true,
            ShipActivity::Idle => false,
        });
        if finished_now {
            activities.push(ShipActivity::Idle);
        } else {
            activities.push(t.activity);
        }
        match t.activity {
            ShipActivity::InFlight => {
                if t.finished {
                    if t.hull_worn_out {
                        destroyed.push(t.id);
                    } else {
                        events.push(SyslogEvent::ShipFlightFinished(t.id));
                    }
                }
            },
            ShipActivity::Extracting => {
                if t.finished {
                    events.push(SyslogEvent::ExtractionStopped(t.id));
                }
            },
            ShipActivity::Idle => {},
        }
        i = i + 1;
    }
    assert(ships@.take(ships.len() as int) =~= ships@);
    let ghost looped = events@;
    let mut k: usize = 0;
    while k < destroyed.len()
        invariant
            k <= destroyed.len(),
            destroyed@ == destroyed_ships(ships@),
            looped == tick_events(ships@),
            events@ == looped + destroyed@.take(k as int).map_values(|id: ShipId| SyslogEvent::ShipDestroyed(id)),
        decreases destroyed.len() - k,
    {
        let id = destroyed[k];
        events.push(SyslogEvent::ShipDestroyed(id));
        assert(destroyed@.take(k + 1).map_values(|id: ShipId| SyslogEvent::ShipDestroyed(id))
            =~= destroyed@.take(k as int).map_values(|id: ShipId| SyslogEvent::ShipDestroyed(id)).push(SyslogEvent::ShipDestroyed(id)));
        k = k + 1;
    }
    assert(destroyed@.take(destroyed.len() as int) =~= destroyed@);
    FleetTick { activities, events, destroyed }
}


/// Takes the ships `ids` out of a player's fleet.
pub fn remove_ships<T>(fleet: &mut BTreeMap<ShipId, T>, ids: &Vec<ShipId>)
    ensures
        final(fleet)@ == old(fleet)@.remove_keys(ids@.to_set()),
{
    broadcast use vstd::std_specs::btree::group_btree_axioms;
    let mut i: usize = 0;
    while i < ids.len()
        invariant
            i <= ids.len(),
            fleet@ == old(fleet)@.remove_keys(ids@.take(i as int).to_set()),
        decreases ids.len() - i,
    {
        let id = ids[i];
        fleet.remove(&id);
        assert(ids@.take(i + 1) =~= ids@.take(i as int) + seq![id]);
        proof {
            Seq::lemma_to_set_insert_commutes(ids@.take(i as int), id);
        }
        assert(fleet@ =~= old(fleet)@.remove_keys(ids@.take(i + 1).to_set()));
        i = i + 1;
    }
    assert(ids@.take(ids.len() as int) =~= ids@);
}

/// Whether the activity of a ship ends during the tick.
pub open spec fn activity_ends(t: ShipTick) -> bool {
    t.finished && (t.activity == ShipActivity::InFlight || t.activity == ShipActivity::Extracting)
}

/// The number of ships of `ships` whose activity ends during the tick.
pub open spec fn ending_count(ships: Seq<ShipTick>) -> nat
    decreases ships.len(),
{
    if ships.len() == 0 {
        0
    } else {
        ending_count(ships.drop_last()) + if activity_ends(ships.last()) { 1nat } else { 0nat }
    }
}

/// Each ship whose activity ends during a tick gives exactly one event: its flight ended,
/// its extraction stopped, or it was destroyed; no other ship gives one.
pub proof fn lemma_one_event_per_ended_activity(ships: Seq<ShipTick>)
    ensures
        tick_events(ships).len() + destroyed_ships(ships).len() == ending_count(ships),
    decreases ships.len(),
{
    if ships.len() > 0 {
        lemma_one_event_per_ended_activity(ships.drop_last());
    }
}

/// Whether some ship of `ships` with identifier `id` has its flight end with its hull
/// worn out.
pub open spec fn has_worn_out_arrival(ships: Seq<ShipTick>, id: ShipId) -> bool {
    exists|i: int| 0 <= i < ships.len() && #[trigger] destroyed_by_tick(ships[i]) && ships[i].id == id
}

/// Only a ship whose flight ends with its hull worn out is destroyed.
pub proof fn lemma_destroyed_ships_were_worn_out(ships: Seq<ShipTick>)
    ensures
        forall|k: int| 0 <= k < destroyed_ships(ships).len() ==> has_worn_out_arrival(ships, #[trigger] destroyed_ships(ships)[k]),
    decreases ships.len(),
{
    if ships.len() > 0 {
        let prev = ships.drop_last();
        lemma_destroyed_ships_were_worn_out(prev);
        assert forall|k: int| 0 <= k < destroyed_ships(ships).len() implies has_worn_out_arrival(ships, #[trigger] destroyed_ships(ships)[k]) by {
            if k < destroyed_ships(prev).len() {
                assert(destroyed_ships(ships)[k] == destroyed_ships(prev)[k]);
                assert(has_worn_out_arrival(prev, destroyed_ships(prev)[k]));
                let i = choose|i: int| 0 <= i < prev.len() && #[trigger] destroyed_by_tick(prev[i]) && prev[i].id == destroyed_ships(prev)[k];
                assert(ships[i] == prev[i]);
                assert(destroyed_by_tick(ships[i]));
            } else {
                let i = ships.len() - 1;
                assert(destroyed_by_tick(ships[i]));
                assert(ships[i].id == destroyed_ships(ships)[k]);
            }
        }
    }
}

/// A tick stops a ship exactly when its activity ended: a flight or extraction that goes
/// on keeps its ship busy, and a ship becomes idle only if its activity finished or it was
/// idle already.
pub proof fn lemma_ship_stops_only_when_finished(t: ShipTick)
    ensures
        !t.finished ==> activity_after(t) == t.activity,
        t.finished ==> activity_after(t) == ShipActivity::Idle,
        activity_after(t) == ShipActivity::Idle ==> t.finished || t.activity == ShipActivity::Idle,
        t.activity == ShipActivity::Extracting && !t.finished ==> activity_after(t) == ShipActivity::Extracting
            && tick_event(t) is None && !destroyed_by_tick(t),
{
}

/// An idle ship stays idle, and gives no event.
pub proof fn lemma_idle_ship_untouched(t: ShipTick)
    requires
        t.activity == ShipActivity::Idle,
    ensures
        activity_after(t) == ShipActivity::Idle,
        tick_event(t) is None,
        !destroyed_by_tick(t),
{
}

} // verus!
