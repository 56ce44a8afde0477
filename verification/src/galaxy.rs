use std::collections::BTreeMap;
use vstd::prelude::*;

verus! {

/// A position in space.
pub type SpaceCoord = (u32, u32, u32);

/// Identifier of a station.
pub type StationId = u16;

/// The square of the Euclidean distance between two positions.
pub open spec fn dist_sq(a: SpaceCoord, b: SpaceCoord) -> nat {
    let dx = a.0 - b.0;
    let dy = a.1 - b.1;
    let dz = a.2 - b.2;
    (dx * dx + dy * dy + dz * dz) as nat
}

fn abs_diff(a: u32, b: u32) -> (d: u64)
    ensures
        d * d == (a - b) * (a - b),
        d < 0x1_0000_0000,
{
    if a >= b {
        (a - b) as u64
    } else {
        assert((b - a) * (b - a) == (a - b) * (a - b)) by (nonlinear_arith);
        (b - a) as u64
    }
}

/// The square of the Euclidean distance between `a` and `b`: the distances between
/// positions compare as their squares do, and the squares are exact integers.
pub fn get_distance_sq(a: &SpaceCoord, b: &SpaceCoord) -> (d: u128)
    ensures
        d == dist_sq(*a, *b),
        d == (a.0 - b.0) * (a.0 - b.0) + (a.1 - b.1) * (a.1 - b.1) + (a.2 - b.2) * (a.2 - b.2),
{
    let dx = abs_diff(a.0, b.0) as u128;
    let dy = abs_diff(a.1, b.1) as u128;
    let dz = abs_diff(a.2, b.2) as u128;
    assert(dx * dx < 0x1_0000_0000_0000_0000) by (nonlinear_arith)
        requires dx < 0x1_0000_0000;
    assert(dy * dy < 0x1_0000_0000_0000_0000) by (nonlinear_arith)
        requires dy < 0x1_0000_0000;
    assert(dz * dz < 0x1_0000_0000_0000_0000) by (nonlinear_arith)
        requires dz < 0x1_0000_0000;
    dx * dx + dy * dy + dz * dz
}

/// The squared distance is the sum of the squared gaps along the three axes; it does not
/// depend on the order of the two positions, and it is zero only between a position and
/// itself.
pub proof fn lemma_dist_sq_is_a_distance(a: SpaceCoord, b: SpaceCoord)
    ensures
        dist_sq(a, b) == (a.0 - b.0) * (a.0 - b.0) + (a.1 - b.1) * (a.1 - b.1) + (a.2 - b.2) * (a.2 - b.2),
        dist_sq(a, b) == dist_sq(b, a),
        dist_sq(a, b) == 0 <==> a == b,
{
    lemma_square_gap(a.0 as int, b.0 as int);
    lemma_square_gap(a.1 as int, b.1 as int);
    lemma_square_gap(a.2 as int, b.2 as int);
    if dist_sq(a, b) == 0 {
        assert(a.0 == b.0 && a.1 == b.1 && a.2 == b.2);
        assert(a == b);
    }
    if a == b {
        let (dx, dy, dz) = (a.0 - b.0, a.1 - b.1, a.2 - b.2);
        assert(dx * dx + dy * dy + dz * dz == 0) by (nonlinear_arith)
            requires
                dx == 0,
                dy == 0,
                dz == 0,
        ;
        assert(dist_sq(a, b) == 0);
    }
}

proof fn lemma_square_gap(x: int, y: int)
    ensures
        (x - y) * (x - y) >= 0,
        (y - x) * (y - x) == (x - y) * (x - y),
        (x - y) * (x - y) == 0 ==> x == y,
{
    assert((x - y) * (x - y) >= 0) by (nonlinear_arith);
    assert((y - x) * (y - x) == (x - y) * (x - y)) by (nonlinear_arith);
    assert((x - y) * (x - y) == 0 ==> x == y) by (nonlinear_arith);
}

/// A planet, found by a scan at its position.
#[derive(Debug, Clone, Copy, PartialEq, Eq)]
pub struct Planet {
    pub position: SpaceCoord,
}

/// What a scan reports of a station.
#[derive(Debug, Clone, Copy, PartialEq, Eq)]
pub struct StationInfo {
    pub id: StationId,
    pub position: SpaceCoord,
}

/// Something a scan can detect.
#[derive(Debug, Clone, Copy, PartialEq, Eq)]
pub enum SpaceObject {
    BaseStation(StationInfo),
    Planet(Planet),
}

/// The planets and stations a scan has found, in the order they were found.
#[derive(Debug)]
pub struct ScanResult {
    planets: Vec<Planet>,
    stations: Vec<StationInfo>,
}

/// Whether `i` is the first index of a planet of `planets` closest to `pos`.
pub open spec fn is_first_closest(planets: Seq<Planet>, pos: SpaceCoord, i: int) -> bool {
    &&& 0 <= i < planets.len()
    &&& forall|j: int| 0 <= j < planets.len() ==> dist_sq(pos, planets[i].position) <= dist_sq(pos, #[trigger] planets[j].position)
    &&& forall|j: int| 0 <= j < i ==> dist_sq(pos, planets[i].position) < dist_sq(pos, #[trigger] planets[j].position)
}

impl ScanResult {
    /// The planets found, in order.
    pub closed spec fn planets_view(&self) -> Seq<Planet> {
        self.planets@
    }

    /// The stations found, in order.
    pub closed spec fn stations_view(&self) -> Seq<StationInfo> {
        self.stations@
    }

    /// A scan that has found nothing yet.
    pub fn empty() -> (r: ScanResult)
        ensures
            r.planets_view() == Seq::<Planet>::empty(),
            r.stations_view() == Seq::<StationInfo>::empty(),
    {
        ScanResult { planets: Vec::new(), stations: Vec::new() }
    }

    /// Records a detected object: a station among the stations, a planet among the planets.
    pub fn add(&mut self, obj: &SpaceObject)
        ensures
            match *obj {
                SpaceObject::BaseStation(s) => {
                    &&& final(self).stations_view() == old(self).stations_view().push(s)
                    &&& final(self).planets_view() == old(self).planets_view()
                },
                SpaceObject::Planet(p) => {
                    &&& final(self).planets_view() == old(self).planets_view().push(p)
                    &&& final(self).stations_view() == old(self).stations_view()
                },
            },
    {
        match obj {
            SpaceObject::BaseStation(station) => self.stations.push(*station),
            SpaceObject::Planet(planet) => self.planets.push(*planet),
        }
    }

    /// The planets found, in order.
    pub fn planets(&self) -> (p: &Vec<Planet>)
        ensures
            p@ == self.planets_view(),
    {
        &self.planets
    }

    /// The stations found, in order.
    pub fn stations(&self) -> (s: &Vec<StationInfo>)
        ensures
            s@ == self.stations_view(),
    {
        &self.stations
    }

    /// The planet found closest to `pos`; among planets at the same distance, the one found
    /// first. `None` when no planet was found.
    pub fn get_closest_planet(&self, pos: &SpaceCoord) -> (r: Option<Planet>)
        ensures
            r is None <==> self.planets_view().len() == 0,
            r matches Some(p) ==> exists|i: int| is_first_closest(self.planets_view(), *pos, i) && self.planets_view()[i] == p,
    {
        if self.planets.len() == 0 {
            return None;
        }
        let mut best: usize = 0;
        let mut best_d = get_distance_sq(pos, &self.planets[0].position);
        let mut i: usize = 1;
        while i < self.planets.len()
            invariant
                1 <= i <= self.planets.len(),
                best < i,
                best_d == dist_sq(*pos, self.planets@[best as int].position),
                forall|j: int| 0 <= j < i ==> best_d <= dist_sq(*pos, #[trigger] self.planets@[j].position),
                forall|j: int| 0 <= j < best ==> best_d < dist_sq(*pos, #[trigger] self.planets@[j].position),
            decreases self.planets.len() - i,
        {
            let d = get_distance_sq(pos, &self.planets[i].position);
            if d < best_d {
                best = i;
                best_d = d;
            }
            i = i + 1;
        }
        let p = self.planets[best];
        assert(is_first_closest(self.planets_view(), *pos, best as int) && self.planets_view()[best as int] == p);
        Some(p)
    }
}

/// Once a planet is added to a scan, the closest planet the scan reports is at least as
/// close as it.
pub proof fn lemma_added_planet_bounds_closest(planets: Seq<Planet>, p: Planet, pos: SpaceCoord, i: int)
    requires
        is_first_closest(planets.push(p), pos, i),
    ensures
        dist_sq(pos, planets.push(p)[i].position) <= dist_sq(pos, p.position),
{
    assert(planets.push(p)[planets.len() as int] == p);
}

/// Where a new station is placed, whatever the players already in the game.
pub fn init_new_station<K, T>(_players: &BTreeMap<K, T>) -> (c: SpaceCoord)
    ensures
        c == (5u32, 3u32, 1u32),
{
    (5, 3, 1)
}

} // verus!
