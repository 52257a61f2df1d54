//! Agents and how they are sampled.
use vstd::prelude::*;

use crate::kernels::{coord_ok, COORD_LIMIT};
use crate::PROB_ONE;

verus! {

/// Health state of an agent.
#[derive(PartialEq, Eq, Structural, Clone, Copy, Debug)]
pub enum Personstate {
    Sus,
    Inf,
    Rem,
}

/// The district an agent comes from.
#[derive(PartialEq, Eq, Structural, Clone, Copy, Debug)]
pub enum Locations {
    City,
    NE,
    SE,
    SW,
    NW,
}

/// The uniform draws, each below `PROB_ONE`, from which one agent is sampled.
#[derive(PartialEq, Eq, Structural, Clone, Copy, Debug)]
pub struct AgentDraws {
    pub spread: u64,
    pub location: u64,
    pub pos_x: u64,
    pub pos_y: u64,
    pub vel_x: u64,
    pub vel_y: u64,
}

impl AgentDraws {
    pub open spec fn wf(&self) -> bool {
        &&& self.spread < PROB_ONE
        &&& self.location < PROB_ONE
        &&& self.pos_x < PROB_ONE
        &&& self.pos_y < PROB_ONE
        &&& self.vel_x < PROB_ONE
        &&& self.vel_y < PROB_ONE
    }
}

/// A pair of bounds `(low, high)` with `low <= high`, both representable.
pub open spec fn range_ok(r: (i64, i64)) -> bool {
    &&& coord_ok(r.0 as int)
    &&& coord_ok(r.1 as int)
    &&& r.0 <= r.1
}

/// The point of `[lo, hi]` that a draw `d` out of `PROB_ONE` selects.
pub open spec fn lerp(lo: int, hi: int, d: int) -> int {
    lo + (hi - lo) * d / (PROB_ONE as int)
}

pub open spec fn clamp_prob(x: int) -> int {
    if x < 0 {
        0
    } else if x > PROB_ONE {
        PROB_ONE as int
    } else {
        x
    }
}

/// The home district that a draw selects: draws above six tenths go to the
/// city, draws strictly inside the first tenth to the north-east, those
/// strictly inside the next three tenths to the south-east, and the
/// boundaries to the city.
pub open spec fn home_of(d: int) -> Locations {
    if d > 600_000 {
        Locations::City
    } else if 0 < d < 100_000 {
        Locations::NE
    } else if 100_000 < d < 200_000 || 200_000 < d < 300_000 || 300_000 < d < 400_000 {
        Locations::SE
    } else {
        Locations::City
    }
}

/// One simulated individual.
#[derive(PartialEq, Eq, Structural, Clone, Copy, Debug)]
pub struct Person {
    pub state: Personstate,
    /// Transmission probability, in parts per million.
    pub spreadChance: u64,
    pub posx: i64,
    pub posy: i64,
    pub velx: i64,
    pub vely: i64,
    pub daysInfected: usize,
    pub is_from: Locations,
    /// Chance of travelling to the city, in parts per million.
    pub chance_to_city: u64,
    pub in_city: bool,
}

impl Person {
    pub open spec fn wf(&self) -> bool {
        &&& self.spreadChance <= PROB_ONE
        &&& coord_ok(self.posx as int)
        &&& coord_ok(self.posy as int)
        &&& coord_ok(self.velx as int)
        &&& coord_ok(self.vely as int)
    }

    /// The agent that the draws `d` select within the given bounds.
    pub open spec fn sampled(
        state: Personstate,
        spreadMinMax: (i64, i64),
        spawnLoc: (i64, i64),
        velocityMinMax: (i64, i64),
        d: AgentDraws,
    ) -> Person {
        Person {
            state,
            spreadChance: clamp_prob(
                lerp(spreadMinMax.0 as int, spreadMinMax.1 as int, d.spread as int),
            ) as u64,
            posx: lerp(0, spawnLoc.0 as int, d.pos_x as int) as i64,
            posy: lerp(0, spawnLoc.1 as int, d.pos_y as int) as i64,
            velx: lerp(velocityMinMax.0 as int, velocityMinMax.1 as int, d.vel_x as int) as i64,
            vely: lerp(velocityMinMax.0 as int, velocityMinMax.1 as int, d.vel_y as int) as i64,
            daysInfected: 0,
            is_from: home_of(d.location as int),
            chance_to_city: (d.location * 3 / 5) as u64,
            in_city: true,
        }
    }

    /// Samples an agent: its transmission probability within `spreadMinMax`
    /// (clamped to a probability), its position within `[0, spawnLoc.0] x
    /// [0, spawnLoc.1]`, each velocity component within `velocityMinMax`.
    pub fn random(
        state: Personstate,
        spreadMinMax: (i64, i64),
        spawnLoc: (i64, i64),
        velocityMinMax: (i64, i64),
        d: AgentDraws,
    ) -> (r: Person)
        requires
            range_ok(spreadMinMax),
            range_ok((0, spawnLoc.0)),
            range_ok((0, spawnLoc.1)),
            range_ok(velocityMinMax),
            d.wf(),
        ensures
            r == Person::sampled(state, spreadMinMax, spawnLoc, velocityMinMax, d),
            r.wf(),
            0 <= r.posx <= spawnLoc.0,
            0 <= r.posy <= spawnLoc.1,
            velocityMinMax.0 <= r.velx <= velocityMinMax.1,
            velocityMinMax.0 <= r.vely <= velocityMinMax.1,
    {
        let spread = lerp_exec(spreadMinMax.0, spreadMinMax.1, d.spread);
        let spreadChance: u64 = if spread < 0 {
            0
        } else if spread > PROB_ONE as i64 {
            PROB_ONE
        } else {
            spread as u64
        };
        let loc = home_exec(d.location);
        Person {
            state,
            spreadChance,
            posx: lerp_exec(0, spawnLoc.0, d.pos_x),
            posy: lerp_exec(0, spawnLoc.1, d.pos_y),
            velx: lerp_exec(velocityMinMax.0, velocityMinMax.1, d.vel_x),
            vely: lerp_exec(velocityMinMax.0, velocityMinMax.1, d.vel_y),
            daysInfected: 0,
            is_from: loc,
            chance_to_city: d.location * 3 / 5,
            in_city: true,
        }
    }

    pub fn changeState(&mut self, day: usize, state: Personstate)
        ensures
            *final(self) == (Person { state, ..*old(self) }),
    {
        self.state = state;
    }

    pub fn infectCheck(&mut self) -> (r: bool)
        ensures
            r == (old(self).state == Personstate::Inf),
            *final(self) == *old(self),
    {
        self.state == Personstate::Inf
    }

    pub fn susCheck(&mut self) -> (r: bool)
        ensures
            r == (old(self).state == Personstate::Sus),
            *final(self) == *old(self),
    {
        self.state == Personstate::Sus
    }

    pub fn getSpreadChance(&mut self) -> (r: u64)
        ensures
            r == old(self).spreadChance,
            *final(self) == *old(self),
    {
        self.spreadChance
    }

    pub fn getState(&mut self) -> (r: Personstate)
        ensures
            r == old(self).state,
            *final(self) == *old(self),
    {
        self.state
    }

    pub fn getInCity(&mut self) -> (r: bool)
        ensures
            r == old(self).in_city,
            *final(self) == *old(self),
    {
        self.in_city
    }

    pub fn getDaysInfected(&mut self) -> (r: usize)
        ensures
            r == old(self).daysInfected,
            *final(self) == *old(self),
    {
        self.daysInfected
    }

    pub fn addToDaysInfected(&mut self)
        requires
            old(self).daysInfected < usize::MAX,
        ensures
            *final(self) == (Person { daysInfected: (old(self).daysInfected + 1) as usize, ..*old(self) }),
    {
        self.daysInfected = self.daysInfected + 1;
    }

    /// The contact test of one encounter with the draw `draw` out of
    /// `PROB_ONE`: it fails when the draw, stretched over `[-1, 1)`, falls
    /// below the agent's transmission probability, and passes otherwise.
    pub fn infect(&mut self, draw: u64) -> (r: bool)
        requires
            draw < PROB_ONE,
        ensures
            r == !(2 * (draw as int) - (PROB_ONE as int) < old(self).spreadChance as int),
            *final(self) == *old(self),
    {
        let stretched: i128 = 2 * (draw as i128) - PROB_ONE as i128;
        !(stretched < self.spreadChance as i128)
    }

    /// Position and velocity as `[x, y, vx, vy]`.
    pub fn getPosVel(&mut self) -> (r: [i64; 4])
        ensures
            r@ == seq![old(self).posx, old(self).posy, old(self).velx, old(self).vely],
            *final(self) == *old(self),
    {
        [self.posx, self.posy, self.velx, self.vely]
    }
}

fn lerp_exec(lo: i64, hi: i64, d: u64) -> (r: i64)
    requires
        range_ok((lo, hi)),
        d < PROB_ONE,
    ensures
        r as int == lerp(lo as int, hi as int, d as int),
        lo <= r <= hi,
{
    let width: i128 = hi as i128 - lo as i128;
    assert(0 <= width * d <= width * 1_000_000) by (nonlinear_arith)
        requires
            0 <= width,
            0 <= d < 1_000_000,
    ;
    assert(width * 1_000_000 <= 2_000_000_000_000 * 1_000_000) by (nonlinear_arith)
        requires
            0 <= width <= 2_000_000_000_000,
    ;
    let prod: i128 = width * d as i128;
    let q: i128 = prod / (PROB_ONE as i128);
    assert(q <= width) by (nonlinear_arith)
        requires
            q == prod / 1_000_000,
            0 <= prod <= width * 1_000_000,
    ;
    (lo as i128 + q) as i64
}

fn home_exec(d: u64) -> (r: Locations)
    ensures
        r == home_of(d as int),
{
    if d > 600_000 {
        Locations::City
    } else if 0 < d && d < 100_000 {
        Locations::NE
    } else if (100_000 < d && d < 200_000) || (200_000 < d && d < 300_000) || (300_000 < d
        && d < 400_000) {
        Locations::SE
    } else {
        Locations::City
    }
}

} // verus!
