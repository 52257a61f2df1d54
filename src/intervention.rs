//! Scheduled policy changes.
use vstd::prelude::*;

verus! {

/// The kind of a scheduled policy change.
#[derive(PartialEq, Eq, Structural, Clone, Copy, Debug)]
pub enum InterventionType {
    /// Damps every agent's velocity while it is in force.
    MobilityRestriction,
    /// Lowers the population-level spread rate while it is in force.
    MaskMandate,
}

/// A time-boxed policy change that fires once on its start day and once on
/// its end day.
#[derive(PartialEq, Eq, Structural, Clone, Copy, Debug)]
pub struct Intervention {
    pub intType: InterventionType,
    pub startTime: usize,
    pub endTime: usize,
    pub active: bool,
}

impl Intervention {
    /// A new, inactive intervention of the given kind and boundaries.
    pub fn new(inter: InterventionType, startTime: usize, endTime: usize) -> (r: Intervention)
        ensures
            r.intType == inter,
            r.startTime == startTime,
            r.endTime == endTime,
            !r.active,
    {
        let res = Intervention { intType: inter, startTime, endTime, active: false };
        res
    }

    /// Sets the activity flag; nothing else changes.
    pub fn setAct(&mut self, active: bool)
        ensures
            *final(self) == (Intervention { active, ..*old(self) }),
    {
        self.active = active;
    }

    pub fn getStart(&mut self) -> (r: usize)
        ensures
            r == old(self).startTime,
            *final(self) == *old(self),
    {
        self.startTime
    }

    pub fn getEnd(&mut self) -> (r: usize)
        ensures
            r == old(self).endTime,
            *final(self) == *old(self),
    {
        self.endTime
    }

    pub fn getType(&mut self) -> (r: InterventionType)
        ensures
            r == old(self).intType,
            *final(self) == *old(self),
    {
        self.intType
    }
}

} // verus!
