//! What the competition service reports: pilots, and the matches they played.

use vstd::prelude::*;

verus! {

/// The declared winner of a match.
#[derive(Clone, Copy, Debug, PartialEq, Eq, Structural)]
pub enum Winner {
    TeamA,
    TeamB,
    Unknown,
}

/// One side of a match: the pilot that played and the version it played with.
#[derive(Clone, Copy, Debug, PartialEq, Eq, Structural)]
pub struct TeamSlot {
    pub aip_id: u128,
    pub version: i32,
}

/// A recorded contest between two pilot versions. `created_at` counts
/// milliseconds since the Unix epoch.
#[derive(Clone, Copy, Debug)]
pub struct MatchResult {
    pub id: u128,
    pub team_a: TeamSlot,
    pub team_b: TeamSlot,
    pub winner: Winner,
    pub created_at: i64,
    pub manual_run: bool,
    pub replay_id: Option<u128>,
}

/// A submitted competitor, with the number of its latest upload.
#[derive(Debug)]
pub struct AiPilot {
    pub id: u128,
    pub name: String,
    pub owner_id: String,
    pub current_version: i32,
}

impl Winner {
    /// The winner as seen after the two sides changed places.
    pub open spec fn swapped(self) -> Winner {
        match self {
            Winner::TeamA => Winner::TeamB,
            Winner::TeamB => Winner::TeamA,
            Winner::Unknown => Winner::Unknown,
        }
    }
}

impl Clone for AiPilot {
    fn clone(&self) -> (copy: AiPilot)
        ensures
            copy == *self,
    {
        AiPilot {
            id: self.id,
            name: self.name.clone(),
            owner_id: self.owner_id.clone(),
            current_version: self.current_version,
        }
    }
}

impl MatchResult {
    /// The pilot played on one of the two sides.
    pub open spec fn spec_involves(&self, pilot: u128) -> bool {
        self.team_a.aip_id == pilot || self.team_b.aip_id == pilot
    }

    /// The pilot won, whichever side it played on.
    pub open spec fn spec_won_by(&self, pilot: u128) -> bool {
        (self.team_a.aip_id == pilot && self.winner == Winner::TeamA) || (self.team_b.aip_id
            == pilot && self.winner == Winner::TeamB)
    }

    /// The side the pilot is taken to play on: A where it is team A, B
    /// otherwise.
    pub open spec fn spec_own_slot(&self, pilot: u128) -> TeamSlot {
        if self.team_a.aip_id == pilot {
            self.team_a
        } else {
            self.team_b
        }
    }

    /// The side facing `spec_own_slot`.
    pub open spec fn spec_opponent_slot(&self, pilot: u128) -> TeamSlot {
        if self.team_a.aip_id == pilot {
            self.team_b
        } else {
            self.team_a
        }
    }

    /// The side of `spec_own_slot` is the declared winner.
    pub open spec fn spec_side_won(&self, pilot: u128) -> bool {
        if self.team_a.aip_id == pilot {
            self.winner == Winner::TeamA
        } else {
            self.winner == Winner::TeamB
        }
    }

    /// The same match with the two sides in each other's place.
    pub open spec fn swapped(&self) -> MatchResult {
        MatchResult {
            id: self.id,
            team_a: self.team_b,
            team_b: self.team_a,
            winner: self.winner.swapped(),
            created_at: self.created_at,
            manual_run: self.manual_run,
            replay_id: self.replay_id,
        }
    }

    pub fn involves(&self, pilot: u128) -> (b: bool)
        ensures
            b == self.spec_involves(pilot),
    {
        self.team_a.aip_id == pilot || self.team_b.aip_id == pilot
    }

    pub fn won_by(&self, pilot: u128) -> (b: bool)
        ensures
            b == self.spec_won_by(pilot),
    {
        (self.team_a.aip_id == pilot && self.winner == Winner::TeamA) || (self.team_b.aip_id
            == pilot && self.winner == Winner::TeamB)
    }

    pub fn own_slot(&self, pilot: u128) -> (slot: TeamSlot)
        ensures
            slot == self.spec_own_slot(pilot),
    {
        if self.team_a.aip_id == pilot {
            self.team_a
        } else {
            self.team_b
        }
    }

    pub fn opponent_slot(&self, pilot: u128) -> (slot: TeamSlot)
        ensures
            slot == self.spec_opponent_slot(pilot),
    {
        if self.team_a.aip_id == pilot {
            self.team_b
        } else {
            self.team_a
        }
    }

    pub fn side_won(&self, pilot: u128) -> (b: bool)
        ensures
            b == self.spec_side_won(pilot),
    {
        if self.team_a.aip_id == pilot {
            self.winner == Winner::TeamA
        } else {
            self.winner == Winner::TeamB
        }
    }
}

/// It makes no difference on which side a pilot played: with the two sides
/// in each other's place the pilot has the same opponent, the same version
/// and the same outcome. (A match of a pilot against itself is left out: there
/// the pilot is taken for side A.)
pub proof fn lemma_sides_are_symmetric(m: MatchResult, pilot: u128)
    requires
        m.team_a.aip_id != m.team_b.aip_id,
        m.spec_involves(pilot),
    ensures
        m.swapped().spec_involves(pilot),
        m.swapped().spec_won_by(pilot) == m.spec_won_by(pilot),
        m.swapped().spec_side_won(pilot) == m.spec_side_won(pilot),
        m.swapped().spec_own_slot(pilot) == m.spec_own_slot(pilot),
        m.swapped().spec_opponent_slot(pilot) == m.spec_opponent_slot(pilot),
        m.spec_side_won(pilot) == m.spec_won_by(pilot),
{
}

} // verus!
