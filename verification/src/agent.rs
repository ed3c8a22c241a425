//! The single simulated organism: a position, a bounded energy reserve, and
//! a liveness flag that falls exactly once.

use vstd::prelude::*;
use crate::environment::{random_direction, Direction, Food, PosView, Position};

verus! {

/// The energy every attempted step costs, whether or not the move succeeds.
pub const AGENT_STEP_ENERGY_COST: u32 = 1;

/// The agent's energy is clamped to `[0, AGENT_MAX_ENERGY]`; it starts full.
pub const AGENT_MAX_ENERGY: u32 = 100;

/// The fixed cell a fresh agent stands on.
pub const AGENT_START_X: i32 = 50;

/// The fixed cell a fresh agent stands on.
pub const AGENT_START_Y: i32 = 50;

/// The simulated organism.
pub struct Agent {
    pub position: Position,
    pub energy: u32,
    pub alive: bool,
}

/// What an agent can decide to do in a tick.
pub enum AgentAction {
    Step(Direction),
}

/// The mathematical image of an `Agent`.
pub ghost struct AgentView {
    pub position: PosView,
    pub energy: int,
    pub alive: bool,
}

impl View for Agent {
    type V = AgentView;

    open spec fn view(&self) -> AgentView {
        AgentView { position: self.position@, energy: self.energy as int, alive: self.alive }
    }
}

/// An energy value forced into the range the reserve can hold,
/// `[0, AGENT_MAX_ENERGY]`.
pub open spec fn clamp_energy(e: int) -> int {
    if e < 0 {
        0
    } else if e > AGENT_MAX_ENERGY as int {
        AGENT_MAX_ENERGY as int
    } else {
        e
    }
}

/// The energy left after paying for one attempted step, clamped at zero so
/// that an unsigned reserve can never underflow.
pub open spec fn energy_after_step(e: int) -> int {
    if e >= AGENT_STEP_ENERGY_COST as int {
        e - AGENT_STEP_ENERGY_COST as int
    } else {
        0
    }
}

/// The energy held after eating a food item worth `gain`, clamped at the
/// maximum reserve.
pub open spec fn energy_after_eating(e: int, gain: int) -> int {
    if e + gain >= AGENT_MAX_ENERGY as int {
        AGENT_MAX_ENERGY as int
    } else {
        e + gain
    }
}

impl Agent {
    /// A fresh agent: at the fixed start cell, full energy, alive.
    pub fn new() -> (a: Agent)
        ensures
            a@ == (AgentView {
                position: PosView { x: AGENT_START_X as int, y: AGENT_START_Y as int },
                energy: AGENT_MAX_ENERGY as int,
                alive: true,
            }),
    {
        Agent {
            position: Position { x: AGENT_START_X, y: AGENT_START_Y },
            energy: AGENT_MAX_ENERGY,
            alive: true,
        }
    }

    /// Whether the agent still lives.
    pub fn alive(&self) -> (r: bool)
        ensures
            r == self@.alive,
    {
        self.alive
    }

    /// Whether the agent's reserve is exhausted, which is the sole cause of
    /// death.
    pub fn should_die(&self) -> (r: bool)
        ensures
            r == (self@.energy == 0),
    {
        self.energy <= 0
    }

    /// Ends the agent's life.  Idempotent; nothing brings it back.
    pub fn die(&mut self)
        ensures
            final(self)@ == (AgentView { alive: false, ..old(self)@ }),
    {
        self.alive = false;
    }

    /// Ends the agent's life exactly when its reserve is exhausted.
    pub fn maybe_die(&mut self)
        ensures
            final(self)@ == (AgentView {
                alive: old(self)@.alive && old(self)@.energy > 0,
                ..old(self)@
            }),
    {
        if self.should_die() {
            self.die()
        }
    }

    /// Adds the food's energy to the reserve, clamped at the maximum.
    pub fn eat_food(&mut self, food: &Food)
        requires
            old(self)@.energy <= AGENT_MAX_ENERGY as int,
        ensures
            final(self)@ == (AgentView {
                energy: energy_after_eating(old(self)@.energy, food@.energy),
                ..old(self)@
            }),
    {
        if food.energy >= AGENT_MAX_ENERGY - self.energy {
            self.energy = AGENT_MAX_ENERGY;
        } else {
            self.energy = self.energy + food.energy;
        }
    }

    /// Moves the agent to `position` and charges the fixed step cost,
    /// clamped at zero.
    pub fn step_to(&mut self, position: Position)
        ensures
            final(self)@ == (AgentView {
                position: position@,
                energy: energy_after_step(old(self)@.energy),
                ..old(self)@
            }),
    {
        self.position = position;
        self.expend_step_energy();
    }

    /// Charges the fixed step cost without moving, as a step rejected at the
    /// grid's edge still costs energy.
    pub fn expend_step_energy(&mut self)
        ensures
            final(self)@ == (AgentView {
                energy: energy_after_step(old(self)@.energy),
                ..old(self)@
            }),
    {
        if self.energy >= AGENT_STEP_ENERGY_COST {
            self.energy = self.energy - AGENT_STEP_ENERGY_COST;
        } else {
            self.energy = 0;
        }
    }

    /// The action the reference policy picks: a step in a direction drawn
    /// from the random source.  Every direction is a possible outcome.
    pub fn preferred_action(agent: &Agent) -> AgentAction {
        AgentAction::Step(random_direction())
    }
}

} // verus!
