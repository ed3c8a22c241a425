//! The global guarantees of the simulation, proved once and for all over
//! the mathematical world model: exact energy accounting, the bounds and
//! food-field invariants, food conservation, and the terminality of death.

use vstd::prelude::*;
use crate::agent::{clamp_energy, AGENT_STEP_ENERGY_COST};
use crate::environment::{
    distinct_food_positions, food_index_at, has_food_at, lemma_tick_preserves_wf, moved_pos,
    pos_in_bounds, state_wf, tick_spec, Direction, StateView,
};

verus! {

/// Energy accounting: a tick of a live agent leaves exactly the pre-tick
/// energy, minus the fixed step cost, plus the energy of whatever food was
/// consumed, clamped to the representable reserve range.
pub proof fn lemma_energy_accounting(pre: StateView, dir: Direction)
    requires
        state_wf(pre),
        pre.agent.alive,
    ensures
        ({
            let post = tick_spec(pre, dir);
            let candidate = moved_pos(pre.agent.position, dir);
            let gain = if pos_in_bounds(pre.grid, candidate) && has_food_at(pre.food, candidate) {
                pre.food[food_index_at(pre.food, candidate)].energy
            } else {
                0
            };
            post.agent.energy == clamp_energy(
                pre.agent.energy - AGENT_STEP_ENERGY_COST as int + gain,
            )
        }),
{
    let candidate = moved_pos(pre.agent.position, dir);
    if pos_in_bounds(pre.grid, candidate) && has_food_at(pre.food, candidate) {
        let i = food_index_at(pre.food, candidate);
        assert(0 <= i < pre.food.len() && pre.food[i].position == candidate);
        assert(pre.food[i].energy >= 0);
    }
}

/// Bounds invariant: the agent's position after a tick still lies on the
/// grid, so a well-formed run can never walk off the world.
pub proof fn lemma_bounds_invariant(pre: StateView, dir: Direction)
    requires
        state_wf(pre),
    ensures
        pos_in_bounds(tick_spec(pre, dir).grid, tick_spec(pre, dir).agent.position),
{
    lemma_tick_preserves_wf(pre, dir);
}

/// At most one food per cell: a tick never introduces two food entries
/// with equal positions into a field that had none.
pub proof fn lemma_at_most_one_food_per_cell(pre: StateView, dir: Direction)
    requires
        state_wf(pre),
    ensures
        distinct_food_positions(tick_spec(pre, dir).food),
{
    lemma_tick_preserves_wf(pre, dir);
}

/// Food conservation: a tick either leaves the food field untouched, or
/// removes exactly one item, and only the one on the cell the agent then
/// occupies.
pub proof fn lemma_food_conservation(pre: StateView, dir: Direction)
    requires
        state_wf(pre),
    ensures
        ({
            let post = tick_spec(pre, dir);
            ||| post.food == pre.food
            ||| {
                &&& post.food.len() + 1 == pre.food.len()
                &&& has_food_at(pre.food, post.agent.position)
                &&& !has_food_at(post.food, post.agent.position)
            }
        }),
{
    let post = tick_spec(pre, dir);
    if pre.agent.alive {
        let candidate = moved_pos(pre.agent.position, dir);
        if pos_in_bounds(pre.grid, candidate) && has_food_at(pre.food, candidate) {
            let i = food_index_at(pre.food, candidate);
            assert(0 <= i < pre.food.len() && pre.food[i].position == candidate);
            assert forall|j: int| 0 <= j < post.food.len() implies (
            #[trigger] post.food[j]).position != candidate by {
                let j0 = if j < i {
                    j
                } else {
                    j + 1
                };
                assert(post.food[j] == pre.food[j0]);
                if j0 < i {
                    assert(pre.food[j0].position != pre.food[i].position);
                } else {
                    assert(pre.food[i].position != pre.food[j0].position);
                }
            }
            assert(!has_food_at(post.food, candidate));
        }
    }
}

/// Terminal death: a tick leaves a dead agent's world entirely unchanged,
/// position and energy included.
pub proof fn lemma_terminal_death(pre: StateView, dir: Direction)
    requires
        !pre.agent.alive,
    ensures
        tick_spec(pre, dir) == pre,
{
}

/// The world after a whole run of ticks, one per drawn direction.
pub open spec fn run_spec(pre: StateView, dirs: Seq<Direction>) -> StateView
    decreases dirs.len(),
{
    if dirs.len() == 0 {
        pre
    } else {
        run_spec(tick_spec(pre, dirs[0]), dirs.drop_first())
    }
}

/// Every reachable world of a run from a well-formed start is well-formed:
/// the bounds and food-field invariants hold at every tick, not only after
/// one.
pub proof fn lemma_run_preserves_wf(pre: StateView, dirs: Seq<Direction>)
    requires
        state_wf(pre),
    ensures
        state_wf(run_spec(pre, dirs)),
    decreases dirs.len(),
{
    if dirs.len() > 0 {
        lemma_tick_preserves_wf(pre, dirs[0]);
        lemma_run_preserves_wf(tick_spec(pre, dirs[0]), dirs.drop_first());
    }
}

/// Terminal death over whole runs: once the agent is dead, no number of
/// further ticks changes anything.
pub proof fn lemma_terminal_death_run(pre: StateView, dirs: Seq<Direction>)
    requires
        !pre.agent.alive,
    ensures
        run_spec(pre, dirs) == pre,
    decreases dirs.len(),
{
    if dirs.len() > 0 {
        lemma_terminal_death(pre, dirs[0]);
        lemma_terminal_death_run(tick_spec(pre, dirs[0]), dirs.drop_first());
    }
}

} // verus!
