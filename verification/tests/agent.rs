use gridworld::agent::{Agent, AgentAction};
use gridworld::environment::{Food, Position};

fn agent_at(x: i32, y: i32, energy: u32, alive: bool) -> Agent {
    Agent { position: Position { x, y }, energy, alive }
}

#[test]
fn new_agent_defaults() {
    let a = Agent::new();
    assert_eq!(a.position, Position { x: 50, y: 50 });
    assert_eq!(a.energy, 100);
    assert!(a.alive);
    assert!(a.alive());
}

#[test]
fn eat_food_adds_exactly() {
    let mut a = agent_at(0, 0, 50, true);
    let food = Food { position: Position { x: 0, y: 0 }, energy: 30 };
    a.eat_food(&food);
    assert_eq!(a.energy, 80);
}

#[test]
fn eat_food_clamps_at_max() {
    let mut a = agent_at(0, 0, 90, true);
    let food = Food { position: Position { x: 0, y: 0 }, energy: 30 };
    a.eat_food(&food);
    assert_eq!(a.energy, 100);
}

#[test]
fn step_to_moves_and_charges() {
    let mut a = agent_at(3, 4, 100, true);
    a.step_to(Position { x: 4, y: 4 });
    assert_eq!(a.position, Position { x: 4, y: 4 });
    assert_eq!(a.energy, 99);
    assert!(a.alive);
}

#[test]
fn step_to_clamps_at_zero() {
    let mut a = agent_at(3, 4, 0, false);
    a.step_to(Position { x: 3, y: 5 });
    assert_eq!(a.energy, 0);
}

#[test]
fn should_die_exactly_at_zero() {
    assert!(agent_at(0, 0, 0, true).should_die());
    assert!(!agent_at(0, 0, 1, true).should_die());
}

#[test]
fn maybe_die_kills_only_exhausted() {
    let mut hungry = agent_at(0, 0, 0, true);
    hungry.maybe_die();
    assert!(!hungry.alive);

    let mut fed = agent_at(0, 0, 7, true);
    fed.maybe_die();
    assert!(fed.alive);
}

#[test]
fn die_is_idempotent() {
    let mut a = agent_at(0, 0, 5, true);
    a.die();
    assert!(!a.alive);
    a.die();
    assert!(!a.alive);
    a.maybe_die();
    assert!(!a.alive);
}

#[test]
fn preferred_action_is_a_step() {
    let a = Agent::new();
    let AgentAction::Step(_direction) = Agent::preferred_action(&a);
}
