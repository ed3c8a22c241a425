use gridworld::agent::Agent;
use gridworld::environment::{Direction, Food, Grid, Position, State};

fn world(rows: u32, cols: u32, x: i32, y: i32, energy: u32, food: Vec<Food>) -> State {
    State {
        grid: Grid::new(rows, cols),
        agent: Agent { position: Position { x, y }, energy, alive: true },
        food,
    }
}

#[test]
fn scenario_perimeter_walk() {
    let mut s = world(2, 2, 0, 0, 100, Vec::new());
    let tour = [
        (Direction::Right, Position { x: 1, y: 0 }),
        (Direction::Down, Position { x: 1, y: 1 }),
        (Direction::Left, Position { x: 0, y: 1 }),
        (Direction::Up, Position { x: 0, y: 0 }),
    ];
    let mut expected_energy = 100;
    for (dir, expected) in tour {
        s.step_agent(dir);
        expected_energy -= 1;
        assert_eq!(s.agent.position, expected);
        assert_eq!(s.agent.energy, expected_energy);
        assert!(s.agent.alive);
    }
    assert_eq!(s.agent.energy, 96);
}

#[test]
fn scenario_single_cell_starvation() {
    let mut s = world(1, 1, 0, 0, 100, Vec::new());
    let dirs = [
        Direction::Up,
        Direction::Down,
        Direction::Left,
        Direction::Right,
        Direction::UpLeft,
        Direction::UpRight,
        Direction::DownLeft,
        Direction::DownRight,
    ];
    for tick in 1..=100u32 {
        s.step_agent(dirs[(tick as usize) % dirs.len()]);
        assert_eq!(s.agent.position, Position { x: 0, y: 0 });
        assert_eq!(s.agent.energy, 100 - tick);
    }
    assert!(!s.agent.alive);
    for tick in 0..5 {
        s.step_agent(dirs[tick % dirs.len()]);
        assert_eq!(s.agent.position, Position { x: 0, y: 0 });
        assert_eq!(s.agent.energy, 0);
        assert!(!s.agent.alive);
    }
}

#[test]
fn scenario_move_onto_food() {
    let food = vec![Food { position: Position { x: 1, y: 0 }, energy: 100 }];
    let mut s = world(3, 3, 1, 1, 100, food);
    s.step_agent(Direction::Up);
    assert_eq!(s.agent.position, Position { x: 1, y: 0 });
    assert_eq!(s.food.len(), 0);
    assert!(!s.food_at_position(&Position { x: 1, y: 0 }));
    assert_eq!(s.agent.energy, 100);
    assert!(s.agent.alive);
}

#[test]
fn scenario_full_population() {
    let mut s = world(2, 2, 0, 0, 100, Vec::new());
    s.generate_initial_food(4);
    assert_eq!(s.food.len(), 4);
    for y in 0..2 {
        for x in 0..2 {
            assert!(s.food_at_position(&Position { x, y }));
        }
    }
}

#[test]
fn energy_formula_with_partial_energy() {
    let food = vec![Food { position: Position { x: 1, y: 0 }, energy: 30 }];
    let mut s = world(3, 3, 1, 1, 50, food);
    s.step_agent(Direction::Up);
    assert_eq!(s.agent.energy, 79);
    assert!(s.agent.alive);
}

#[test]
fn eating_forestalls_death() {
    let food = vec![Food { position: Position { x: 1, y: 0 }, energy: 100 }];
    let mut s = world(3, 3, 1, 1, 1, food);
    s.step_agent(Direction::Up);
    assert_eq!(s.agent.energy, 100);
    assert!(s.agent.alive);
}

#[test]
fn starving_step_kills() {
    let mut s = world(3, 3, 1, 1, 1, Vec::new());
    s.step_agent(Direction::Up);
    assert_eq!(s.agent.energy, 0);
    assert!(!s.agent.alive);
    s.step_agent(Direction::Down);
    assert_eq!(s.agent.position, Position { x: 1, y: 0 });
    assert_eq!(s.agent.energy, 0);
    assert!(!s.agent.alive);
}

#[test]
fn worthless_food_does_not_forestall_death() {
    let food = vec![Food { position: Position { x: 1, y: 0 }, energy: 0 }];
    let mut s = world(3, 3, 1, 1, 1, food);
    s.step_agent(Direction::Up);
    assert_eq!(s.agent.position, Position { x: 1, y: 0 });
    assert_eq!(s.food.len(), 0);
    assert_eq!(s.agent.energy, 0);
    assert!(!s.agent.alive);
}

#[test]
fn out_of_bounds_step_costs_energy() {
    let food = vec![Food { position: Position { x: 1, y: 1 }, energy: 100 }];
    let mut s = world(2, 2, 0, 0, 100, food);
    s.step_agent(Direction::UpLeft);
    assert_eq!(s.agent.position, Position { x: 0, y: 0 });
    assert_eq!(s.agent.energy, 99);
    assert_eq!(s.food.len(), 1);
}

#[test]
fn take_food_at_removes_only_that_cell() {
    let food = vec![
        Food { position: Position { x: 0, y: 0 }, energy: 100 },
        Food { position: Position { x: 1, y: 1 }, energy: 100 },
    ];
    let mut s = world(2, 2, 0, 1, 100, food);
    let taken = s.take_food_at(&Position { x: 1, y: 1 });
    let taken = taken.expect("food was present");
    assert_eq!(taken.position, Position { x: 1, y: 1 });
    assert_eq!(taken.energy, 100);
    assert_eq!(s.food.len(), 1);
    assert!(s.food_at_position(&Position { x: 0, y: 0 }));
    assert!(!s.food_at_position(&Position { x: 1, y: 1 }));
    assert!(s.take_food_at(&Position { x: 1, y: 1 }).is_none());
    assert_eq!(s.food.len(), 1);
}

#[test]
fn food_positions_snapshot_matches_field() {
    let food = vec![
        Food { position: Position { x: 0, y: 0 }, energy: 100 },
        Food { position: Position { x: 2, y: 1 }, energy: 100 },
    ];
    let s = world(3, 3, 1, 1, 100, food);
    let positions = s.food_positions();
    assert_eq!(positions, vec![Position { x: 0, y: 0 }, Position { x: 2, y: 1 }]);
}

#[test]
fn food_queries_see_exact_cells() {
    let food = vec![Food { position: Position { x: 2, y: 0 }, energy: 100 }];
    let s = world(3, 3, 1, 1, 100, food);
    assert!(s.food_at_position(&Position { x: 2, y: 0 }));
    assert!(!s.food_at_position(&Position { x: 0, y: 2 }));
}

#[test]
fn populate_single_cell_grid() {
    let mut s = world(1, 1, 0, 0, 100, Vec::new());
    s.generate_initial_food(1);
    assert_eq!(s.food.len(), 1);
    assert_eq!(s.food[0].position, Position { x: 0, y: 0 });
    assert_eq!(s.food[0].energy, 100);
}

#[test]
fn new_world_defaults() {
    let s = State::new(128, 128);
    assert_eq!(s.grid.rows(), 128);
    assert_eq!(s.grid.cols(), 128);
    assert_eq!(s.agent.position, Position { x: 50, y: 50 });
    assert_eq!(s.agent.energy, 100);
    assert!(s.agent.alive);
    assert_eq!(s.food.len(), 10_000);

    let mut occupied = vec![vec![false; 128]; 128];
    for f in &s.food {
        assert!(s.in_bounds(&f.position));
        assert_eq!(f.energy, 100);
        let (x, y) = (f.position.x as usize, f.position.y as usize);
        assert!(!occupied[y][x], "two food items share a cell");
        occupied[y][x] = true;
    }
}

#[test]
fn random_run_keeps_invariants() {
    let mut s = State::new(128, 128);
    let mut prev_food = s.food.len();
    let mut died_at: Option<(Position, u32)> = None;
    for _ in 0..300 {
        s.update();
        assert!(s.in_bounds(&s.agent.position));
        assert!(s.agent.energy <= 100);
        assert!(s.food.len() == prev_food || s.food.len() + 1 == prev_food);
        prev_food = s.food.len();
        if let Some((pos, energy)) = died_at {
            assert_eq!(s.agent.position, pos);
            assert_eq!(s.agent.energy, energy);
            assert!(!s.agent.alive);
        } else if !s.agent.alive {
            died_at = Some((s.agent.position, s.agent.energy));
        }
    }
}

#[test]
fn direction_index_mapping() {
    let expected = [
        Direction::Up,
        Direction::Down,
        Direction::Left,
        Direction::Right,
        Direction::UpLeft,
        Direction::UpRight,
        Direction::DownLeft,
        Direction::DownRight,
    ];
    for (i, dir) in expected.iter().enumerate() {
        assert_eq!(Direction::from_index(i as u32), *dir);
    }
}

#[test]
fn increment_reaches_all_neighbours() {
    let here = Position { x: 5, y: 5 };
    let cases = [
        (Direction::Up, 5, 4),
        (Direction::Down, 5, 6),
        (Direction::Left, 4, 5),
        (Direction::Right, 6, 5),
        (Direction::UpLeft, 4, 4),
        (Direction::UpRight, 6, 4),
        (Direction::DownLeft, 4, 6),
        (Direction::DownRight, 6, 6),
    ];
    for (dir, x, y) in cases {
        assert_eq!(Position::increment(&here, dir), Position { x, y });
    }
}

#[test]
fn grid_bounds_edges() {
    let g = Grid::new(2, 3);
    assert!(g.in_bounds(&Position { x: 0, y: 0 }));
    assert!(g.in_bounds(&Position { x: 2, y: 1 }));
    assert!(!g.in_bounds(&Position { x: 3, y: 1 }));
    assert!(!g.in_bounds(&Position { x: 2, y: 2 }));
    assert!(!g.in_bounds(&Position { x: -1, y: 0 }));
    assert!(!g.in_bounds(&Position { x: 0, y: -1 }));
}

#[test]
fn new_food_lands_on_grid() {
    let g = Grid::new(3, 3);
    for _ in 0..30 {
        let f = Food::new_in(&g);
        assert!(g.in_bounds(&f.position));
        assert_eq!(f.energy, 100);
    }
}

#[test]
fn random_positions_stay_in_bounds() {
    let g = Grid::new(4, 4);
    for _ in 0..64 {
        let p = g.random_position();
        assert!(g.in_bounds(&p));
    }
}
