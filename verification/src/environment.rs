//! The world: positions, directions, the grid, food, and the simulation
//! state with its per-tick update rule.

use vstd::prelude::*;
use crate::agent::{
    energy_after_eating, energy_after_step, Agent, AgentView, AGENT_MAX_ENERGY, AGENT_START_X,
    AGENT_START_Y,
};
use crate::rng::random_usize_below;

verus! {

/// A cell coordinate on the grid.  A plain value: two signed coordinates,
/// compared field by field.
#[derive(Clone, Copy, PartialEq, Eq, Structural, Debug)]
pub struct Position {
    pub x: i32,
    pub y: i32,
}

/// The mathematical image of a `Position`: unbounded integers.
pub ghost struct PosView {
    pub x: int,
    pub y: int,
}

impl View for Position {
    type V = PosView;

    open spec fn view(&self) -> PosView {
        PosView { x: self.x as int, y: self.y as int }
    }
}

/// One of the eight compass directions an agent can step in.
#[derive(Clone, Copy, PartialEq, Eq, Structural, Debug)]
pub enum Direction {
    Up,
    Down,
    Left,
    Right,
    UpLeft,
    UpRight,
    DownLeft,
    DownRight,
}

/// The unit offset a direction stands for; the eight directions cover the
/// eight neighbours of a cell.
pub open spec fn dir_offset(dir: Direction) -> PosView {
    match dir {
        Direction::Up => PosView { x: 0, y: -1 },
        Direction::Down => PosView { x: 0, y: 1 },
        Direction::Left => PosView { x: -1, y: 0 },
        Direction::Right => PosView { x: 1, y: 0 },
        Direction::UpLeft => PosView { x: -1, y: -1 },
        Direction::UpRight => PosView { x: 1, y: -1 },
        Direction::DownLeft => PosView { x: -1, y: 1 },
        Direction::DownRight => PosView { x: 1, y: 1 },
    }
}

/// The neighbouring cell reached by stepping once in `dir`.
pub open spec fn moved_pos(p: PosView, dir: Direction) -> PosView {
    PosView { x: p.x + dir_offset(dir).x, y: p.y + dir_offset(dir).y }
}

impl Position {
    /// The cell next to `position` in direction `dir`.  Pure: the caller's
    /// position is not touched.
    pub fn increment(position: &Position, dir: Direction) -> (r: Position)
        requires
            i32::MIN < position.x < i32::MAX,
            i32::MIN < position.y < i32::MAX,
        ensures
            r@ == moved_pos(position@, dir),
    {
        match dir {
            Direction::Up => Position { x: position.x, y: position.y - 1 },
            Direction::Down => Position { x: position.x, y: position.y + 1 },
            Direction::Left => Position { x: position.x - 1, y: position.y },
            Direction::Right => Position { x: position.x + 1, y: position.y },
            Direction::UpLeft => Position { x: position.x - 1, y: position.y - 1 },
            Direction::UpRight => Position { x: position.x + 1, y: position.y - 1 },
            Direction::DownLeft => Position { x: position.x - 1, y: position.y + 1 },
            Direction::DownRight => Position { x: position.x + 1, y: position.y + 1 },
        }
    }
}

/// Which direction each index below eight stands for.
pub open spec fn direction_from_index(i: int) -> Direction {
    if i == 0 {
        Direction::Up
    } else if i == 1 {
        Direction::Down
    } else if i == 2 {
        Direction::Left
    } else if i == 3 {
        Direction::Right
    } else if i == 4 {
        Direction::UpLeft
    } else if i == 5 {
        Direction::UpRight
    } else if i == 6 {
        Direction::DownLeft
    } else {
        Direction::DownRight
    }
}

impl Direction {
    /// The direction standing at `index` in the fixed order of the eight
    /// variants.
    pub fn from_index(index: u32) -> (d: Direction)
        requires
            index < 8,
        ensures
            d == direction_from_index(index as int),
    {
        match index {
            0 => Direction::Up,
            1 => Direction::Down,
            2 => Direction::Left,
            3 => Direction::Right,
            4 => Direction::UpLeft,
            5 => Direction::UpRight,
            6 => Direction::DownLeft,
            _ => Direction::DownRight,
        }
    }
}

/// One of the eight directions, drawn from the random source.  Each variant
/// is a possible outcome; the uniform 1/8 distribution the source provides
/// is not a statement Verus can check.
pub fn random_direction() -> Direction {
    Direction::from_index(random_usize_below(8) as u32)
}

/// The bounded rectangular space the agent and the food occupy.  Immutable
/// for the life of a simulation.
pub struct Grid {
    rows: u32,
    cols: u32,
}

/// The mathematical image of a `Grid`: its two extents as unbounded
/// integers.
pub ghost struct GridView {
    pub rows: int,
    pub cols: int,
}

impl View for Grid {
    type V = GridView;

    closed spec fn view(&self) -> GridView {
        GridView { rows: self.rows as int, cols: self.cols as int }
    }
}

/// A grid a simulation can run on: at least one cell, and small enough that
/// every cell coordinate and every one-step candidate fits an `i32`.
pub open spec fn grid_wf(g: GridView) -> bool {
    &&& 1 <= g.rows <= i32::MAX as int
    &&& 1 <= g.cols <= i32::MAX as int
}

/// Whether `p` is a cell of the grid `g`.
pub open spec fn pos_in_bounds(g: GridView, p: PosView) -> bool {
    &&& 0 <= p.x < g.cols
    &&& 0 <= p.y < g.rows
}

impl Grid {
    /// A grid with the given extents.  The bounds on the arguments are the
    /// machine limits under which positions and their neighbours fit an
    /// `i32`.
    pub fn new(rows: u32, cols: u32) -> (g: Grid)
        requires
            1 <= rows <= i32::MAX as u32,
            1 <= cols <= i32::MAX as u32,
        ensures
            g@ == (GridView { rows: rows as int, cols: cols as int }),
            grid_wf(g@),
    {
        Grid { rows, cols }
    }

    /// The number of rows.
    pub fn rows(&self) -> (r: u32)
        ensures
            r as int == self@.rows,
    {
        self.rows
    }

    /// The number of columns.
    pub fn cols(&self) -> (r: u32)
        ensures
            r as int == self@.cols,
    {
        self.cols
    }

    /// Whether `position` lies on the grid.
    pub fn in_bounds(&self, position: &Position) -> (r: bool)
        ensures
            r == pos_in_bounds(self@, position@),
    {
        position.x >= 0 && position.y >= 0 && (position.x as u64) < (self.cols as u64)
            && (position.y as u64) < (self.rows as u64)
    }

    /// A position drawn uniformly from the cells of the grid.  Every cell is
    /// a possible outcome; nothing more holds of a random draw.
    pub fn random_position(&self) -> (p: Position)
        requires
            grid_wf(self@),
        ensures
            pos_in_bounds(self@, p@),
    {
        let x = random_usize_below(self.cols as usize);
        let y = random_usize_below(self.rows as usize);
        Position { x: x as i32, y: y as i32 }
    }
}

/// The energy one food item restores when eaten.
pub const FOOD_ENERGY: u32 = 100;

/// How many food items a freshly constructed simulation scatters over the
/// grid.
pub const INITIAL_FOOD_COUNT: u32 = 10_000;

/// One consumable unit sitting on a cell.  Created during world
/// initialization and destroyed exactly once, when the agent steps onto its
/// cell.
pub struct Food {
    pub position: Position,
    pub energy: u32,
}

/// The mathematical image of a `Food` item.
pub ghost struct FoodView {
    pub position: PosView,
    pub energy: int,
}

impl View for Food {
    type V = FoodView;

    open spec fn view(&self) -> FoodView {
        FoodView { position: self.position@, energy: self.energy as int }
    }
}

impl Food {
    /// A food item of the fixed energy value, on a cell of `grid` drawn from
    /// the random source.
    pub fn new_in(grid: &Grid) -> (f: Food)
        requires
            grid_wf(grid@),
        ensures
            pos_in_bounds(grid@, f@.position),
            f@.energy == FOOD_ENERGY as int,
    {
        Food { position: grid.random_position(), energy: FOOD_ENERGY }
    }
}

/// Whether some food item of `food` sits on the cell `p`.
pub open spec fn has_food_at(food: Seq<FoodView>, p: PosView) -> bool {
    exists|i: int| 0 <= i < food.len() && food[i].position == p
}

/// The index of the food item sitting on `p`.  Under
/// `distinct_food_positions` there is at most one such index.
pub open spec fn food_index_at(food: Seq<FoodView>, p: PosView) -> int {
    choose|i: int| 0 <= i < food.len() && food[i].position == p
}

/// At most one food item per cell: no two entries of `food` share a
/// position.
pub open spec fn distinct_food_positions(food: Seq<FoodView>) -> bool {
    forall|i: int, j: int|
        0 <= i < j < food.len() ==> #[trigger] food[i].position != #[trigger] food[j].position
}

/// The whole world: the immutable grid, the one agent, and the live food
/// items.  The food collection only shrinks after construction.
pub struct State {
    pub grid: Grid,
    pub agent: Agent,
    pub food: Vec<Food>,
}

/// The mathematical image of the whole world.
#[verifier::ext_equal]
pub ghost struct StateView {
    pub grid: GridView,
    pub agent: AgentView,
    pub food: Seq<FoodView>,
}

impl View for State {
    type V = StateView;

    open spec fn view(&self) -> StateView {
        StateView {
            grid: self.grid@,
            agent: self.agent@,
            food: self.food@.map_values(|f: Food| f@),
        }
    }
}

/// What holds of every reachable world: the grid can be simulated on, the
/// agent stands on it with a clamped reserve that is positive while it
/// lives, and no cell carries two food items.
pub open spec fn state_wf(v: StateView) -> bool {
    &&& grid_wf(v.grid)
    &&& pos_in_bounds(v.grid, v.agent.position)
    &&& 0 <= v.agent.energy <= AGENT_MAX_ENERGY as int
    &&& (v.agent.alive ==> v.agent.energy >= 1)
    &&& distinct_food_positions(v.food)
    &&& forall|i: int| 0 <= i < v.food.len() ==> #[trigger] v.food[i].energy >= 0
}

impl State {
    /// Well-formedness of the world; constructors establish it and every
    /// tick preserves it.
    pub open spec fn wf(&self) -> bool {
        state_wf(self@)
    }

    /// Whether `position` lies on this world's grid.
    pub fn in_bounds(&self, position: &Position) -> (r: bool)
        ensures
            r == pos_in_bounds(self@.grid, position@),
    {
        self.grid.in_bounds(position)
    }

    /// The positions of all live food items, in field order: the read-only
    /// snapshot a host may draw from.
    pub fn food_positions(&self) -> (r: Vec<Position>)
        ensures
            r@.len() == self@.food.len(),
            forall|i: int| 0 <= i < r@.len() ==> (#[trigger] r@[i])@ == self@.food[i].position,
    {
        let mut r: Vec<Position> = Vec::new();
        let mut i: usize = 0;
        while i < self.food.len()
            invariant
                i <= self.food.len(),
                r@.len() == i as int,
                forall|j: int| 0 <= j < i ==> (#[trigger] r@[j])@ == self@.food[j].position,
            decreases self.food.len() - i,
        {
            r.push(self.food[i].position);
            i = i + 1;
        }
        r
    }

    /// Whether a food item sits on `position`.
    pub fn food_at_position(&self, position: &Position) -> (r: bool)
        ensures
            r == has_food_at(self@.food, position@),
    {
        let mut i: usize = 0;
        while i < self.food.len()
            invariant
                i <= self.food.len(),
                forall|j: int| 0 <= j < i ==> #[trigger] self@.food[j].position != position@,
            decreases self.food.len() - i,
        {
            let f = &self.food[i];
            if f.position.x == position.x && f.position.y == position.y {
                proof {
                    assert(self@.food[i as int].position == position@);
                }
                return true;
            }
            i = i + 1;
        }
        false
    }

    /// Removes and returns the food at `position` if one sits there; leaves
    /// the field unchanged otherwise.  The sole consumption operation.
    pub fn take_food_at(&mut self, position: &Position) -> (r: Option<Food>)
        requires
            distinct_food_positions(old(self)@.food),
        ensures
            final(self)@.grid == old(self)@.grid,
            final(self)@.agent == old(self)@.agent,
            ({
                let foods = old(self)@.food;
                if has_food_at(foods, position@) {
                    &&& (r matches Some(f) && f@ == foods[food_index_at(foods, position@)])
                    &&& final(self)@.food == foods.remove(food_index_at(foods, position@))
                } else {
                    &&& r is None
                    &&& final(self)@.food == foods
                }
            }),
    {
        let mut i: usize = 0;
        while i < self.food.len()
            invariant
                *self == *old(self),
                distinct_food_positions(self@.food),
                i <= self.food.len(),
                forall|j: int| 0 <= j < i ==> #[trigger] self@.food[j].position != position@,
            decreases self.food.len() - i,
        {
            let matches_cell = {
                let f = &self.food[i];
                f.position.x == position.x && f.position.y == position.y
            };
            if matches_cell {
                proof {
                    let foods = old(self)@.food;
                    assert(foods[i as int].position == position@);
                    assert(has_food_at(foods, position@));
                    let k = food_index_at(foods, position@);
                    assert(0 <= k < foods.len() && foods[k].position == position@);
                    if k < i as int {
                        assert(foods[k].position != foods[i as int].position);
                    } else if k > i as int {
                        assert(foods[i as int].position != foods[k].position);
                    }
                    assert(k == i as int);
                }
                let f = self.food.remove(i);
                proof {
                    assert(self@.food =~= old(self)@.food.remove(i as int));
                }
                return Some(f);
            }
            i = i + 1;
        }
        None
    }
}

impl State {
    /// A fresh world: a grid of the given extents, the agent at its fixed
    /// start cell with full energy, and the fixed number of food items
    /// scattered over distinct cells.  The bounds on the extents keep the
    /// start cell on the grid and leave the scattering enough room.
    pub fn new(rows: u32, cols: u32) -> (s: State)
        requires
            (AGENT_START_Y as int) < rows as int <= i32::MAX as int,
            (AGENT_START_X as int) < cols as int <= i32::MAX as int,
            (rows as int) * (cols as int) >= INITIAL_FOOD_COUNT as int,
        ensures
            s.wf(),
            s@.grid == (GridView { rows: rows as int, cols: cols as int }),
            s@.agent == (AgentView {
                position: PosView { x: AGENT_START_X as int, y: AGENT_START_Y as int },
                energy: AGENT_MAX_ENERGY as int,
                alive: true,
            }),
            s@.food.len() == INITIAL_FOOD_COUNT as int,
            forall|i: int|
                0 <= i < s@.food.len() ==> pos_in_bounds(s@.grid, #[trigger] s@.food[i].position)
                    && s@.food[i].energy == FOOD_ENERGY as int,
    {
        let grid = Grid::new(rows, cols);
        let agent = Agent::new();
        let mut state = State { grid, agent, food: Vec::new() };
        state.generate_initial_food(INITIAL_FOOD_COUNT);
        state
    }

    /// Replaces the food field with `count` items on distinct random cells:
    /// each item's cell is drawn uniformly from the cells still free, so
    /// that a draw can never collide with an occupied cell and the final
    /// count is exact, never fewer.  The precondition documents the caller
    /// contract that `count` items fit on the grid at all.
    pub fn generate_initial_food(&mut self, count: u32)
        requires
            old(self).wf(),
            count as int <= old(self)@.grid.rows * old(self)@.grid.cols,
        ensures
            final(self).wf(),
            final(self)@.grid == old(self)@.grid,
            final(self)@.agent == old(self)@.agent,
            final(self)@.food.len() == count as int,
            forall|i: int|
                0 <= i < count as int ==> pos_in_bounds(
                    final(self)@.grid,
                    #[trigger] final(self)@.food[i].position,
                ) && final(self)@.food[i].energy == FOOD_ENERGY as int,
    {
        self.food = Vec::new();
        let mut free = all_cells(&self.grid);
        while self.food.len() < count as usize
            invariant
                self@.grid == old(self)@.grid,
                self@.agent == old(self)@.agent,
                state_wf(self@),
                grid_wf(self@.grid),
                count as int <= self@.grid.rows * self@.grid.cols,
                self@.food.len() + free@.len() == self@.grid.rows * self@.grid.cols,
                self@.food.len() <= count as int,
                forall|k: int|
                    0 <= k < free@.len() ==> pos_in_bounds(self@.grid, (#[trigger] free@[k])@),
                forall|a: int, b: int|
                    0 <= a < b < free@.len() ==> (#[trigger] free@[a])@ != (#[trigger] free@[b])@,
                forall|a: int, b: int|
                    0 <= a < free@.len() && 0 <= b < self@.food.len() ==> (#[trigger] free@[a])@
                        != (#[trigger] self@.food[b]).position,
                forall|i: int|
                    0 <= i < self@.food.len() ==> pos_in_bounds(
                        self@.grid,
                        #[trigger] self@.food[i].position,
                    ) && self@.food[i].energy == FOOD_ENERGY as int,
            decreases count as int - self@.food.len(),
        {
            let idx = random_usize_below(free.len());
            let ghost prev_free = free@;
            let cell = free.swap_remove(idx);
            proof {
                assert(cell == prev_free[idx as int]);
                assert forall|a: int| 0 <= a < free@.len() implies (#[trigger] free@[a])@
                    != cell@ && pos_in_bounds(self@.grid, free@[a]@) by {
                    let a0 = if a == idx as int { prev_free.len() - 1 } else { a };
                    assert(free@[a] == prev_free[a0]);
                    if a0 < idx as int {
                        assert(prev_free[a0]@ != prev_free[idx as int]@);
                    } else if a0 > idx as int {
                        assert(prev_free[idx as int]@ != prev_free[a0]@);
                    }
                }
                assert forall|a: int, b: int| 0 <= a < b < free@.len() implies (
                #[trigger] free@[a])@ != (#[trigger] free@[b])@ by {
                    let a0 = if a == idx as int { prev_free.len() - 1 } else { a };
                    let b0 = if b == idx as int { prev_free.len() - 1 } else { b };
                    assert(free@[a] == prev_free[a0]);
                    assert(free@[b] == prev_free[b0]);
                    if a0 < b0 {
                        assert(prev_free[a0]@ != prev_free[b0]@);
                    } else {
                        assert(prev_free[b0]@ != prev_free[a0]@);
                    }
                }
                assert forall|a: int, b: int| 0 <= a < free@.len() && 0 <= b < self@.food.len()
                    implies (#[trigger] free@[a])@ != (#[trigger] self@.food[b]).position by {
                    let a0 = if a == idx as int { prev_free.len() - 1 } else { a };
                    assert(free@[a] == prev_free[a0]);
                }
            }
            let ghost prev_food = self@.food;
            self.food.push(Food { position: cell, energy: FOOD_ENERGY });
            proof {
                assert(self@.food =~= prev_food.push(
                    FoodView { position: cell@, energy: FOOD_ENERGY as int },
                ));
                assert forall|a: int, b: int| 0 <= a < b < self@.food.len()
                    implies #[trigger] self@.food[a].position != #[trigger] self@.food[b].position by {
                    assert(self@.food[a] == prev_food[a]);
                    if b == prev_food.len() {
                        assert(self@.food[b].position == cell@);
                        assert(prev_free[idx as int]@ != prev_food[a].position);
                    } else {
                        assert(self@.food[b] == prev_food[b]);
                    }
                }
            }
        }
    }

    /// Advances the world by one tick in the given direction: the whole
    /// per-tick rule, movement, energy accounting, consumption and the
    /// death check, with the randomness fixed by the caller.
    pub fn step_agent(&mut self, direction: Direction)
        requires
            old(self).wf(),
        ensures
            final(self).wf(),
            final(self)@ == tick_spec(old(self)@, direction),
    {
        if self.agent.alive {
            let candidate = Position::increment(&self.agent.position, direction);
            if self.grid.in_bounds(&candidate) {
                self.agent.step_to(candidate);
                let taken = self.take_food_at(&candidate);
                match taken {
                    Some(food) => self.agent.eat_food(&food),
                    None => {},
                }
                self.agent.maybe_die();
            } else {
                self.agent.expend_step_energy();
                self.agent.maybe_die();
            }
        }
        proof {
            assert(self@ =~= tick_spec(old(self)@, direction));
            lemma_tick_preserves_wf(old(self)@, direction);
        }
    }

    /// Advances the world by one tick, drawing the direction from the
    /// random source.  Whatever was drawn, the outcome is one tick of the
    /// per-tick rule.
    pub fn update(&mut self)
        requires
            old(self).wf(),
        ensures
            final(self).wf(),
            exists|dir: Direction| final(self)@ == tick_spec(old(self)@, dir),
    {
        let direction = random_direction();
        self.step_agent(direction);
        proof {
            assert(self@ == tick_spec(old(self)@, direction));
        }
    }
}

/// Every cell of the grid, row by row: the pool the initial food placement
/// draws from.
fn all_cells(grid: &Grid) -> (cells: Vec<Position>)
    requires
        grid_wf(grid@),
    ensures
        cells@.len() == grid@.rows * grid@.cols,
        forall|k: int| 0 <= k < cells@.len() ==> pos_in_bounds(grid@, (#[trigger] cells@[k])@),
        forall|a: int, b: int|
            0 <= a < b < cells@.len() ==> (#[trigger] cells@[a])@ != (#[trigger] cells@[b])@,
{
    let rows = grid.rows();
    let cols = grid.cols();
    let mut cells: Vec<Position> = Vec::new();
    let mut y: u32 = 0;
    while y < rows
        invariant
            y <= rows,
            rows as int == grid@.rows,
            cols as int == grid@.cols,
            grid_wf(grid@),
            cells@.len() == y as int * cols as int,
            forall|k: int|
                0 <= k < cells@.len() ==> pos_in_bounds(grid@, (#[trigger] cells@[k])@)
                    && cells@[k]@.y < y as int,
            forall|a: int, b: int|
                0 <= a < b < cells@.len() ==> (#[trigger] cells@[a])@ != (#[trigger] cells@[b])@,
        decreases rows - y,
    {
        let mut x: u32 = 0;
        while x < cols
            invariant
                x <= cols,
                y < rows,
                rows as int == grid@.rows,
                cols as int == grid@.cols,
                grid_wf(grid@),
                cells@.len() == y as int * cols as int + x as int,
                forall|k: int|
                    0 <= k < cells@.len() ==> pos_in_bounds(grid@, (#[trigger] cells@[k])@) && (
                    cells@[k]@.y < y as int || (cells@[k]@.y == y as int && cells@[k]@.x
                        < x as int)),
                forall|a: int, b: int|
                    0 <= a < b < cells@.len() ==> (#[trigger] cells@[a])@ != (
                    #[trigger] cells@[b])@,
            decreases cols - x,
        {
            let ghost prev = cells@;
            cells.push(Position { x: x as i32, y: y as i32 });
            proof {
                assert forall|a: int, b: int| 0 <= a < b < cells@.len() implies (
                #[trigger] cells@[a])@ != (#[trigger] cells@[b])@ by {
                    assert(cells@[a] == prev[a]);
                    if b < prev.len() {
                        assert(cells@[b] == prev[b]);
                    }
                }
            }
            x = x + 1;
        }
        proof {
            assert((y as int + 1) * (cols as int) == y as int * cols as int + cols as int)
                by (nonlinear_arith);
        }
        y = y + 1;
    }
    cells
}

/// One tick of the world, as a function of the pre-tick world and the drawn
/// direction.
///
/// A dead agent is left untouched.  A live one pays the fixed step cost
/// whether or not its move succeeds; it moves exactly when the candidate
/// cell lies on the grid, eats whatever food sits on the cell it moved to,
/// and dies exactly when its reserve is exhausted afterwards.
pub open spec fn tick_spec(pre: StateView, dir: Direction) -> StateView {
    if !pre.agent.alive {
        pre
    } else {
        let candidate = moved_pos(pre.agent.position, dir);
        let e_stepped = energy_after_step(pre.agent.energy);
        if pos_in_bounds(pre.grid, candidate) {
            if has_food_at(pre.food, candidate) {
                let i = food_index_at(pre.food, candidate);
                let e = energy_after_eating(e_stepped, pre.food[i].energy);
                StateView {
                    grid: pre.grid,
                    agent: AgentView { position: candidate, energy: e, alive: e > 0 },
                    food: pre.food.remove(i),
                }
            } else {
                StateView {
                    grid: pre.grid,
                    agent: AgentView {
                        position: candidate,
                        energy: e_stepped,
                        alive: e_stepped > 0,
                    },
                    food: pre.food,
                }
            }
        } else {
            StateView {
                grid: pre.grid,
                agent: AgentView {
                    position: pre.agent.position,
                    energy: e_stepped,
                    alive: e_stepped > 0,
                },
                food: pre.food,
            }
        }
    }
}

/// A tick keeps the world well-formed: the agent stays on the grid, its
/// reserve stays clamped, and no cell ever gains a second food item.
pub proof fn lemma_tick_preserves_wf(pre: StateView, dir: Direction)
    requires
        state_wf(pre),
    ensures
        state_wf(tick_spec(pre, dir)),
{
    let post = tick_spec(pre, dir);
    if pre.agent.alive {
        let candidate = moved_pos(pre.agent.position, dir);
        if pos_in_bounds(pre.grid, candidate) && has_food_at(pre.food, candidate) {
            let i = food_index_at(pre.food, candidate);
            assert(0 <= i < pre.food.len() && pre.food[i].position == candidate);
            assert forall|a: int, b: int| 0 <= a < b < post.food.len() implies #[trigger] post
                .food[a].position != #[trigger] post.food[b].position by {
                let a0 = if a < i { a } else { a + 1 };
                let b0 = if b < i { b } else { b + 1 };
                assert(post.food[a] == pre.food[a0]);
                assert(post.food[b] == pre.food[b0]);
            }
            assert forall|a: int| 0 <= a < post.food.len() implies #[trigger] post.food[a].energy
                >= 0 by {
                let a0 = if a < i { a } else { a + 1 };
                assert(post.food[a] == pre.food[a0]);
            }
        }
    }
}

} // verus!
