//! A square grid world: the agent starts in the top-left cell and tries to
//! reach the bottom-right cell (the goal) without falling into a hole.
//!
//! Cells are numbered row by row, `row * size + col`. Actions are
//! `0` (up), `1` (right), `2` (down) and `3` (left); any other action leaves
//! the agent where it is, and so does a move into the border.

use vstd::prelude::*;

use rand::rngs::StdRng;

use crate::rng::seeded;
use crate::spaces::Discrete;

verus! {

/// Reward for a step that ends on the goal.
pub const GOAL_REWARD: i32 = 10;

/// Reward for a step that ends in a hole.
pub const HOLE_REWARD: i32 = -10;

/// Reward for any other step.
pub const STEP_REWARD: i32 = -1;

/// `v` confined to `[lo, hi]`.
pub open spec fn clamp(v: int, lo: int, hi: int) -> int {
    if v < lo {
        lo
    } else if v > hi {
        hi
    } else {
        v
    }
}

/// The change of row that an action asks for.
pub open spec fn row_delta(action: int) -> int {
    if action == 0 {
        -1
    } else if action == 2 {
        1
    } else {
        0
    }
}

/// The change of column that an action asks for.
pub open spec fn col_delta(action: int) -> int {
    if action == 1 {
        1
    } else if action == 3 {
        -1
    } else {
        0
    }
}

/// The cell reached from `state` by `action` on a `size` x `size` grid.
pub open spec fn next_cell(size: int, state: int, action: int) -> int {
    let row = state / size;
    let col = state % size;
    clamp(row + row_delta(action), 0, size - 1) * size + clamp(col + col_delta(action), 0, size - 1)
}

/// The reward for a step that ends in `cell`.
pub open spec fn cell_reward(goal: int, holes: Seq<usize>, cell: int) -> int {
    if cell == goal {
        GOAL_REWARD as int
    } else if exists|i: int| 0 <= i < holes.len() && holes[i] == cell {
        HOLE_REWARD as int
    } else {
        STEP_REWARD as int
    }
}

/// Whether a step that ends in `cell` ends the episode.
pub open spec fn cell_terminates(goal: int, holes: Seq<usize>, cell: int) -> bool {
    cell == goal || exists|i: int| 0 <= i < holes.len() && holes[i] == cell
}

/// Row `r`, column `c` of a `size` x `size` grid is a cell of the grid, and
/// the cell number gives back its row and column.
pub proof fn lemma_cell_index(size: int, r: int, c: int)
    requires
        0 <= r < size,
        0 <= c < size,
    ensures
        0 <= r * size + c < size * size,
        (r * size + c) / size == r,
        (r * size + c) % size == c,
{
    assert(0 <= r * size + c < size * size) by (nonlinear_arith)
        requires
            0 <= r < size,
            0 <= c < size,
    ;
    vstd::arithmetic::div_mod::lemma_fundamental_div_mod_converse(r * size + c, size, r, c);
}

/// A cell of the grid lies in a row and a column of the grid.
pub proof fn lemma_row_col(size: int, state: int)
    requires
        0 < size,
        0 <= state < size * size,
    ensures
        0 <= state / size < size,
        0 <= state % size < size,
        state == (state / size) * size + state % size,
{
    vstd::arithmetic::div_mod::lemma_fundamental_div_mod(state, size);
    let q = state / size;
    let m = state % size;
    assert(0 <= m < size);
    assert(0 <= q < size) by (nonlinear_arith)
        requires
            state == size * q + m,
            0 <= m < size,
            0 <= state < size * size,
            0 < size,
    ;
    assert(size * q == q * size) by (nonlinear_arith);
}

/// Every move ends on a cell of the grid.
pub proof fn lemma_move_stays_on_grid(size: int, state: int, action: int)
    requires
        0 < size,
        0 <= state < size * size,
    ensures
        0 <= next_cell(size, state, action) < size * size,
{
    lemma_row_col(size, state);
    let r = clamp(state / size + row_delta(action), 0, size - 1);
    let c = clamp(state % size + col_delta(action), 0, size - 1);
    lemma_cell_index(size, r, c);
}

/// A move changes the row or the column by at most one, never both.
pub proof fn lemma_move_to_neighbour(size: int, state: int, action: int)
    requires
        0 < size,
        0 <= state < size * size,
    ensures
        ({
            let next = next_cell(size, state, action);
            let dr = next / size - state / size;
            let dc = next % size - state % size;
            &&& -1 <= dr <= 1
            &&& -1 <= dc <= 1
            &&& dr == 0 || dc == 0
        }),
{
    lemma_row_col(size, state);
    let r = clamp(state / size + row_delta(action), 0, size - 1);
    let c = clamp(state % size + col_delta(action), 0, size - 1);
    lemma_cell_index(size, r, c);
}

/// An action other than the four moves leaves the agent in place.
pub proof fn lemma_other_action_stays(size: int, state: int, action: int)
    requires
        0 < size,
        0 <= state < size * size,
        !(0 <= action < 4),
    ensures
        next_cell(size, state, action) == state,
{
    lemma_row_col(size, state);
}

/// The four moves on a `size` x `size` grid, in cell numbers: up (0) goes
/// to the cell `size` lower unless the agent is in the top row, right (1)
/// to the next cell unless it is in the last column, down (2) to the cell
/// `size` higher unless it is in the bottom row, and left (3) to the
/// previous cell unless it is in the first column; at a wall the agent
/// stays where it is.
pub proof fn lemma_moves(size: int, state: int)
    requires
        0 < size,
        0 <= state < size * size,
    ensures
        state >= size ==> next_cell(size, state, 0) == state - size,
        state < size ==> next_cell(size, state, 0) == state,
        state % size < size - 1 ==> next_cell(size, state, 1) == state + 1,
        state % size == size - 1 ==> next_cell(size, state, 1) == state,
        state + size < size * size ==> next_cell(size, state, 2) == state + size,
        state + size >= size * size ==> next_cell(size, state, 2) == state,
        state % size > 0 ==> next_cell(size, state, 3) == state - 1,
        state % size == 0 ==> next_cell(size, state, 3) == state,
{
    lemma_row_col(size, state);
    let q = state / size;
    let m = state % size;
    assert(state == q * size + m);
    // The top row is the row 0, the bottom row is the row `size - 1`.
    assert(state >= size <==> q >= 1) by (nonlinear_arith)
        requires
            state == q * size + m,
            0 <= m < size,
            0 <= q,
    ;
    assert(state + size < size * size <==> q + 1 < size) by (nonlinear_arith)
        requires
            state == q * size + m,
            0 <= m < size,
            0 <= q < size,
    ;
    assert((q - 1) * size + m == state - size) by (nonlinear_arith)
        requires
            state == q * size + m,
    ;
    assert((q + 1) * size + m == state + size) by (nonlinear_arith)
        requires
            state == q * size + m,
    ;
}

/// What one step reports.
#[derive(Debug, Clone)]
pub struct GridStep {
    pub observation: usize,
    pub reward: i32,
    pub terminated: bool,
    pub truncated: bool,
}

/// The grid world.
pub struct GridWorld {
    size: usize,
    state: usize,
    holes: Vec<usize>,
    goal: usize,
    obs_space: Discrete,
    act_space: Discrete,
    rng: StdRng,
}

impl GridWorld {
    /// The invariant kept by every operation: the grid is not empty, its
    /// cell count fits a `usize`, the goal is the last cell, the agent is on
    /// a cell of the grid, and the spaces describe the grid and the four
    /// moves.
    pub closed spec fn wf(&self) -> bool {
        &&& self.size > 0
        &&& self.size * self.size <= usize::MAX
        &&& self.goal == self.size * self.size - 1
        &&& self.state < self.size * self.size
        &&& self.obs_space.n == self.size * self.size
        &&& self.act_space.n == 4
    }

    /// The side length of the grid.
    pub closed spec fn spec_size(&self) -> int {
        self.size as int
    }

    /// The cell the agent is on.
    pub closed spec fn spec_state(&self) -> int {
        self.state as int
    }

    /// The hole cells.
    pub closed spec fn spec_holes(&self) -> Seq<usize> {
        self.holes@
    }

    /// The goal cell.
    pub closed spec fn spec_goal(&self) -> int {
        self.goal as int
    }

    /// The generator the environment holds.
    pub closed spec fn spec_rng(&self) -> StdRng {
        self.rng
    }

    /// The goal is the last cell of the grid.
    pub proof fn lemma_goal_is_last_cell(&self)
        requires
            self.wf(),
        ensures
            self.spec_goal() == self.spec_size() * self.spec_size() - 1,
            0 <= self.spec_state() < self.spec_size() * self.spec_size(),
    {
    }

    /// A `size` x `size` grid with the given holes; the agent starts on
    /// cell 0 and the goal is the last cell.
    pub fn new(size: usize, holes: Vec<usize>, seed: u64) -> (env: Self)
        requires
            size > 0,
            size * size <= usize::MAX,
        ensures
            env.wf(),
            env.spec_size() == size,
            env.spec_state() == 0,
            env.spec_holes() == holes@,
            env.spec_goal() == size * size - 1,
    {
        let n = size * size;
        assert(n >= 1) by (nonlinear_arith)
            requires
                n == size * size,
                size > 0,
        ;
        let goal = n - 1;
        Self {
            size,
            state: 0,
            holes,
            goal,
            obs_space: Discrete::new(n),
            act_space: Discrete::new(4),
            rng: seeded(seed),
        }
    }

    /// The 4 x 4 grid with holes at cells 5, 7, 11 and 12.
    pub fn default() -> (env: Self)
        ensures
            env.wf(),
            env.spec_size() == 4,
            env.spec_state() == 0,
            env.spec_holes() == seq![5usize, 7usize, 11usize, 12usize],
            env.spec_goal() == 15,
    {
        let mut holes: Vec<usize> = Vec::new();
        holes.push(5);
        holes.push(7);
        holes.push(11);
        holes.push(12);
        let env = Self::new(4, holes, 0);
        assert(env.spec_holes() =~= seq![5usize, 7usize, 11usize, 12usize]);
        env
    }

    /// The cell reached from `state` by `action`.
    fn move_agent(&self, state: usize, action: usize) -> (next: usize)
        requires
            self.wf(),
            state < self.size * self.size,
        ensures
            next == next_cell(self.size as int, state as int, action as int),
            next < self.size * self.size,
    {
        let size = self.size;
        proof {
            lemma_row_col(size as int, state as int);
        }
        let row = state / size;
        let col = state % size;
        let new_row = if action == 0 {
            if row > 0 {
                row - 1
            } else {
                0
            }
        } else if action == 2 {
            if row + 1 < size {
                row + 1
            } else {
                size - 1
            }
        } else {
            row
        };
        let new_col = if action == 1 {
            if col + 1 < size {
                col + 1
            } else {
                size - 1
            }
        } else if action == 3 {
            if col > 0 {
                col - 1
            } else {
                0
            }
        } else {
            col
        };
        proof {
            lemma_cell_index(size as int, new_row as int, new_col as int);
        }
        new_row * size + new_col
    }

    /// Whether `cell` is one of the holes.
    fn is_hole(&self, cell: usize) -> (b: bool)
        ensures
            b == exists|i: int| 0 <= i < self.holes@.len() && self.holes@[i] == cell,
    {
        let mut i: usize = 0;
        while i < self.holes.len()
            invariant
                i <= self.holes.len(),
                forall|k: int| 0 <= k < i ==> self.holes@[k] != cell,
            decreases self.holes.len() - i,
        {
            if self.holes[i] == cell {
                return true;
            }
            i = i + 1;
        }
        false
    }

    /// Puts the agent back on cell 0 and returns that cell. With a seed, the
    /// environment's generator is first re-created from it.
    pub fn reset(&mut self, seed: Option<u64>) -> (obs: usize)
        requires
            old(self).wf(),
        ensures
            final(self).wf(),
            obs == 0,
            final(self).spec_state() == 0,
            final(self).spec_size() == old(self).spec_size(),
            final(self).spec_holes() == old(self).spec_holes(),
            final(self).spec_goal() == old(self).spec_goal(),
            seed is None ==> final(self).spec_rng() == old(self).spec_rng(),
    {
        if let Some(s) = seed {
            self.rng = seeded(s);
        }
        self.state = 0;
        self.state
    }

    /// Moves the agent by `action` and reports where it landed, the reward
    /// and whether the episode is over.
    pub fn step(&mut self, action: &usize) -> (step: GridStep)
        requires
            old(self).wf(),
        ensures
            final(self).wf(),
            final(self).spec_state() == next_cell(
                old(self).spec_size(),
                old(self).spec_state(),
                *action as int,
            ),
            final(self).spec_size() == old(self).spec_size(),
            final(self).spec_holes() == old(self).spec_holes(),
            final(self).spec_goal() == old(self).spec_goal(),
            final(self).spec_rng() == old(self).spec_rng(),
            step.observation == final(self).spec_state(),
            step.reward == cell_reward(
                old(self).spec_goal(),
                old(self).spec_holes(),
                final(self).spec_state(),
            ),
            step.terminated == cell_terminates(
                old(self).spec_goal(),
                old(self).spec_holes(),
                final(self).spec_state(),
            ),
            !step.truncated,
    {
        let next_state = self.move_agent(self.state, *action);
        self.state = next_state;
        let mut reward = STEP_REWARD;
        let mut terminated = false;
        if self.state == self.goal {
            reward = GOAL_REWARD;
            terminated = true;
        } else if self.is_hole(self.state) {
            reward = HOLE_REWARD;
            terminated = true;
        }
        GridStep { observation: self.state, reward, terminated, truncated: false }
    }

    /// The space of observations: the cells of the grid.
    pub fn observation_space(&self) -> (space: &Discrete)
        requires
            self.wf(),
        ensures
            space.n == self.spec_size() * self.spec_size(),
    {
        &self.obs_space
    }

    /// The space of actions: the four moves.
    pub fn action_space(&self) -> (space: &Discrete)
        requires
            self.wf(),
        ensures
            space.n == 4,
    {
        &self.act_space
    }
}

} // verus!
