//! The mathematical model of a board: a rectangular grid of cells together
//! with its rule sets, and the function that takes one generation to the next.

use vstd::prelude::*;
use vstd::arithmetic::div_mod::lemma_fundamental_div_mod_converse;
use crate::rules::{born_table_of, count_set, rules_in_range, survive_table_of, updated};

verus! {

/// What a board is, abstractly: the dimensions, the cells in row-major order,
/// the two lists of rule thresholds, and the lookup tables compiled from them.
pub struct BoardView {
    pub width: nat,
    pub height: nat,
    pub cells: Seq<bool>,
    pub survive_rules: Seq<usize>,
    pub born_rules: Seq<usize>,
    pub survive_table: Seq<bool>,
    pub born_table: Seq<bool>,
}

impl BoardView {
    /// The survive rule as a set: the neighbor counts at which a live cell
    /// stays alive.
    pub open spec fn survive(self) -> Set<int> {
        count_set(self.survive_rules)
    }

    /// The birth rule as a set: the neighbor counts at which a dead cell
    /// comes alive.
    pub open spec fn born(self) -> Set<int> {
        count_set(self.born_rules)
    }

    /// Both dimensions are positive, there is exactly one cell per coordinate,
    /// every rule threshold is a possible neighbor count, and each lookup
    /// table is the one compiled from its rule set.
    pub open spec fn wf(self) -> bool {
        &&& self.width > 0
        &&& self.height > 0
        &&& self.cells.len() == self.width * self.height
        &&& rules_in_range(self.survive_rules)
        &&& rules_in_range(self.born_rules)
        &&& self.survive_table == survive_table_of(self.survive())
        &&& self.born_table == born_table_of(self.born())
    }

    /// Whether `(x, y)` names a cell of the grid.
    pub open spec fn in_bounds(self, x: int, y: int) -> bool {
        0 <= x < self.width && 0 <= y < self.height
    }

    /// The position of cell `(x, y)` in the row-major cell sequence.
    pub open spec fn index_of(self, x: int, y: int) -> int {
        y * self.width + x
    }

    /// Whether the cell at `(x, y)` is alive. Everything outside the grid is dead.
    pub open spec fn alive(self, x: int, y: int) -> bool {
        self.in_bounds(x, y) && self.cells[self.index_of(x, y)]
    }

    /// 1 if the cell at `(x, y)` is alive, 0 if it is dead or outside the grid.
    pub open spec fn alive_count(self, x: int, y: int) -> int {
        if self.alive(x, y) {
            1
        } else {
            0
        }
    }

    /// The number of live cells among `(x - 1, y)`, `(x + 1, y)` and, if
    /// `with_center` is set, `(x, y)` itself.
    pub open spec fn row_count(self, x: int, y: int, with_center: bool) -> int {
        self.alive_count(x - 1, y) + (if with_center {
            self.alive_count(x, y)
        } else {
            0
        }) + self.alive_count(x + 1, y)
    }

    /// The number of live cells among the eight cells that touch `(x, y)`.
    pub open spec fn neighbor_count(self, x: int, y: int) -> int {
        self.row_count(x, y - 1, true) + self.row_count(x, y, false) + self.row_count(
            x,
            y + 1,
            true,
        )
    }

    /// The state of cell `(x, y)` in the next generation: a live cell stays
    /// alive when its neighbor count is a survive threshold, a dead cell comes
    /// alive when its neighbor count is a birth threshold.
    pub open spec fn next_state(self, x: int, y: int) -> bool {
        if self.alive(x, y) {
            self.survive().contains(self.neighbor_count(x, y))
        } else {
            self.born().contains(self.neighbor_count(x, y))
        }
    }

    /// The cells of the next generation, each computed from this generation.
    pub open spec fn next_cells(self) -> Seq<bool> {
        Seq::new(
            self.cells.len(),
            |i: int| self.next_state(i % (self.width as int), i / (self.width as int)),
        )
    }

    /// The board one generation later: same dimensions and rules, new cells.
    pub open spec fn step(self) -> BoardView {
        BoardView { cells: self.next_cells(), ..self }
    }

    /// The board `n` generations later.
    pub open spec fn after(self, n: nat) -> BoardView
        decreases n,
    {
        if n == 0 {
            self
        } else {
            self.after((n - 1) as nat).step()
        }
    }

    /// The board after the survive threshold `count` has been switched on or
    /// off: the list of survive thresholds changes and its table is compiled
    /// anew. Nothing changes where `count` already is as asked.
    pub open spec fn toggle_survive(self, count: usize, enabled: bool) -> BoardView {
        let rules = updated(self.survive_rules, count, enabled);
        BoardView { survive_rules: rules, survive_table: survive_table_of(count_set(rules)), ..self }
    }

    /// The board after the birth threshold `count` has been switched on or
    /// off: the list of birth thresholds changes and its table is compiled
    /// anew. Nothing changes where `count` already is as asked.
    pub open spec fn toggle_born(self, count: usize, enabled: bool) -> BoardView {
        let rules = updated(self.born_rules, count, enabled);
        BoardView { born_rules: rules, born_table: born_table_of(count_set(rules)), ..self }
    }

    /// A cell inside the grid has a position inside the cell sequence.
    pub proof fn lemma_index_in_range(self, x: int, y: int)
        requires
            self.cells.len() == self.width * self.height,
            self.in_bounds(x, y),
        ensures
            0 <= self.index_of(x, y) < self.cells.len(),
            y * self.width >= 0,
    {
        let w = self.width as int;
        let h = self.height as int;
        assert(0 <= y * w && y * w + w <= h * w) by (nonlinear_arith)
            requires
                0 <= y < h,
                0 < w,
        ;
        assert(h * w == w * h) by (nonlinear_arith);
    }

    /// Row-major indexing is a bijection: the position of `(x, y)` gives back
    /// `x` as its remainder and `y` as its quotient by the width.
    pub proof fn lemma_index_coordinates(self, x: int, y: int)
        requires
            self.in_bounds(x, y),
        ensures
            self.index_of(x, y) % (self.width as int) == x,
            self.index_of(x, y) / (self.width as int) == y,
    {
        lemma_fundamental_div_mod_converse(self.index_of(x, y), self.width as int, y, x);
    }

    /// The next generation holds, at the position of each cell, that cell's next state.
    pub proof fn lemma_next_cells_at(self, x: int, y: int)
        requires
            self.cells.len() == self.width * self.height,
            self.in_bounds(x, y),
        ensures
            self.next_cells()[self.index_of(x, y)] == self.next_state(x, y),
            self.step().alive(x, y) == self.next_state(x, y),
    {
        self.lemma_index_in_range(x, y);
        self.lemma_index_coordinates(x, y);
    }
}

} // verus!
