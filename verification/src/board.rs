//! The board: the cells of the current generation, the rule sets, and the
//! lookup tables that the stepper reads.

use vstd::prelude::*;
use crate::generation::BoardView;
use crate::rules::{
    born_table_of, count_set, lemma_count_set_push, rules_in_range, survive_table_of,
    updated_rules, MAX_NEIGHBORS,
};

verus! {

/// A rectangular grid of cells with the rules by which it evolves.
///
/// The lookup tables are derived data: they are recompiled whenever a rule
/// set changes and cannot be changed from outside.
#[derive(Debug)]
pub struct Board {
    width: usize,
    height: usize,
    data: Vec<bool>,
    survives_by_count: [bool; 10],
    borns_by_count: [bool; 9],
    survive_rules: Vec<usize>,
    born_rules: Vec<usize>,
}

impl View for Board {
    type V = BoardView;

    closed spec fn view(&self) -> BoardView {
        BoardView {
            width: self.width as nat,
            height: self.height as nat,
            cells: self.data@,
            survive_rules: self.survive_rules@,
            born_rules: self.born_rules@,
            survive_table: self.survives_by_count@,
            born_table: self.borns_by_count@,
        }
    }
}

impl Board {
    /// The invariant of a board, stated over its view.
    pub open spec fn wf(&self) -> bool {
        self@.wf()
    }

    /// A board of `width` by `height` cells, all alive, with the given survive
    /// and birth thresholds.
    pub fn new(width: usize, height: usize, survives: &Vec<usize>, borns: &Vec<usize>) -> (board:
        Board)
        requires
            width > 0,
            height > 0,
            width * height <= usize::MAX,
            rules_in_range(survives@),
            rules_in_range(borns@),
        ensures
            board.wf(),
            board@.width == width,
            board@.height == height,
            board@.cells == Seq::new((width * height) as nat, |i: int| true),
            board@.survive_rules == survives@,
            board@.born_rules == borns@,
    {
        let data = vec![true; width * height];
        let survive_rules = survives.clone();
        let born_rules = borns.clone();
        assert(survive_rules@ =~= survives@);
        assert(born_rules@ =~= borns@);
        assert(data@ =~= Seq::new((width * height) as nat, |i: int| true));
        Board {
            width: width,
            height: height,
            data: data,
            survives_by_count: Board::compile_survive_rules(survives),
            borns_by_count: Board::compile_born_rules(borns),
            survive_rules: survive_rules,
            born_rules: born_rules,
        }
    }

    /// The survive lookup table for a list of thresholds: entry `c + 1` is
    /// set exactly when `c` is in the list, and entry 0 never is.
    pub fn compile_survive_rules(survives: &Vec<usize>) -> (table: [bool; 10])
        requires
            rules_in_range(survives@),
        ensures
            table@ == survive_table_of(count_set(survives@)),
    {
        let mut survives_by_count = [false;10];
        let mut i: usize = 0;
        while i < survives.len()
            invariant
                i <= survives.len(),
                rules_in_range(survives@),
                forall|k: int|
                    0 <= k < 10 ==> survives_by_count@[k] == (k >= 1 && count_set(
                        survives@.take(i as int),
                    ).contains(k - 1)),
            decreases survives.len() - i,
        {
            let count = survives[i];
            proof {
                lemma_count_set_push(survives@.take(i as int), count);
                assert(survives@.take(i + 1) =~= survives@.take(i as int).push(count));
            }
            survives_by_count[count + 1] = true;
            i = i + 1;
        }
        assert(survives@.take(i as int) =~= survives@);
        assert(survives_by_count@ =~= survive_table_of(count_set(survives@)));
        survives_by_count
    }

    /// The birth lookup table for a list of thresholds: entry `c` is set
    /// exactly when `c` is in the list.
    pub fn compile_born_rules(borns: &Vec<usize>) -> (table: [bool; 9])
        requires
            rules_in_range(borns@),
        ensures
            table@ == born_table_of(count_set(borns@)),
    {
        let mut borns_by_count = [false;9];
        let mut i: usize = 0;
        while i < borns.len()
            invariant
                i <= borns.len(),
                rules_in_range(borns@),
                forall|k: int|
                    0 <= k < 9 ==> borns_by_count@[k] == count_set(
                        borns@.take(i as int),
                    ).contains(k),
            decreases borns.len() - i,
        {
            let count = borns[i];
            proof {
                lemma_count_set_push(borns@.take(i as int), count);
                assert(borns@.take(i + 1) =~= borns@.take(i as int).push(count));
            }
            borns_by_count[count] = true;
            i = i + 1;
        }
        assert(borns@.take(i as int) =~= borns@);
        assert(borns_by_count@ =~= born_table_of(count_set(borns@)));
        borns_by_count
    }

    /// The number of columns.
    pub fn width(&self) -> (width: usize)
        ensures
            width == self@.width,
    {
        self.width
    }

    /// The number of rows.
    pub fn height(&self) -> (height: usize)
        ensures
            height == self@.height,
    {
        self.height
    }

    /// The survive thresholds, in the order in which they were switched on.
    pub fn survive_rules(&self) -> (rules: &Vec<usize>)
        ensures
            rules@ == self@.survive_rules,
    {
        &self.survive_rules
    }

    /// The birth thresholds, in the order in which they were switched on.
    pub fn born_rules(&self) -> (rules: &Vec<usize>)
        ensures
            rules@ == self@.born_rules,
    {
        &self.born_rules
    }

    /// The survive lookup table as the stepper reads it: entry `c + 1` tells
    /// whether a live cell with `c` live neighbors stays alive.
    pub fn survives_by_count(&self) -> (table: [bool; 10])
        ensures
            table@ == self@.survive_table,
    {
        self.survives_by_count
    }

    /// The birth lookup table as the stepper reads it: entry `c` tells
    /// whether a dead cell with `c` live neighbors comes alive.
    pub fn borns_by_count(&self) -> (table: [bool; 9])
        ensures
            table@ == self@.born_table,
    {
        self.borns_by_count
    }

    /// The row-major index of a cell on the board fits the cell buffer, and
    /// so does every full row before it.
    proof fn lemma_cell_index(&self, x: usize, y: usize)
        requires
            self.wf(),
            x < self.width,
            y < self.height,
        ensures
            0 <= y * self.width,
            y * self.width + x < self.data@.len(),
            y * self.width + self.width <= self.data@.len(),
            self.data@.len() == self.data.len(),
            self.data@.len() == self.height * self.width,
            y * self.width + x == self@.index_of(x as int, y as int),
    {
        let w = self.width as int;
        let h = self.height as int;
        assert(0 <= y * w && y * w + w <= h * w && h * w == w * h) by (nonlinear_arith)
            requires
                0 <= y < h,
                0 < w,
        ;
    }

    /// 1 if `(x, y)` is a live cell of the board, 0 if it is dead or lies
    /// outside the board.
    pub fn cell_alive(&self, x: usize, y: usize) -> (count: usize)
        requires
            self.wf(),
        ensures
            count == self@.alive_count(x as int, y as int),
    {
        if x < self.width && y < self.height {
            proof {
                self.lemma_cell_index(x, y);
            }
            if self.data[x + y * self.width] {
                1
            } else {
                0
            }
        } else {
            0
        }
    }

    /// The number of live cells among the left and right neighbors of
    /// `(x, y)` and, if `with_center` is set, `(x, y)` itself.
    fn count_row(&self, x: usize, y: usize, with_center: bool) -> (count: usize)
        requires
            self.wf(),
        ensures
            count == self@.row_count(x as int, y as int, with_center),
    {
        let mut count: usize = 0;
        if x > 0 {
            count = count + self.cell_alive(x - 1, y);
        }
        if with_center {
            count = count + self.cell_alive(x, y);
        }
        if x < usize::MAX {
            count = count + self.cell_alive(x + 1, y);
        }
        count
    }

    /// The number of live cells among the eight cells that touch `(x, y)`.
    /// Cells beyond an edge count as dead: the board does not wrap around.
    pub fn count_neighbor(&self, x: usize, y: usize) -> (count: usize)
        requires
            self.wf(),
        ensures
            count == self@.neighbor_count(x as int, y as int),
            count <= 8,
    {
        let mut count: usize = self.count_row(x, y, false);
        if y > 0 {
            count = count + self.count_row(x, y - 1, true);
        }
        if y < usize::MAX {
            count = count + self.count_row(x, y + 1, true);
        }
        count
    }

    /// Whether the cell at `(x, y)` is alive.
    pub fn get(&self, x: usize, y: usize) -> (alive: bool)
        requires
            self.wf(),
            x < self@.width,
            y < self@.height,
        ensures
            alive == self@.alive(x as int, y as int),
            alive == self@.cells[self@.index_of(x as int, y as int)],
    {
        proof {
            self.lemma_cell_index(x, y);
        }
        self.data[y * self.width + x]
    }

    /// Makes the cell at `(x, y)` alive or dead and leaves every other cell
    /// and the rules as they are.
    pub fn set(&mut self, x: usize, y: usize, new_value: bool)
        requires
            old(self).wf(),
            x < old(self)@.width,
            y < old(self)@.height,
        ensures
            final(self).wf(),
            final(self)@ == (BoardView {
                cells: old(self)@.cells.update(old(self)@.index_of(x as int, y as int), new_value),
                ..old(self)@
            }),
    {
        proof {
            self.lemma_cell_index(x, y);
        }
        self.data[y * self.width + x] = new_value;
    }

    /// Makes every cell alive (`true`) or dead (`false`).
    pub fn fill_board(&mut self, value: bool)
        requires
            old(self).wf(),
        ensures
            final(self).wf(),
            final(self)@ == (BoardView {
                cells: Seq::new(old(self)@.cells.len(), |i: int| value),
                ..old(self)@
            }),
    {
        let data = vec![value; self.data.len()];
        assert(data@ =~= Seq::new(self.data@.len(), |i: int| value));
        self.data = data;
    }

    /// Replaces the survive thresholds by `new_survives` and recompiles the
    /// survive lookup table from them.
    pub fn update_survive_rules(&mut self, new_survives: &mut Vec<usize>)
        requires
            old(self).wf(),
            rules_in_range(old(new_survives)@),
        ensures
            final(self).wf(),
            final(new_survives)@ == old(new_survives)@,
            final(self)@ == (BoardView {
                survive_rules: old(new_survives)@,
                survive_table: survive_table_of(count_set(old(new_survives)@)),
                ..old(self)@
            }),
    {
        let survive_rules = new_survives.clone();
        assert(survive_rules@ =~= new_survives@);
        self.survive_rules = survive_rules;
        self.survives_by_count = Board::compile_survive_rules(new_survives);
    }

    /// Replaces the birth thresholds by `new_borns` and recompiles the birth
    /// lookup table from them.
    pub fn update_born_rules(&mut self, new_borns: &mut Vec<usize>)
        requires
            old(self).wf(),
            rules_in_range(old(new_borns)@),
        ensures
            final(self).wf(),
            final(new_borns)@ == old(new_borns)@,
            final(self)@ == (BoardView {
                born_rules: old(new_borns)@,
                born_table: born_table_of(count_set(old(new_borns)@)),
                ..old(self)@
            }),
    {
        let born_rules = new_borns.clone();
        assert(born_rules@ =~= new_borns@);
        self.born_rules = born_rules;
        self.borns_by_count = Board::compile_born_rules(new_borns);
    }

    /// Switches the survive threshold `count` on or off and recompiles the
    /// survive lookup table. Nothing changes if `count` already is as asked.
    pub fn toggle_survive(&mut self, count: usize, enabled: bool)
        requires
            old(self).wf(),
            count <= MAX_NEIGHBORS,
        ensures
            final(self).wf(),
            final(self)@ == old(self)@.toggle_survive(count, enabled),
    {
        let mut new_survive_rules = updated_rules(&self.survive_rules, count, enabled);
        self.update_survive_rules(&mut new_survive_rules);
    }

    /// Switches the birth threshold `count` on or off and recompiles the
    /// birth lookup table. Nothing changes if `count` already is as asked.
    pub fn toggle_born(&mut self, count: usize, enabled: bool)
        requires
            old(self).wf(),
            count <= MAX_NEIGHBORS,
        ensures
            final(self).wf(),
            final(self)@ == old(self)@.toggle_born(count, enabled),
    {
        let mut new_born_rules = updated_rules(&self.born_rules, count, enabled);
        self.update_born_rules(&mut new_born_rules);
    }

    /// The state that the cell at `(x, y)` has in the next generation.
    pub fn cell_next_state(&self, x: usize, y: usize) -> (alive: bool)
        requires
            self.wf(),
            x < self@.width,
            y < self@.height,
        ensures
            alive == self@.next_state(x as int, y as int),
    {
        let nb_neighbor = self.count_neighbor(x, y);
        if self.get(x, y) {
            self.survives_by_count[nb_neighbor + 1]
        } else {
            self.borns_by_count[nb_neighbor]
        }
    }

    /// Advances the board by one generation. Every cell's new state is
    /// computed from the generation as it was before the call.
    pub fn advance_simulation(&mut self)
        requires
            old(self).wf(),
        ensures
            final(self).wf(),
            final(self)@ == old(self)@.step(),
            final(self)@.width == old(self)@.width,
            final(self)@.height == old(self)@.height,
            final(self)@.cells.len() == final(self)@.width * final(self)@.height,
    {
        let mut next_board: Vec<bool> = Vec::with_capacity(self.data.len());
        assert(self.height * self.width == self.width * self.height) by (nonlinear_arith);
        let mut y_test: usize = 0;
        while y_test < self.height
            invariant
                self.wf(),
                *self == *old(self),
                y_test <= self.height,
                next_board@.len() == y_test * self.width,
                next_board@.len() <= self.data@.len(),
                self.data@.len() == self.height * self.width,
                forall|i: int|
                    0 <= i < next_board@.len() ==> next_board@[i] == self@.next_cells()[i],
            decreases self.height - y_test,
        {
            let mut x_test: usize = 0;
            while x_test < self.width
                invariant
                    self.wf(),
                    *self == *old(self),
                    y_test < self.height,
                    x_test <= self.width,
                    next_board@.len() == y_test * self.width + x_test,
                    next_board@.len() <= self.data@.len(),
                    self.data@.len() == self.height * self.width,
                    forall|i: int|
                        0 <= i < next_board@.len() ==> next_board@[i] == self@.next_cells()[i],
                decreases self.width - x_test,
            {
                let state = self.cell_next_state(x_test, y_test);
                proof {
                    self.lemma_cell_index(x_test, y_test);
                    self@.lemma_next_cells_at(x_test as int, y_test as int);
                }
                next_board.push(state);
                x_test = x_test + 1;
            }
            assert(y_test * self.width + self.width == (y_test + 1) * self.width)
                by (nonlinear_arith);
            y_test = y_test + 1;
        }
        assert(next_board@ =~= self@.next_cells());
        self.data = next_board;
    }
}

} // verus!
