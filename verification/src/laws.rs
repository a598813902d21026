//! What holds of every board: the laws that relate stepping, the rule sets
//! and the edges of the grid.

use vstd::prelude::*;
use crate::generation::BoardView;
use crate::rules::{
    born_table_of, count_set, lemma_updated_counts, other_than, survive_table_of, toggled, updated,
    MAX_NEIGHBORS,
};

verus! {

/// Stepping any number of times keeps a board well formed and changes
/// neither its dimensions nor its rules; only the cells move on.
pub proof fn lemma_steps_keep_shape(board: BoardView, n: nat)
    requires
        board.wf(),
    ensures
        board.after(n).wf(),
        board.after(n).width == board.width,
        board.after(n).height == board.height,
        board.after(n).cells.len() == board.width * board.height,
        board.after(n).survive_rules == board.survive_rules,
        board.after(n).born_rules == board.born_rules,
        board.after(n).survive_table == board.survive_table,
        board.after(n).born_table == board.born_table,
    decreases n,
{
    if n > 0 {
        lemma_steps_keep_shape(board, (n - 1) as nat);
    }
}

/// Stepping is a function of the cells and the rule sets: two boards of the
/// same shape with the same cells and the same rule sets have the same next
/// generation, however their rules came about.
pub proof fn lemma_step_deterministic(first: BoardView, second: BoardView)
    requires
        first.width == second.width,
        first.height == second.height,
        first.cells == second.cells,
        first.survive() == second.survive(),
        first.born() == second.born(),
    ensures
        first.step().cells == second.step().cells,
        first.step().width == second.step().width,
        first.step().height == second.step().height,
{
    assert forall|x: int, y: int| first.next_state(x, y) == second.next_state(x, y) by {
        lemma_next_state_local(first, second, x, y);
    }
    assert(first.next_cells() =~= second.next_cells());
}

/// The next state of a cell depends on nothing but the rule sets and the
/// current states of the cell and of the eight cells around it.
pub proof fn lemma_next_state_local(first: BoardView, second: BoardView, x: int, y: int)
    requires
        first.survive() == second.survive(),
        first.born() == second.born(),
        forall|cx: int, cy: int|
            x - 1 <= cx <= x + 1 && y - 1 <= cy <= y + 1 ==> #[trigger] first.alive(cx, cy)
                == second.alive(cx, cy),
    ensures
        first.next_state(x, y) == second.next_state(x, y),
        first.neighbor_count(x, y) == second.neighbor_count(x, y),
{
}

/// Each cell of the next generation is computed from the generation before
/// it: what the step has already written for other cells plays no part.
pub proof fn lemma_step_reads_previous_generation(board: BoardView, x: int, y: int)
    requires
        board.wf(),
        board.in_bounds(x, y),
    ensures
        board.step().alive(x, y) == board.next_state(x, y),
        board.step().cells[board.index_of(x, y)] == (if board.cells[board.index_of(x, y)] {
            board.survive().contains(board.neighbor_count(x, y))
        } else {
            board.born().contains(board.neighbor_count(x, y))
        }),
{
    board.lemma_next_cells_at(x, y);
}

/// Where zero is no survive threshold, a live cell without live neighbors
/// is dead in the next generation.
pub proof fn lemma_lonely_cell_dies(board: BoardView, x: int, y: int)
    requires
        board.wf(),
        board.in_bounds(x, y),
        board.alive(x, y),
        board.neighbor_count(x, y) == 0,
        !board.survive().contains(0),
    ensures
        !board.step().alive(x, y),
{
    board.lemma_next_cells_at(x, y);
}

/// Where zero is no birth threshold, a board without live cells stays
/// without live cells for every number of generations.
pub proof fn lemma_all_dead_stays_dead(board: BoardView, n: nat)
    requires
        board.wf(),
        !board.born().contains(0),
        forall|i: int| 0 <= i < board.cells.len() ==> !board.cells[i],
    ensures
        forall|i: int| 0 <= i < board.after(n).cells.len() ==> !board.after(n).cells[i],
        board.after(n).cells == board.cells,
    decreases n,
{
    if n > 0 {
        let before = board.after((n - 1) as nat);
        lemma_all_dead_stays_dead(board, (n - 1) as nat);
        lemma_steps_keep_shape(board, (n - 1) as nat);
        assert forall|i: int| 0 <= i < before.cells.len() implies !before.next_cells()[i] by {
            let x = i % (before.width as int);
            let y = i / (before.width as int);
            lemma_dead_board_has_no_neighbors(before, x, y);
        }
        assert(before.next_cells() =~= board.cells);
    }
}

/// On a board without live cells no cell has a live neighbor.
pub proof fn lemma_dead_board_has_no_neighbors(board: BoardView, x: int, y: int)
    requires
        board.cells.len() == board.width * board.height,
        forall|i: int| 0 <= i < board.cells.len() ==> !board.cells[i],
    ensures
        !board.alive(x, y),
        board.neighbor_count(x, y) == 0,
{
    assert forall|cx: int, cy: int| !board.alive(cx, cy) by {
        if board.in_bounds(cx, cy) {
            board.lemma_index_in_range(cx, cy);
        }
    }
}

/// Switching a threshold changes the rule set by exactly that threshold:
/// switched on it is in the set, switched off it is not, and every other
/// count is in the set exactly when it was before.
pub proof fn lemma_toggle_changes_one_count(board: BoardView, count: usize, enabled: bool)
    ensures
        board.toggle_survive(count, enabled).survive() == toggled(
            board.survive(),
            count as int,
            enabled,
        ),
        board.toggle_born(count, enabled).born() == toggled(board.born(), count as int, enabled),
        board.toggle_survive(count, enabled).born() == board.born(),
        board.toggle_born(count, enabled).survive() == board.survive(),
{
    lemma_updated_counts(board.survive_rules, count, enabled);
    lemma_updated_counts(board.born_rules, count, enabled);
}

/// A toggled board is well formed when the threshold is a possible neighbor
/// count: its tables are the ones compiled from its new rule sets.
pub proof fn lemma_toggle_wf(board: BoardView, count: usize, enabled: bool)
    requires
        board.wf(),
        count <= MAX_NEIGHBORS,
    ensures
        board.toggle_survive(count, enabled).wf(),
        board.toggle_born(count, enabled).wf(),
        board.toggle_survive(count, enabled).survive_table == survive_table_of(
            toggled(board.survive(), count as int, enabled),
        ),
        board.toggle_born(count, enabled).born_table == born_table_of(
            toggled(board.born(), count as int, enabled),
        ),
{
    lemma_updated_counts(board.survive_rules, count, enabled);
    lemma_updated_counts(board.born_rules, count, enabled);
}

/// Switching a threshold that already is as asked changes nothing.
pub proof fn lemma_toggle_to_present_state(board: BoardView, count: usize, enabled: bool)
    requires
        board.wf(),
    ensures
        board.survive().contains(count as int) == enabled ==> board.toggle_survive(count, enabled)
            == board,
        board.born().contains(count as int) == enabled ==> board.toggle_born(count, enabled)
            == board,
{
    if board.survive().contains(count as int) == enabled {
        lemma_updated_to_present_state(board.survive_rules, count, enabled);
    }
    if board.born().contains(count as int) == enabled {
        lemma_updated_to_present_state(board.born_rules, count, enabled);
    }
}

/// A list of thresholds in which `count` already is as asked stays as it is.
pub proof fn lemma_updated_to_present_state(rules: Seq<usize>, count: usize, alive: bool)
    requires
        count_set(rules).contains(count as int) == alive,
    ensures
        updated(rules, count, alive) == rules,
{
    if alive {
        let i = choose|i: int| 0 <= i < rules.len() && rules[i] == count;
        assert(rules[i] == count);
        assert(rules.contains(count));
    } else {
        if rules.contains(count) {
            let i = choose|i: int| 0 <= i < rules.len() && rules[i] == count;
            assert(count_set(rules).contains(rules[i] as int));
        }
        lemma_filter_keeps_all(rules, count);
    }
}

/// Switching a survive threshold on that was off, and then off again, gives
/// back the board as it was: the same survive rules and the same table.
pub proof fn lemma_toggle_survive_round_trip(board: BoardView, count: usize)
    requires
        board.wf(),
        !board.survive().contains(count as int),
    ensures
        board.toggle_survive(count, true).toggle_survive(count, false) == board,
{
    if board.survive_rules.contains(count) {
        let i = choose|i: int| 0 <= i < board.survive_rules.len() && board.survive_rules[i] == count;
        assert(board.survive().contains(board.survive_rules[i] as int));
    }
    lemma_updated_round_trip(board.survive_rules, count);
}

/// Switching a birth threshold on that was off, and then off again, gives
/// back the board as it was: the same birth rules and the same table.
pub proof fn lemma_toggle_born_round_trip(board: BoardView, count: usize)
    requires
        board.wf(),
        !board.born().contains(count as int),
    ensures
        board.toggle_born(count, true).toggle_born(count, false) == board,
{
    if board.born_rules.contains(count) {
        let i = choose|i: int| 0 <= i < board.born_rules.len() && board.born_rules[i] == count;
        assert(board.born().contains(board.born_rules[i] as int));
    }
    lemma_updated_round_trip(board.born_rules, count);
}

/// In a list of thresholds that does not hold `count`, switching `count` on
/// and then off gives back the list itself, order included.
pub proof fn lemma_updated_round_trip(rules: Seq<usize>, count: usize)
    requires
        !rules.contains(count),
    ensures
        updated(updated(rules, count, true), count, false) == rules,
{
    reveal(Seq::filter);
    lemma_filter_keeps_all(rules, count);
    assert(rules.push(count).drop_last() =~= rules);
}

/// Removing a threshold from a list that does not hold it changes nothing.
proof fn lemma_filter_keeps_all(rules: Seq<usize>, count: usize)
    requires
        !rules.contains(count),
    ensures
        rules.filter(other_than(count)) == rules,
    decreases rules.len(),
{
    reveal(Seq::filter);
    if rules.len() > 0 {
        let front = rules.drop_last();
        assert forall|i: int| 0 <= i < front.len() implies front[i] != count by {
            assert(rules[i] == front[i]);
            assert(rules.contains(rules[i]));
        }
        if front.contains(count) {
            let k = choose|k: int| 0 <= k < front.len() && front[k] == count;
            assert(front[k] != count);
        }
        lemma_filter_keeps_all(front, count);
        assert(rules.contains(rules[rules.len() - 1]));
        assert(front.push(rules.last()) =~= rules);
    }
}

/// Switching a survive threshold twice the same way is the same as
/// switching it once.
pub proof fn lemma_toggle_survive_idempotent(board: BoardView, count: usize, enabled: bool)
    ensures
        board.toggle_survive(count, enabled).toggle_survive(count, enabled)
            == board.toggle_survive(count, enabled),
{
    lemma_updated_idempotent(board.survive_rules, count, enabled);
}

/// Switching a birth threshold twice the same way is the same as switching
/// it once.
pub proof fn lemma_toggle_born_idempotent(board: BoardView, count: usize, enabled: bool)
    ensures
        board.toggle_born(count, enabled).toggle_born(count, enabled) == board.toggle_born(
            count,
            enabled,
        ),
{
    lemma_updated_idempotent(board.born_rules, count, enabled);
}

/// In a list of thresholds, switching `count` twice the same way gives the
/// same list as switching it once.
pub proof fn lemma_updated_idempotent(rules: Seq<usize>, count: usize, alive: bool)
    ensures
        updated(updated(rules, count, alive), count, alive) == updated(rules, count, alive),
{
    let once = updated(rules, count, alive);
    if alive {
        if !rules.contains(count) {
            assert(once[rules.len() as int] == count);
        }
        assert(once.contains(count));
    } else {
        broadcast use vstd::seq_lib::group_filter_ensures;
        if once.contains(count) {
            let j = choose|j: int| 0 <= j < once.len() && once[j] == count;
            assert(other_than(count)(once[j]));
        }
        lemma_filter_keeps_all(once, count);
    }
}

/// A board of a single cell has no neighbors to count, whatever the state
/// of that cell: a cell does not count itself and the board does not wrap.
pub proof fn lemma_single_cell_has_no_neighbors(board: BoardView)
    requires
        board.width == 1,
        board.height == 1,
    ensures
        board.neighbor_count(0, 0) == 0,
{
}

/// A cell has at most eight live neighbors.
pub proof fn lemma_neighbor_count_bounds(board: BoardView, x: int, y: int)
    ensures
        0 <= board.neighbor_count(x, y) <= MAX_NEIGHBORS,
{
}

} // verus!
