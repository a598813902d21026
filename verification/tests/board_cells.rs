use game_of_life::board::Board;
use game_of_life::rules::{conway_borns, conway_survives};

fn classic(width: usize, height: usize) -> Board {
    Board::new(width, height, &conway_survives(), &conway_borns())
}

fn dead(width: usize, height: usize) -> Board {
    let mut board = classic(width, height);
    board.fill_board(false);
    board
}

fn cells(board: &Board) -> Vec<bool> {
    let mut all = Vec::new();
    for y in 0..board.height() {
        for x in 0..board.width() {
            all.push(board.get(x, y));
        }
    }
    all
}

#[test]
fn new_board_is_all_alive() {
    let board = classic(4, 3);
    assert_eq!(board.width(), 4);
    assert_eq!(board.height(), 3);
    assert_eq!(cells(&board), vec![true; 12]);
    assert_eq!(board.survive_rules(), &vec![2, 3]);
    assert_eq!(board.born_rules(), &vec![3]);
}

#[test]
fn new_board_compiles_its_tables() {
    let board = Board::new(2, 2, &vec![5, 6], &vec![0, 8]);
    assert_eq!(
        board.survives_by_count(),
        [false, false, false, false, false, false, true, true, false, false]
    );
    assert_eq!(
        board.borns_by_count(),
        [true, false, false, false, false, false, false, false, true]
    );
}

#[test]
fn set_changes_one_cell_only() {
    let mut board = dead(4, 3);
    board.set(1, 2, true);
    let mut expected = vec![false; 12];
    expected[2 * 4 + 1] = true;
    assert_eq!(cells(&board), expected);
    assert!(board.get(1, 2));
    assert!(!board.get(2, 1));
    board.set(1, 2, false);
    assert_eq!(cells(&board), vec![false; 12]);
}

#[test]
fn set_keeps_dimensions_and_rules() {
    let mut board = classic(5, 2);
    board.set(4, 1, false);
    assert_eq!(board.width(), 5);
    assert_eq!(board.height(), 2);
    assert_eq!(board.survive_rules(), &vec![2, 3]);
    assert_eq!(board.born_rules(), &vec![3]);
}

#[test]
fn cells_are_stored_row_by_row() {
    let mut board = dead(3, 2);
    board.set(2, 0, true);
    board.set(0, 1, true);
    assert_eq!(
        cells(&board),
        vec![false, false, true, true, false, false]
    );
}

#[test]
fn corners_are_addressable() {
    let mut board = dead(7, 5);
    board.set(0, 0, true);
    board.set(6, 0, true);
    board.set(0, 4, true);
    board.set(6, 4, true);
    assert!(board.get(0, 0) && board.get(6, 0) && board.get(0, 4) && board.get(6, 4));
    assert_eq!(cells(&board).iter().filter(|c| **c).count(), 4);
}

#[test]
fn fill_board_overwrites_every_cell() {
    let mut board = classic(3, 3);
    board.set(1, 1, false);
    board.fill_board(false);
    assert_eq!(cells(&board), vec![false; 9]);
    board.set(2, 2, true);
    board.fill_board(true);
    assert_eq!(cells(&board), vec![true; 9]);
    assert_eq!(board.width(), 3);
    assert_eq!(board.height(), 3);
}

#[test]
fn cell_alive_is_one_or_zero() {
    let mut board = dead(3, 2);
    board.set(1, 1, true);
    assert_eq!(board.cell_alive(1, 1), 1);
    assert_eq!(board.cell_alive(0, 0), 0);
    assert_eq!(board.cell_alive(2, 1), 0);
}

#[test]
fn cell_alive_outside_the_board_is_zero() {
    let board = classic(3, 2);
    assert_eq!(board.cell_alive(3, 0), 0);
    assert_eq!(board.cell_alive(0, 2), 0);
    assert_eq!(board.cell_alive(3, 2), 0);
    assert_eq!(board.cell_alive(usize::MAX, 0), 0);
    assert_eq!(board.cell_alive(0, usize::MAX), 0);
    assert_eq!(board.cell_alive(usize::MAX, usize::MAX), 0);
}

#[test]
fn single_cell_board_has_no_neighbors() {
    let mut board = classic(1, 1);
    assert!(board.get(0, 0));
    assert_eq!(board.count_neighbor(0, 0), 0);
    board.set(0, 0, false);
    assert_eq!(board.count_neighbor(0, 0), 0);
}

#[test]
fn neighbor_counts_on_a_full_board() {
    let board = classic(3, 3);
    let expected = [[3, 5, 3], [5, 8, 5], [3, 5, 3]];
    for y in 0..3 {
        for x in 0..3 {
            assert_eq!(board.count_neighbor(x, y), expected[y][x]);
        }
    }
}

#[test]
fn neighbor_count_does_not_count_the_cell_itself() {
    let mut board = dead(3, 3);
    board.set(1, 1, true);
    assert_eq!(board.count_neighbor(1, 1), 0);
    for (x, y) in [(0, 0), (1, 0), (2, 0), (0, 1), (2, 1), (0, 2), (1, 2), (2, 2)] {
        assert_eq!(board.count_neighbor(x, y), 1);
    }
}

#[test]
fn neighbor_count_does_not_wrap_around() {
    let mut board = dead(4, 4);
    board.set(3, 0, true);
    board.set(0, 3, true);
    board.set(3, 3, true);
    assert_eq!(board.count_neighbor(0, 0), 0);
    board.fill_board(false);
    board.set(3, 1, true);
    assert_eq!(board.count_neighbor(0, 1), 0);
    assert_eq!(board.count_neighbor(0, 2), 0);
    assert_eq!(board.count_neighbor(0, 0), 0);
    assert_eq!(board.count_neighbor(2, 0), 1);
}

#[test]
fn neighbor_count_of_a_row_end_ignores_the_next_row_start() {
    let mut board = dead(3, 3);
    board.set(0, 1, true);
    board.set(0, 2, true);
    assert_eq!(board.count_neighbor(2, 0), 0);
    assert_eq!(board.count_neighbor(2, 1), 0);
    assert_eq!(board.count_neighbor(1, 1), 2);
}

#[test]
fn neighbor_count_on_one_row_and_one_column() {
    let row = classic(5, 1);
    assert_eq!(row.count_neighbor(0, 0), 1);
    assert_eq!(row.count_neighbor(2, 0), 2);
    assert_eq!(row.count_neighbor(4, 0), 1);
    let column = classic(1, 5);
    assert_eq!(column.count_neighbor(0, 0), 1);
    assert_eq!(column.count_neighbor(0, 2), 2);
    assert_eq!(column.count_neighbor(0, 4), 1);
}

#[test]
fn neighbor_count_just_outside_the_board() {
    let board = classic(3, 3);
    assert_eq!(board.count_neighbor(3, 0), 2);
    assert_eq!(board.count_neighbor(3, 1), 3);
    assert_eq!(board.count_neighbor(3, 3), 1);
    assert_eq!(board.count_neighbor(4, 1), 0);
    assert_eq!(board.count_neighbor(usize::MAX, 0), 0);
    assert_eq!(board.count_neighbor(0, usize::MAX), 0);
    assert_eq!(board.count_neighbor(usize::MAX, usize::MAX), 0);
}

#[test]
fn cell_next_state_follows_the_tables() {
    let board = classic(3, 3);
    assert!(board.cell_next_state(0, 0));
    assert!(!board.cell_next_state(1, 0));
    assert!(!board.cell_next_state(1, 1));
    let mut sparse = dead(3, 3);
    sparse.set(0, 0, true);
    sparse.set(1, 0, true);
    sparse.set(2, 0, true);
    assert!(sparse.cell_next_state(1, 1));
    assert!(sparse.cell_next_state(1, 0));
    assert!(!sparse.cell_next_state(0, 0));
    assert!(!sparse.cell_next_state(0, 1));
}

#[test]
fn cell_next_state_does_not_change_the_board() {
    let board = classic(3, 3);
    let before = cells(&board);
    let _ = board.cell_next_state(1, 1);
    assert_eq!(cells(&board), before);
}
