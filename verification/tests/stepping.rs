use game_of_life::board::Board;
use game_of_life::rules::{conway_borns, conway_survives};

fn classic(width: usize, height: usize) -> Board {
    Board::new(width, height, &conway_survives(), &conway_borns())
}

fn dead(width: usize, height: usize) -> Board {
    let mut board = classic(width, height);
    board.fill_board(false);
    board
}

fn cells(board: &Board) -> Vec<bool> {
    let mut all = Vec::new();
    for y in 0..board.height() {
        for x in 0..board.width() {
            all.push(board.get(x, y));
        }
    }
    all
}

fn load(board: &mut Board, rows: &[&str]) {
    for (y, row) in rows.iter().enumerate() {
        for (x, c) in row.chars().enumerate() {
            board.set(x, y, c == '#');
        }
    }
}

fn picture(board: &Board) -> Vec<String> {
    let mut rows = Vec::new();
    for y in 0..board.height() {
        let mut row = String::new();
        for x in 0..board.width() {
            row.push(if board.get(x, y) { '#' } else { '.' });
        }
        rows.push(row);
    }
    rows
}

fn naive_step(
    width: usize,
    height: usize,
    old: &[bool],
    survive: &[usize],
    born: &[usize],
) -> Vec<bool> {
    let mut next = vec![false; old.len()];
    for y in 0..height as i64 {
        for x in 0..width as i64 {
            let mut count = 0usize;
            for dy in -1i64..=1 {
                for dx in -1i64..=1 {
                    if dx == 0 && dy == 0 {
                        continue;
                    }
                    let (nx, ny) = (x + dx, y + dy);
                    if nx >= 0 && ny >= 0 && nx < width as i64 && ny < height as i64 {
                        if old[(ny * width as i64 + nx) as usize] {
                            count += 1;
                        }
                    }
                }
            }
            let index = (y * width as i64 + x) as usize;
            next[index] = if old[index] {
                survive.contains(&count)
            } else {
                born.contains(&count)
            };
        }
    }
    next
}

fn scramble(board: &mut Board, mut seed: u64) {
    for y in 0..board.height() {
        for x in 0..board.width() {
            seed = seed
                .wrapping_mul(6364136223846793005)
                .wrapping_add(1442695040888963407);
            board.set(x, y, (seed >> 33) % 3 == 0);
        }
    }
}

#[test]
fn step_keeps_dimensions_and_cell_count() {
    let mut board = classic(5, 4);
    for _ in 0..6 {
        board.advance_simulation();
        assert_eq!(board.width(), 5);
        assert_eq!(board.height(), 4);
        assert_eq!(cells(&board).len(), 20);
    }
}

#[test]
fn step_keeps_the_rules() {
    let mut board = Board::new(3, 3, &vec![1, 4], &vec![2, 6]);
    let survive = board.survives_by_count();
    let born = board.borns_by_count();
    board.advance_simulation();
    assert_eq!(board.survive_rules(), &vec![1, 4]);
    assert_eq!(board.born_rules(), &vec![2, 6]);
    assert_eq!(board.survives_by_count(), survive);
    assert_eq!(board.borns_by_count(), born);
}

#[test]
fn full_board_keeps_only_its_corners() {
    let mut board = classic(4, 3);
    board.advance_simulation();
    assert_eq!(picture(&board), vec!["#..#", "....", "#..#"]);
    board.advance_simulation();
    assert_eq!(picture(&board), vec!["....", "....", "...."]);
}

#[test]
fn single_live_cell_dies() {
    let mut board = dead(5, 5);
    board.set(2, 2, true);
    assert_eq!(board.count_neighbor(2, 2), 0);
    board.advance_simulation();
    assert_eq!(cells(&board), vec![false; 25]);
}

#[test]
fn single_cell_board_dies() {
    let mut board = classic(1, 1);
    board.advance_simulation();
    assert!(!board.get(0, 0));
    board.advance_simulation();
    assert!(!board.get(0, 0));
}

#[test]
fn block_is_a_still_life() {
    let mut board = dead(4, 4);
    let block = ["....", ".##.", ".##.", "...."];
    load(&mut board, &block);
    for _ in 0..25 {
        board.advance_simulation();
        assert_eq!(picture(&board), block);
    }
}

#[test]
fn block_in_a_corner_is_a_still_life() {
    let mut board = dead(2, 2);
    board.fill_board(true);
    for _ in 0..10 {
        board.advance_simulation();
        assert_eq!(cells(&board), vec![true; 4]);
    }
}

#[test]
fn blinker_oscillates_with_period_two() {
    let mut board = dead(5, 5);
    let horizontal = [".....", ".....", ".###.", ".....", "....."];
    let vertical = [".....", "..#..", "..#..", "..#..", "....."];
    load(&mut board, &horizontal);
    for _ in 0..5 {
        board.advance_simulation();
        assert_eq!(picture(&board), vertical);
        board.advance_simulation();
        assert_eq!(picture(&board), horizontal);
    }
}

#[test]
fn glider_moves_one_cell_diagonally_in_four_steps() {
    let mut board = dead(6, 6);
    load(
        &mut board,
        &[".#....", "..#...", "###...", "......", "......", "......"],
    );
    for _ in 0..4 {
        board.advance_simulation();
    }
    assert_eq!(
        picture(&board),
        vec!["......", "..#...", "...#..", ".###..", "......", "......"]
    );
}

#[test]
fn all_dead_board_stays_dead() {
    let mut board = dead(6, 3);
    for _ in 0..20 {
        board.advance_simulation();
        assert_eq!(cells(&board), vec![false; 18]);
    }
}

#[test]
fn birth_on_zero_neighbors_fills_a_dead_board() {
    let mut board = Board::new(3, 2, &vec![], &vec![0]);
    board.fill_board(false);
    board.advance_simulation();
    assert_eq!(cells(&board), vec![true; 6]);
    board.advance_simulation();
    assert_eq!(cells(&board), vec![false; 6]);
}

#[test]
fn survival_on_eight_neighbors_keeps_only_the_inside() {
    let mut board = Board::new(4, 4, &vec![8], &vec![]);
    board.advance_simulation();
    assert_eq!(picture(&board), vec!["....", ".##.", ".##.", "...."]);
}

#[test]
fn step_is_deterministic() {
    let mut first = classic(7, 5);
    let mut second = classic(7, 5);
    scramble(&mut first, 42);
    scramble(&mut second, 42);
    for _ in 0..8 {
        first.advance_simulation();
        second.advance_simulation();
        assert_eq!(cells(&first), cells(&second));
    }
}

#[test]
fn step_depends_on_the_rule_sets_not_on_their_order() {
    let mut first = Board::new(6, 6, &vec![2, 3], &vec![3, 6]);
    let mut second = Board::new(6, 6, &vec![3, 2, 3], &vec![6, 3]);
    scramble(&mut first, 7);
    scramble(&mut second, 7);
    for _ in 0..8 {
        first.advance_simulation();
        second.advance_simulation();
        assert_eq!(cells(&first), cells(&second));
    }
}

#[test]
fn step_matches_a_naive_two_buffer_pass() {
    let rule_sets: [(Vec<usize>, Vec<usize>); 4] = [
        (vec![2, 3], vec![3]),
        (vec![2, 3, 5, 6], vec![3]),
        (vec![0, 8], vec![1, 7]),
        (vec![], vec![2]),
    ];
    let shapes = [(1usize, 1usize), (1, 6), (6, 1), (2, 2), (5, 3), (8, 8)];
    let mut seed = 1u64;
    for (survive, born) in rule_sets.iter() {
        for (width, height) in shapes.iter() {
            let mut board = Board::new(*width, *height, survive, born);
            seed += 1;
            scramble(&mut board, seed);
            for _ in 0..5 {
                let before = cells(&board);
                board.advance_simulation();
                assert_eq!(
                    cells(&board),
                    naive_step(*width, *height, &before, survive, born)
                );
            }
        }
    }
}

#[test]
fn rule_change_takes_effect_at_the_next_step() {
    let mut board = classic(3, 3);
    board.toggle_survive(8, true);
    board.toggle_survive(5, true);
    board.advance_simulation();
    assert_eq!(picture(&board), vec!["###", "###", "###"]);
    board.toggle_survive(5, false);
    board.advance_simulation();
    assert_eq!(picture(&board), vec!["#.#", ".#.", "#.#"]);
}
