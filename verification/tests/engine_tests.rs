use gol::config::Gol;
use gol::engine::{advance, next_cell, next_generation, next_state};

fn board(columns: usize, rows: usize) -> Gol {
    Gol::new(columns - 1, rows - 1, 5, 5, 33, false).unwrap()
}

fn cells_from(rows: &[&str]) -> Vec<bool> {
    let mut cells = Vec::new();
    for row in rows {
        for c in row.chars() {
            cells.push(c == '#');
        }
    }
    cells
}

fn scrambled(n: usize, seed: u32) -> Vec<bool> {
    let mut state = seed;
    let mut cells = Vec::new();
    for _ in 0..n {
        state = state.wrapping_mul(1664525).wrapping_add(1013904223);
        cells.push(state >> 31 == 1);
    }
    cells
}

#[test]
fn rule_for_a_live_cell() {
    let expected = [false, false, true, true, false, false, false, false, false];
    for n in 0..=8 {
        assert_eq!(next_state(true, n), expected[n as usize]);
    }
}

#[test]
fn rule_for_a_dead_cell() {
    let expected = [false, false, false, true, false, false, false, false, false];
    for n in 0..=8 {
        assert_eq!(next_state(false, n), expected[n as usize]);
    }
}

#[test]
fn isolated_cell_dies() {
    let gol = board(5, 5);
    let cells = cells_from(&[".....", ".....", "..#..", ".....", "....."]);
    assert!(!next_cell(&cells, 12, gol));
    assert_eq!(next_generation(&cells, gol), vec![false; 25]);
    let mut board = cells.clone();
    advance(&mut board, gol);
    assert_eq!(board, vec![false; 25]);
}

#[test]
fn isolated_cell_dies_in_a_corner() {
    let gol = board(3, 3);
    let cells = cells_from(&["#..", "...", "..."]);
    assert_eq!(next_generation(&cells, gol), vec![false; 9]);
}

#[test]
fn single_cell_board_dies() {
    let gol = board(1, 1);
    assert_eq!(next_generation(&[true], gol), vec![false]);
    assert_eq!(next_generation(&[false], gol), vec![false]);
}

#[test]
fn block_is_a_still_life() {
    let gol = board(4, 4);
    let block = cells_from(&["....", ".##.", ".##.", "...."]);
    let mut cells = block.clone();
    for _ in 0..50 {
        assert_eq!(next_generation(&cells, gol), block);
        advance(&mut cells, gol);
        assert_eq!(cells, block);
    }
}

#[test]
fn block_in_a_corner_is_a_still_life() {
    let gol = board(3, 3);
    let block = cells_from(&["##.", "##.", "..."]);
    let mut cells = block.clone();
    for _ in 0..10 {
        advance(&mut cells, gol);
        assert_eq!(cells, block);
    }
}

#[test]
fn blinker_oscillates() {
    let gol = board(5, 5);
    let horizontal = cells_from(&[".....", ".....", ".###.", ".....", "....."]);
    let vertical = cells_from(&[".....", "..#..", "..#..", "..#..", "....."]);
    let second = next_generation(&horizontal, gol);
    assert_eq!(second, vertical);
    let third = next_generation(&second, gol);
    assert_eq!(third, horizontal);
}

#[test]
fn blinker_oscillates_when_advanced_in_place() {
    let gol = board(5, 5);
    let horizontal = cells_from(&[".....", ".....", ".###.", ".....", "....."]);
    let vertical = cells_from(&[".....", "..#..", "..#..", "..#..", "....."]);
    let mut cells = horizontal.clone();
    for _ in 0..20 {
        advance(&mut cells, gol);
        assert_eq!(cells, vertical);
        advance(&mut cells, gol);
        assert_eq!(cells, horizontal);
    }
}

#[test]
fn row_of_three_at_the_top_edge() {
    let gol = board(3, 3);
    let cells = cells_from(&["###", "...", "..."]);
    let expected = cells_from(&[".#.", ".#.", "..."]);
    assert_eq!(next_generation(&cells, gol), expected);
}

#[test]
fn glider_moves_one_cell_diagonally_in_four_steps() {
    let gol = board(6, 6);
    let start = cells_from(&[".#....", "..#...", "###...", "......", "......", "......"]);
    let moved = cells_from(&["......", "..#...", "...#..", ".###..", "......", "......"]);
    let mut cells = start;
    for _ in 0..4 {
        advance(&mut cells, gol);
    }
    assert_eq!(cells, moved);
}

#[test]
fn crowded_cells_die_and_three_neighbours_give_birth() {
    let gol = board(3, 3);
    let cells = cells_from(&["###", "###", "###"]);
    let expected = cells_from(&["#.#", "...", "#.#"]);
    assert_eq!(next_generation(&cells, gol), expected);
}

#[test]
fn next_generation_keeps_the_size() {
    for (columns, rows) in [(1usize, 1usize), (2, 3), (10, 1), (1, 10), (17, 11)] {
        let gol = board(columns, rows);
        let cells = scrambled(gol.ncells, 7);
        assert_eq!(next_generation(&cells, gol).len(), gol.ncells);
        let mut board = cells.clone();
        advance(&mut board, gol);
        assert_eq!(board.len(), gol.ncells);
    }
}

#[test]
fn side_by_side_and_one_after_another_agree() {
    for seed in 0..20u32 {
        let gol = board(23, 17);
        let mut cells = scrambled(gol.ncells, seed);
        for _ in 0..5 {
            let expected = next_generation(&cells, gol);
            advance(&mut cells, gol);
            assert_eq!(cells, expected);
        }
    }
}

#[test]
fn same_snapshot_gives_the_same_generation() {
    let gol = board(40, 30);
    let snapshot = scrambled(gol.ncells, 2024);
    let first = next_generation(&snapshot, gol);
    for _ in 0..10 {
        let mut again = snapshot.clone();
        advance(&mut again, gol);
        assert_eq!(again, first);
    }
}

#[test]
fn every_cell_follows_the_rule() {
    let gol = board(8, 6);
    let snapshot = scrambled(gol.ncells, 5);
    let next = next_generation(&snapshot, gol);
    for i in 0..gol.ncells {
        let n = gol::neighbors::count_neighbors(&snapshot, i, gol);
        assert_eq!(next[i], next_state(snapshot[i], n));
        assert_eq!(next[i], next_cell(&snapshot, i, gol));
    }
}

#[test]
fn the_snapshot_is_left_untouched() {
    let gol = board(5, 5);
    let snapshot = cells_from(&[".....", ".....", ".###.", ".....", "....."]);
    let copy = snapshot.clone();
    let _ = next_generation(&snapshot, gol);
    assert_eq!(snapshot, copy);
}
