use gol::config::Gol;
use gol::grid::get_index;
use gol::neighbors::count_neighbors;

fn board(columns: usize, rows: usize) -> Gol {
    Gol::new(columns - 1, rows - 1, 5, 5, 33, false).unwrap()
}

fn cells_from(rows: &[&str]) -> Vec<bool> {
    let mut cells = Vec::new();
    for row in rows {
        for c in row.chars() {
            cells.push(c == '#');
        }
    }
    cells
}

fn place(x: isize, y: isize, gol: Gol) -> usize {
    get_index(x, y, gol).unwrap()
}

#[test]
fn empty_board_has_no_live_neighbours() {
    let gol = board(5, 4);
    let cells = vec![false; gol.ncells];
    for i in 0..gol.ncells {
        assert_eq!(count_neighbors(&cells, i, gol), 0);
    }
}

#[test]
fn interior_cell_of_full_board_has_eight() {
    let gol = board(5, 4);
    let cells = vec![true; gol.ncells];
    assert_eq!(count_neighbors(&cells, place(1, 1, gol), gol), 8);
    assert_eq!(count_neighbors(&cells, place(3, 2, gol), gol), 8);
}

#[test]
fn corner_cell_of_full_board_has_three() {
    let gol = board(5, 4);
    let cells = vec![true; gol.ncells];
    assert_eq!(count_neighbors(&cells, place(0, 0, gol), gol), 3);
    assert_eq!(count_neighbors(&cells, place(4, 0, gol), gol), 3);
    assert_eq!(count_neighbors(&cells, place(0, 3, gol), gol), 3);
    assert_eq!(count_neighbors(&cells, place(4, 3, gol), gol), 3);
}

#[test]
fn edge_cell_of_full_board_has_five() {
    let gol = board(5, 4);
    let cells = vec![true; gol.ncells];
    assert_eq!(count_neighbors(&cells, place(2, 0, gol), gol), 5);
    assert_eq!(count_neighbors(&cells, place(2, 3, gol), gol), 5);
    assert_eq!(count_neighbors(&cells, place(0, 1, gol), gol), 5);
    assert_eq!(count_neighbors(&cells, place(4, 2, gol), gol), 5);
}

#[test]
fn count_stays_within_zero_and_eight() {
    let gol = board(9, 7);
    let mut state: u32 = 12345;
    let mut cells = Vec::new();
    for _ in 0..gol.ncells {
        state = state.wrapping_mul(1664525).wrapping_add(1013904223);
        cells.push(state >> 31 == 1);
    }
    for i in 0..gol.ncells {
        let n = count_neighbors(&cells, i, gol);
        assert!((0..=8).contains(&n));
    }
}

#[test]
fn corner_and_edge_bounds_hold_on_any_pattern() {
    let gol = board(6, 5);
    let mut state: u32 = 99;
    let mut cells = Vec::new();
    for _ in 0..gol.ncells {
        state = state.wrapping_mul(1664525).wrapping_add(1013904223);
        cells.push(state >> 30 != 0);
    }
    for y in 0..5isize {
        for x in 0..6isize {
            let n = count_neighbors(&cells, place(x, y, gol), gol);
            let border_x = x == 0 || x == 5;
            let border_y = y == 0 || y == 4;
            if border_x && border_y {
                assert!(n <= 3);
            } else if border_x || border_y {
                assert!(n <= 5);
            }
        }
    }
}

#[test]
fn a_cell_does_not_count_itself() {
    let gol = board(3, 3);
    let cells = cells_from(&["...", ".#.", "..."]);
    assert_eq!(count_neighbors(&cells, place(1, 1, gol), gol), 0);
    for i in 0..gol.ncells {
        if i != 4 {
            assert_eq!(count_neighbors(&cells, i, gol), 1);
        }
    }
}

#[test]
fn each_of_the_eight_offsets_counts() {
    let gol = board(3, 3);
    for j in 0..9usize {
        if j == 4 {
            continue;
        }
        let mut cells = vec![false; 9];
        cells[j] = true;
        assert_eq!(count_neighbors(&cells, 4, gol), 1);
    }
}

#[test]
fn counts_on_a_given_pattern() {
    let gol = board(4, 4);
    let cells = cells_from(&["##..", "#...", "...#", "..##"]);
    assert_eq!(count_neighbors(&cells, place(0, 0, gol), gol), 2);
    assert_eq!(count_neighbors(&cells, place(1, 1, gol), gol), 3);
    assert_eq!(count_neighbors(&cells, place(2, 2, gol), gol), 3);
    assert_eq!(count_neighbors(&cells, place(3, 3, gol), gol), 2);
    assert_eq!(count_neighbors(&cells, place(3, 0, gol), gol), 0);
    assert_eq!(count_neighbors(&cells, place(2, 1, gol), gol), 2);
}

#[test]
fn the_board_does_not_wrap() {
    let gol = board(4, 3);
    // The last cell of a row and the first of the next are adjacent places
    // but no neighbours.
    let mut cells = vec![false; gol.ncells];
    cells[place(3, 0, gol)] = true;
    assert_eq!(count_neighbors(&cells, place(0, 1, gol), gol), 0);
    assert_eq!(count_neighbors(&cells, place(0, 0, gol), gol), 0);
    let mut cells = vec![false; gol.ncells];
    cells[place(0, 0, gol)] = true;
    assert_eq!(count_neighbors(&cells, place(3, 0, gol), gol), 0);
    assert_eq!(count_neighbors(&cells, place(0, 2, gol), gol), 0);
    assert_eq!(count_neighbors(&cells, place(3, 2, gol), gol), 0);
}

#[test]
fn single_cell_board_has_no_neighbours() {
    let gol = board(1, 1);
    assert_eq!(count_neighbors(&[true], 0, gol), 0);
    assert_eq!(count_neighbors(&[false], 0, gol), 0);
}

#[test]
fn single_row_board_counts_left_and_right() {
    let gol = board(5, 1);
    let cells = vec![true; 5];
    assert_eq!(count_neighbors(&cells, 0, gol), 1);
    assert_eq!(count_neighbors(&cells, 2, gol), 2);
    assert_eq!(count_neighbors(&cells, 4, gol), 1);
}

#[test]
fn single_column_board_counts_above_and_below() {
    let gol = board(1, 5);
    let cells = vec![true; 5];
    assert_eq!(count_neighbors(&cells, 0, gol), 1);
    assert_eq!(count_neighbors(&cells, 2, gol), 2);
    assert_eq!(count_neighbors(&cells, 4, gol), 1);
}
