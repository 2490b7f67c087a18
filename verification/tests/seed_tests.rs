use gol::config::Gol;
use gol::engine::advance;
use gol::seed::random_cells;

#[test]
fn random_board_has_one_state_for_every_cell() {
    for (max_x, max_y) in [(0usize, 0usize), (0, 9), (9, 0), (12, 7), (199, 199)] {
        let gol = Gol::new(max_x, max_y, 5, 5, 33, false).unwrap();
        assert_eq!(random_cells(gol).len(), gol.ncells);
    }
}

#[test]
fn random_board_of_the_default_settings() {
    let gol = Gol::default();
    assert_eq!(random_cells(gol).len(), 40000);
}

#[test]
fn random_board_can_be_stepped() {
    let gol = Gol::new(31, 23, 5, 5, 33, false).unwrap();
    let mut cells = random_cells(gol);
    for _ in 0..10 {
        advance(&mut cells, gol);
        assert_eq!(cells.len(), gol.ncells);
    }
}
