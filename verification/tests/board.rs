use life::board::Board;

fn count_alive(board: &Board) -> usize {
    let mut count = 0;
    for row in board.rows() {
        for &alive in row {
            if alive {
                count += 1;
            }
        }
    }
    count
}

#[test]
fn test_create_board_empty() {
    let board = Board::empty(1, 2);

    assert_eq!(board.cells.len(), 2);
    assert_eq!(board.cells[0].len(), 1);

    assert!(!board.cells[0][0]);
    assert!(!board.cells[1][0]);
}

#[test]
fn test_count_neighbours_three() {
    // Create a cell with three live neighbours
    let mut board = Board::empty(3, 3);
    board.cells[1][1] = true;

    board.cells[1][2] = true;
    board.cells[2][2] = true;
    board.cells[0][0] = true;

    assert_eq!(board.count_live_neighbours(1, 1), 3);
    assert_eq!(board.count_live_neighbours(0, 0), 3);
}

#[test]
fn test_rule_underpopulation_zero() {
    // Rule 1: Any live cell with fewer than two live neighbours dies, as if by underpopulation.
    // Create a cell that is surrounded by dead cells
    let mut board = Board::empty(3, 3);
    board.cells[1][1] = true;

    // Update the board
    board = board.update();

    // Cell should have died
    assert!(!board.cells[1][1])
}

#[test]
fn test_rule_underpopulation_one() {
    // Rule 1: Any live cell with fewer than two live neighbours dies, as if by underpopulation.
    // Create a cell with a single live neighbour
    let mut board = Board::empty(3, 3);
    board.cells[1][1] = true;
    board.cells[1][2] = true;

    // Update the board
    board = board.update();

    // Cell should have died
    assert!(!board.cells[1][1])
}

#[test]
fn test_rule_live_two() {
    // Rule 2: Any live cell with two or three live neighbours lives on to the next generation.
    // Create a cell with two live neighbours
    let mut board = Board::empty(3, 3);
    board.cells[1][1] = true;
    board.cells[1][2] = true;
    board.cells[2][2] = true;

    // Update the board
    board = board.update();

    // Cell should stay alive
    assert!(board.cells[1][1])
}

#[test]
fn test_rule_live_three() {
    // Rule 2: Any live cell with two or three live neighbours lives on to the next generation.
    // Create a cell with three live neighbours
    let mut board = Board::empty(3, 3);
    board.cells[1][1] = true;

    board.cells[1][2] = true;
    board.cells[2][2] = true;
    board.cells[0][0] = true;

    // Update the board
    board = board.update();

    // Cell should stay alive
    assert!(board.cells[1][1])
}

#[test]
fn test_rule_overpopulation_four() {
    // Rule 3: Any live cell with more than three live neighbours dies, as if by overpopulation.
    // Create a cell with four live neighbours
    let mut board = Board::empty(3, 3);
    board.cells[1][1] = true;

    board.cells[1][2] = true;
    board.cells[2][2] = true;
    board.cells[0][0] = true;
    board.cells[1][0] = true;

    // Update the board
    board = board.update();

    // Cell should be dead
    assert!(!board.cells[1][1])
}

#[test]
fn test_rule_reproduction() {
    // Rule 4: Any dead cell with exactly three live neighbours becomes a live cell, as if by reproduction.
    // Create a cell with three live neighbours
    let mut board = Board::empty(3, 3);
    board.cells[1][1] = false;

    board.cells[1][2] = true;
    board.cells[2][2] = true;
    board.cells[0][0] = true;

    // Update the board
    board = board.update();

    // Cell should be alive
    assert!(board.cells[1][1])
}

#[test]
fn test_empty_board_all_dead() {
    let board = Board::empty(4, 5);
    assert_eq!(board.width(), 4);
    assert_eq!(board.height(), 5);
    for x in 0..4 {
        for y in 0..5 {
            assert!(!board.is_alive(x, y));
        }
    }
}

#[test]
fn test_checkered_pattern() {
    let board = Board::checkered(4, 3);
    for x in 0..4 {
        for y in 0..3 {
            assert_eq!(board.is_alive(x, y), (x + y) % 2 == 0);
        }
    }
    assert!(board.is_alive(0, 0));
    assert!(!board.is_alive(1, 0));
    assert!(board.is_alive(1, 1));
    assert_eq!(count_alive(&board), 6);
}

#[test]
fn test_set_alive_wraps() {
    let mut board = Board::empty(3, 3);
    board.set_alive(5, 7);
    assert!(board.is_alive(2, 1));
    assert_eq!(count_alive(&board), 1);
}

#[test]
fn test_set_alive_idempotent() {
    let mut once = Board::empty(4, 4);
    once.set_alive(1, 2);
    let mut twice = Board::empty(4, 4);
    twice.set_alive(1, 2);
    twice.set_alive(1, 2);
    assert_eq!(once.cells, twice.cells);
}

#[test]
fn test_add_glider_cells() {
    let mut board = Board::empty(5, 5);
    board.add_glider(0, 0);
    // The five glider offsets from the anchor.
    assert!(board.is_alive(1, 0));
    assert!(board.is_alive(2, 1));
    assert!(board.is_alive(0, 2));
    assert!(board.is_alive(1, 2));
    assert!(board.is_alive(2, 2));
    assert_eq!(count_alive(&board), 5);
}

#[test]
fn test_add_glider_idempotent() {
    let mut once = Board::empty(6, 6);
    once.add_glider(2, 3);
    let mut twice = Board::empty(6, 6);
    twice.add_glider(2, 3);
    twice.add_glider(2, 3);
    assert_eq!(once.cells, twice.cells);
}

#[test]
fn test_add_glider_wraps_at_edge() {
    let mut board = Board::empty(5, 4);
    // Anchor in the last column: the glider wraps to columns 0 and 1
    // instead of falling off the board.
    board.add_glider(4, 0);
    assert!(board.is_alive(0, 0)); // (4 + 1) % 5
    assert!(board.is_alive(1, 1)); // (4 + 2) % 5
    assert!(board.is_alive(4, 2));
    assert!(board.is_alive(0, 2));
    assert!(board.is_alive(1, 2));
    assert_eq!(count_alive(&board), 5);
}

#[test]
fn test_with_glider_matches_manual_seeding() {
    let seeded = Board::with_glider(5, 5);
    let mut manual = Board::empty(5, 5);
    manual.add_glider(0, 0);
    assert_eq!(seeded.cells, manual.cells);
}

#[test]
fn test_with_gliders_dimensions_and_seeding() {
    let board = Board::with_gliders(10, 8);
    assert_eq!(board.width(), 10);
    assert_eq!(board.height(), 8);
    assert_eq!(board.rows().len(), 8);
    for row in board.rows() {
        assert_eq!(row.len(), 10);
    }
    // Ten gliders went in at random anchors; wherever the last one landed,
    // its five cells are distinct on a board this size and stay alive.
    assert!(count_alive(&board) >= 5);
}

#[test]
fn test_add_gliders_keeps_alive_cells() {
    let mut board = Board::empty(7, 7);
    board.set_alive(3, 3);
    board.add_gliders(3);
    assert!(board.is_alive(3, 3));
    assert_eq!(board.width(), 7);
    assert_eq!(board.height(), 7);
}

#[test]
fn test_update_preserves_dimensions() {
    let board = Board::checkered(6, 4);
    let next = board.update();
    assert_eq!(next.width(), 6);
    assert_eq!(next.height(), 4);
    assert_eq!(next.rows().len(), 4);
    for row in next.rows() {
        assert_eq!(row.len(), 6);
    }
}

#[test]
fn test_update_blinker_oscillates() {
    // A vertical blinker in the middle of a 5x5 board turns horizontal,
    // then turns back.
    let mut board = Board::empty(5, 5);
    board.set_alive(2, 1);
    board.set_alive(2, 2);
    board.set_alive(2, 3);

    let step = board.update();
    assert!(step.is_alive(1, 2));
    assert!(step.is_alive(2, 2));
    assert!(step.is_alive(3, 2));
    assert_eq!(count_alive(&step), 3);

    let back = step.update();
    assert_eq!(back.cells, board.cells);
}

#[test]
fn test_neighbour_count_wraps_around_edges() {
    // On a torus the corner (0, 0) is adjacent to the opposite edges.
    let mut board = Board::empty(4, 4);
    board.cells[3][3] = true;
    assert_eq!(board.count_live_neighbours(0, 0), 1);
    assert_eq!(board.count_live_neighbours(3, 0), 1);
    assert_eq!(board.count_live_neighbours(0, 3), 1);
    assert_eq!(board.count_live_neighbours(2, 2), 1);
}

#[test]
fn test_neighbour_count_tiny_boards() {
    // Degenerate boards double-count: each of the eight offsets is counted
    // on its own even when several land on the same physical cell.
    let mut board = Board::empty(2, 2);
    board.cells[0][0] = true;
    board.cells[0][1] = true;
    board.cells[1][0] = true;
    board.cells[1][1] = true;
    assert_eq!(board.count_live_neighbours(0, 0), 8);

    // On a 1x1 board every offset wraps back onto the cell itself, which is
    // never counted.
    let mut lone = Board::empty(1, 1);
    lone.cells[0][0] = true;
    assert_eq!(lone.count_live_neighbours(0, 0), 0);
}

#[test]
fn test_new_and_accessors() {
    let cells = vec![vec![true, false], vec![false, true], vec![true, true]];
    let board = Board::new(cells, 2, 3);
    assert_eq!(board.width(), 2);
    assert_eq!(board.height(), 3);
    assert!(!board.is_empty());
    assert!(board.is_alive(0, 0));
    assert!(!board.is_alive(1, 0));
    assert!(board.is_alive(1, 1));
    assert_eq!(board.rows()[2], vec![true, true]);
}
