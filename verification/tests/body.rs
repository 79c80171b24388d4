use snake::body::{all_distinct, contains, first_free_cell, on_board, BOARD_CELLS};
use snake::grid::{Position, TILES_H, TILES_W};

fn at(x: i32, y: i32) -> Position {
    Position { x, y }
}

fn board_without(holes: &[Position]) -> Vec<Position> {
    let mut cells = Vec::new();
    for y in 0..TILES_H {
        for x in 0..TILES_W {
            if !holes.contains(&at(x, y)) {
                cells.push(at(x, y));
            }
        }
    }
    cells
}

#[test]
fn contains_finds_what_is_on_the_list() {
    let cells = vec![at(1, 2), at(3, 4), at(5, 6)];
    assert!(contains(&cells, at(1, 2)));
    assert!(contains(&cells, at(5, 6)));
    assert!(!contains(&cells, at(2, 1)));
    assert!(!contains(&Vec::new(), at(0, 0)));
}

#[test]
fn on_board_checks_every_entry() {
    assert!(on_board(&Vec::new()));
    assert!(on_board(&vec![at(0, 0), at(18, 18)]));
    assert!(!on_board(&vec![at(0, 0), at(19, 18)]));
    assert!(!on_board(&vec![at(0, -1), at(1, 1)]));
}

#[test]
fn all_distinct_spots_a_repeated_cell() {
    assert!(all_distinct(&Vec::new()));
    assert!(all_distinct(&vec![at(5, 5), at(6, 5), at(7, 5)]));
    assert!(!all_distinct(&vec![at(5, 5), at(6, 5), at(5, 5)]));
    assert!(!all_distinct(&vec![at(6, 5), at(6, 5)]));
}

#[test]
fn first_free_cell_reads_row_by_row() {
    assert_eq!(first_free_cell(&Vec::new()), Some(at(0, 0)));
    assert_eq!(first_free_cell(&vec![at(0, 0)]), Some(at(1, 0)));
    assert_eq!(first_free_cell(&vec![at(1, 0), at(0, 0), at(0, 1)]), Some(at(2, 0)));
    let first_row: Vec<Position> = (0..TILES_W).map(|x| at(x, 0)).collect();
    assert_eq!(first_free_cell(&first_row), Some(at(0, 1)));
}

#[test]
fn first_free_cell_finds_the_only_hole() {
    assert_eq!(first_free_cell(&board_without(&[at(18, 18)])), Some(at(18, 18)));
    assert_eq!(first_free_cell(&board_without(&[at(7, 3)])), Some(at(7, 3)));
    assert_eq!(first_free_cell(&board_without(&[at(7, 3), at(2, 9)])), Some(at(7, 3)));
}

#[test]
fn first_free_cell_is_none_on_a_full_board() {
    let full = board_without(&[]);
    assert_eq!(full.len(), 361);
    assert_eq!(first_free_cell(&full), None);
}

#[test]
fn board_cells_counts_the_board() {
    assert_eq!(BOARD_CELLS, 361);
    assert_eq!(BOARD_CELLS, (TILES_W * TILES_H) as usize);
    let full = board_without(&[]);
    assert_eq!(full.len(), BOARD_CELLS);
    assert!(all_distinct(&full));
    assert!(on_board(&full));
    let mut longer = full.clone();
    longer.push(at(0, 0));
    assert!(!all_distinct(&longer));
}
