use tetris_core::{Block, Color, Matrix, Point, Size};

fn sample() -> Matrix<u8> {
    Matrix::new(vec![vec![1, 2, 3], vec![4, 5, 6]])
}

#[test]
fn dimensions_of_a_grid() {
    assert_eq!(sample().height(), 2);
    assert_eq!(sample().width(), 3);
    let empty: Matrix<u8> = Matrix::new(vec![]);
    assert_eq!(empty.height(), 0);
    assert_eq!(empty.width(), 0);
}

#[test]
fn reading_a_cell() {
    let grid = sample();
    assert_eq!(grid.at_xy(0, 0), Some(&1));
    assert_eq!(grid.at_xy(2, 0), Some(&3));
    assert_eq!(grid.at_xy(0, 1), Some(&4));
    assert_eq!(grid.at_xy(2, 1), Some(&6));
}

#[test]
fn reading_outside_the_grid_gives_nothing() {
    let grid = sample();
    assert_eq!(grid.at_xy(3, 0), None);
    assert_eq!(grid.at_xy(0, 2), None);
    assert_eq!(grid.at_xy(usize::MAX, usize::MAX), None);
    let empty: Matrix<u8> = Matrix::new(vec![]);
    assert_eq!(empty.at_xy(0, 0), None);
}

#[test]
fn replacing_a_cell_changes_that_cell_only() {
    let grid = sample();
    let changed = grid.replacing_at_xy(1, 1, 9);
    assert_eq!(changed, Matrix::new(vec![vec![1, 2, 3], vec![4, 9, 6]]));
    assert_eq!(grid, sample());
}

#[test]
fn replacing_outside_the_grid_changes_nothing() {
    let grid = sample();
    assert_eq!(grid.replacing_at_xy(3, 0, 9), grid);
    assert_eq!(grid.replacing_at_xy(0, 2, 9), grid);
    assert_eq!(grid.replacing_at_xy(usize::MAX, 0, 9), grid);
}

#[test]
fn reading_a_row() {
    let grid = sample();
    assert_eq!(grid.row_at(0), Some(&vec![1, 2, 3]));
    assert_eq!(grid.row_at(1), Some(&vec![4, 5, 6]));
    assert_eq!(grid.row_at(2), None);
}

#[test]
fn a_quarter_turn_is_clockwise() {
    let grid = Matrix::new(vec![vec![1, 2, 3], vec![4, 5, 6], vec![7, 8, 9]]);
    assert_eq!(grid.rotated(), Matrix::new(vec![vec![7, 4, 1], vec![8, 5, 2], vec![9, 6, 3]]));
    let small = Matrix::new(vec![vec![1, 2], vec![3, 4]]);
    assert_eq!(small.rotated(), Matrix::new(vec![vec![3, 1], vec![4, 2]]));
}

#[test]
fn four_quarter_turns_of_a_square_grid() {
    let grid = Matrix::new(vec![
        vec![1, 2, 3, 4],
        vec![5, 6, 7, 8],
        vec![9, 10, 11, 12],
        vec![13, 14, 15, 16],
    ]);
    assert_eq!(grid.rotated().rotated().rotated().rotated(), grid);
    assert_ne!(grid.rotated(), grid);
    assert_ne!(grid.rotated().rotated(), grid);
}

#[test]
fn a_copy_of_a_grid_equals_it() {
    assert_eq!(sample().clone(), sample());
}

#[test]
fn a_block_keeps_what_it_was_made_of() {
    let color = Color { red: 1, green: 2, blue: 3, alpha: 4 };
    let block = Block::new(-3, 7, 5, 6, color);
    assert_eq!(block.position(), Point { x: -3, y: 7 });
    assert_eq!(block.size(), Size { height: 5, width: 6 });
    assert_eq!(block.color, color);
    assert_eq!(block.rect.origin, Point { x: -3, y: 7 });
}
