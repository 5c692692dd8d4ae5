use tetris_core::{Board, FigureType, Matrix, Point, Size};

#[test]
fn test_height() {
    let height = 10;
    let board = Board::new(&Size { height, width: 10 });
    assert_eq!(board.height(), height as usize);
}

#[test]
fn test_width() {
    let width = 10;
    let board = Board::new(&Size { height: 10, width });
    assert_eq!(board.width(), width);
}

#[test]
fn test_replacing_figure() {
    let board = Board::new(&Size { height: 2, width: 1 });
    let replaced_board = board.replacing_figure_at_xy(0, 0, Some(FigureType::I));
    assert!(replaced_board.matrix().at_xy(0, 0).is_some());
}

#[test]
fn test_does_not_contains() {
    let board = Board::new(&Size { height: 4, width: 4 });
    assert!(!board.contains(Point { x: 0, y: 0 }));
    assert!(!board.contains(Point { x: 100, y: 100 }));
    let board_with_figure = board.replacing_figure_at_xy(0, 0, Some(FigureType::I));
    assert!(board_with_figure.contains(Point { x: 0, y: 0 }));
}

#[test]
fn test_contains() {
    let board = Board::new(&Size { height: 4, width: 4 });
    let board_with_figure = board.replacing_figure_at_xy(0, 0, Some(FigureType::I));
    assert!(board_with_figure.contains(Point { x: 0, y: 0 }));
}

#[test]
fn test_removing_lines() {
    let board = Board::new(&Size { height: 4, width: 1 });
    let board_02 = board.replacing_figure_at_xy(0, 0, Some(FigureType::I));
    let board_03 = board_02.replacing_figure_at_xy(0, 3, Some(FigureType::I));
    let final_board = board_03.removing_lines(&vec![3]);

    let expectation = Matrix::new(vec![
        vec![None],
        vec![Some(FigureType::I)],
        vec![None],
        vec![None],
    ]);

    assert_eq!(*final_board.matrix(), expectation);

    let final_board_02 = board_03.removing_lines(&vec![0, 3]);
    let expectation_02 = Matrix::new(vec![vec![None], vec![None], vec![None], vec![None]]);

    assert_eq!(*final_board_02.matrix(), expectation_02);
}
