use tetris_core::{ActiveFigure, Color, Figure, FigureType, Matrix, Point};

fn all_shapes() -> Vec<FigureType> {
    vec![
        FigureType::I,
        FigureType::J,
        FigureType::L,
        FigureType::O,
        FigureType::S,
        FigureType::T,
        FigureType::Z,
    ]
}

#[test]
fn four_turns_restore_every_shape() {
    for shape in all_shapes() {
        let figure = Figure::new(shape);
        let back = figure.rotated().rotated().rotated().rotated();
        assert_eq!(back, figure);
        assert_eq!(*back.matrix(), shape.initial_matrix());
    }
}

#[test]
fn four_turns_restore_a_turned_piece() {
    for shape in all_shapes() {
        let start = ActiveFigure::new(shape, Point { x: 3, y: -2 }).rotated();
        let back = start.rotated().rotated().rotated().rotated();
        assert_eq!(back, start);
    }
}

#[test]
fn square_shape_never_changes() {
    let mut figure = Figure::new(FigureType::O);
    for _ in 0..9 {
        figure = figure.rotated();
        assert_eq!(*figure.matrix(), Matrix::new(vec![vec![1, 1], vec![1, 1]]));
    }
}

#[test]
fn rotation_step_goes_round_for_every_other_shape() {
    for shape in all_shapes() {
        let mut piece = ActiveFigure::new(shape, Point { x: 0, y: 0 });
        assert_eq!(piece.rotation_step(), 0);
        for turn in 1..10usize {
            piece = piece.rotated();
            let expected = if shape == FigureType::O { 0 } else { turn % 4 };
            assert_eq!(piece.rotation_step(), expected);
        }
    }
}

#[test]
fn every_orientation_has_four_cells_on_its_grid() {
    for shape in all_shapes() {
        let side = shape.initial_matrix().height() as i32;
        let mut figure = Figure::new(shape);
        for _ in 0..4 {
            let cells = figure.to_cartesian();
            assert_eq!(cells.len(), 4);
            for cell in cells {
                assert!(0 <= cell.x && cell.x < side);
                assert!(0 <= cell.y && cell.y < side);
            }
            figure = figure.rotated();
        }
    }
}

#[test]
fn grids_have_the_sides_of_their_shapes() {
    assert_eq!(FigureType::I.initial_matrix().height(), 4);
    assert_eq!(FigureType::I.initial_matrix().width(), 4);
    assert_eq!(FigureType::O.initial_matrix().height(), 2);
    assert_eq!(FigureType::O.initial_matrix().width(), 2);
    for shape in [FigureType::J, FigureType::L, FigureType::S, FigureType::T, FigureType::Z] {
        assert_eq!(shape.initial_matrix().height(), 3);
        assert_eq!(shape.initial_matrix().width(), 3);
    }
}

#[test]
fn initial_patterns() {
    assert_eq!(
        FigureType::I.initial_matrix(),
        Matrix::new(vec![vec![0, 0, 0, 0], vec![1, 1, 1, 1], vec![0, 0, 0, 0], vec![0, 0, 0, 0]])
    );
    assert_eq!(
        FigureType::J.initial_matrix(),
        Matrix::new(vec![vec![1, 0, 0], vec![1, 1, 1], vec![0, 0, 0]])
    );
    assert_eq!(
        FigureType::L.initial_matrix(),
        Matrix::new(vec![vec![0, 0, 1], vec![1, 1, 1], vec![0, 0, 0]])
    );
    assert_eq!(FigureType::O.initial_matrix(), Matrix::new(vec![vec![1, 1], vec![1, 1]]));
    assert_eq!(
        FigureType::S.initial_matrix(),
        Matrix::new(vec![vec![0, 1, 1], vec![1, 1, 0], vec![0, 0, 0]])
    );
    assert_eq!(
        FigureType::T.initial_matrix(),
        Matrix::new(vec![vec![0, 1, 0], vec![1, 1, 1], vec![0, 0, 0]])
    );
    assert_eq!(
        FigureType::Z.initial_matrix(),
        Matrix::new(vec![vec![1, 1, 0], vec![0, 1, 1], vec![0, 0, 0]])
    );
}

#[test]
fn colours_of_the_shapes() {
    assert_eq!(FigureType::I.color(), Color { red: 108, green: 237, blue: 238, alpha: 255 });
    assert_eq!(FigureType::J.color(), Color { red: 0, green: 33, blue: 230, alpha: 255 });
    assert_eq!(FigureType::L.color(), Color { red: 229, green: 162, blue: 67, alpha: 255 });
    assert_eq!(FigureType::O.color(), Color { red: 241, green: 238, blue: 79, alpha: 255 });
    assert_eq!(FigureType::S.color(), Color { red: 221, green: 47, blue: 23, alpha: 255 });
    assert_eq!(FigureType::T.color(), Color { red: 146, green: 45, blue: 231, alpha: 255 });
    assert_eq!(FigureType::Z.color(), Color { red: 110, green: 235, blue: 71, alpha: 255 });
    assert_eq!(Figure::new(FigureType::S).color(), FigureType::S.color());
}

fn points(pairs: [(i32, i32); 5]) -> Vec<Point> {
    pairs.iter().map(|&(x, y)| Point { x, y }).collect()
}

#[test]
fn kick_table_of_the_square_shape_is_one_empty_list() {
    let table = FigureType::O.wall_kick();
    assert_eq!(table.len(), 1);
    assert!(table[0].is_empty());
}

#[test]
fn kick_table_of_the_long_shape() {
    let table = FigureType::I.wall_kick();
    assert_eq!(table.len(), 4);
    assert_eq!(table[0], points([(0, 0), (-2, 0), (1, 0), (-2, -1), (1, 2)]));
    assert_eq!(table[1], points([(0, 0), (-1, 0), (2, 0), (-1, 2), (2, -1)]));
    assert_eq!(table[2], points([(0, 0), (2, 0), (-1, 0), (2, 1), (-1, -2)]));
    assert_eq!(table[3], points([(0, 0), (1, 0), (-2, 0), (1, -2), (-2, 1)]));
}

#[test]
fn kick_table_of_the_other_shapes() {
    for shape in [FigureType::J, FigureType::L, FigureType::S, FigureType::T, FigureType::Z] {
        let table = shape.wall_kick();
        assert_eq!(table.len(), 4);
        assert_eq!(table[0], points([(0, 0), (-1, 0), (-1, 1), (0, -2), (-1, -2)]));
        assert_eq!(table[1], points([(0, 0), (1, 0), (-1, 1), (0, 2), (1, 2)]));
        assert_eq!(table[2], points([(0, 0), (1, 0), (1, 1), (0, -2), (1, -2)]));
        assert_eq!(table[3], points([(0, 0), (-1, 0), (-1, -1), (0, 2), (-1, 2)]));
        assert_eq!(Figure::new(shape).wall_kick_tests(), table);
    }
}

#[test]
fn a_piece_keeps_its_shape_and_a_copy_equals_it() {
    let figure = Figure::new(FigureType::Z).rotated();
    assert_eq!(figure.get_type(), FigureType::Z);
    assert_eq!(figure.clone(), figure);
    let piece = ActiveFigure::new(FigureType::J, Point { x: 4, y: 9 }).rotated();
    assert_eq!(piece.get_type(), FigureType::J);
    assert_eq!(piece.clone(), piece);
    assert_eq!(*piece.figure(), Figure::new(FigureType::J).rotated());
}
