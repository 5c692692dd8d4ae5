use tetris_core::{ActiveFigure, FigureType, Point};

#[test]
fn test_to_cartesian_shifted() {
    let figure = ActiveFigure::new(FigureType::O, Point { x: 5, y: 5 });
    let coordinates = figure.to_cartesian();
    let expectation = vec![
        Point { x: 5, y: 5 },
        Point { x: 6, y: 5 },
        Point { x: 5, y: 6 },
        Point { x: 6, y: 6 },
    ];
    assert_eq!(coordinates, expectation);
}

#[test]
fn test_color() {
    let figure_type = FigureType::T;
    let figure = ActiveFigure::new(FigureType::T, Point { x: 0, y: 0 });
    assert_eq!(figure.color(), figure_type.color());
}

#[test]
fn test_update_position() {
    let figure = ActiveFigure::new(FigureType::L, Point { x: 0, y: 0 });
    let moved = figure.updating_position_by_xy(5, 5);
    assert_eq!(moved.position(), Point { x: 5, y: 5 });
}

#[test]
fn test_left_edge() {
    let figure = ActiveFigure::new(FigureType::L, Point { x: 2, y: 2 });
    let edge = figure.left_edge();
    assert_eq!(edge, 2);
    let rotated_edge = figure.rotated().left_edge();
    assert_eq!(rotated_edge, 3);
}

#[test]
fn test_right_edge() {
    let figure = ActiveFigure::new(FigureType::I, Point { x: 2, y: 2 });
    let edge = figure.right_edge();
    assert_eq!(edge, 5);
    let rotated_edge = figure.rotated().right_edge();
    assert_eq!(rotated_edge, 4);
}

#[test]
fn test_right_edge_l_horizontal() {
    let figure = ActiveFigure::new(FigureType::I, Point { x: 17, y: 2 });
    let edge = figure.right_edge();
    assert_eq!(edge, 20);
}

#[test]
fn test_bottom_edge() {
    let figure = ActiveFigure::new(FigureType::I, Point { x: 2, y: 2 });
    let edge = figure.bottom_edge();
    assert_eq!(edge, 3);
    let rotated_edge = figure.rotated().bottom_edge();
    assert_eq!(rotated_edge, 5);
}

#[test]
fn test_rotation_steps_o_figure() {
    let figure = ActiveFigure::new(FigureType::O, Point { x: 0, y: 0 });
    let rotated_01 = figure.rotated();
    let rotated_02 = rotated_01.rotated();
    assert_eq!(rotated_01.rotation_step(), 0);
    assert_eq!(rotated_02.rotation_step(), 0);
}

#[test]
fn test_totation_steps_non_o_figures() {
    let figure = ActiveFigure::new(FigureType::I, Point { x: 0, y: 0 });
    let rotation_01 = figure.rotated();
    let rotation_02 = rotation_01.rotated();
    let rotation_03 = rotation_02.rotated();
    let rotation_04 = rotation_03.rotated();

    assert_eq!(figure.rotation_step(), 0);
    assert_eq!(rotation_01.rotation_step(), 1);
    assert_eq!(rotation_02.rotation_step(), 2);
    assert_eq!(rotation_03.rotation_step(), 3);
    assert_eq!(rotation_04.rotation_step(), 0);
}

#[test]
fn test_moved_left() {
    let figure = ActiveFigure::new(FigureType::I, Point { x: 1, y: 0 });
    assert_eq!(figure.moved_left().position(), Point { x: 0, y: 0 });
}

#[test]
fn test_moved_right() {
    let figure = ActiveFigure::new(FigureType::I, Point { x: 1, y: 0 });
    assert_eq!(figure.moved_right().position(), Point { x: 2, y: 0 });
}

#[test]
fn test_moved_down() {
    let figure = ActiveFigure::new(FigureType::I, Point { x: 1, y: 0 });
    assert_eq!(figure.moved_down().position(), Point { x: 1, y: 1 });
}
