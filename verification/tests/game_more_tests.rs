use std::cell::{Cell, RefCell};
use std::rc::Rc;
use tetris_core::game::shape_drawn;
use tetris_core::{
    Action, ActiveFigure, Block, Board, Color, FigureType, Game, Point, Randomizer, Rect, Size,
};

/// Hands out the given numbers in turn, over and over, and notes what it
/// was asked for.
struct Sequence {
    numbers: Vec<i32>,
    at: Cell<usize>,
    asked: Rc<RefCell<Vec<(i32, i32)>>>,
}

impl Randomizer for Sequence {
    fn random_between(&self, first: i32, last: i32) -> i32 {
        self.asked.borrow_mut().push((first, last));
        let at = self.at.get();
        self.at.set(at + 1);
        self.numbers[at % self.numbers.len()]
    }
}

fn game_with(height: usize, width: usize, numbers: Vec<i32>) -> Game {
    let source = Sequence { numbers, at: Cell::new(0), asked: Rc::new(RefCell::new(vec![])) };
    Game::new(&Size { height, width }, Box::new(source))
}

fn filled(board: &Board, cells: &[(usize, usize)], shape: FigureType) -> Board {
    let mut board = board.clone();
    for &(x, y) in cells {
        board = board.replacing_figure_at_xy(x, y, Some(shape));
    }
    board
}

fn unit(x: i32, y: i32, color: Color) -> Block {
    Block { rect: Rect { origin: Point { x, y }, size: Size { height: 1, width: 1 } }, color }
}

#[test]
fn numbers_stand_for_shapes() {
    assert_eq!(shape_drawn(0), FigureType::I);
    assert_eq!(shape_drawn(1), FigureType::J);
    assert_eq!(shape_drawn(2), FigureType::L);
    assert_eq!(shape_drawn(3), FigureType::O);
    assert_eq!(shape_drawn(4), FigureType::S);
    assert_eq!(shape_drawn(5), FigureType::T);
    assert_eq!(shape_drawn(6), FigureType::Z);
    assert_eq!(shape_drawn(7), FigureType::Z);
    assert_eq!(shape_drawn(-1), FigureType::Z);
    assert_eq!(shape_drawn(i32::MIN), FigureType::Z);
    assert_eq!(shape_drawn(i32::MAX), FigureType::Z);
}

#[test]
fn start_points() {
    assert_eq!(Game::figure_start_point(0), Point { x: -2, y: 0 });
    assert_eq!(Game::figure_start_point(1), Point { x: -2, y: 0 });
    assert_eq!(Game::figure_start_point(2), Point { x: -1, y: 0 });
    assert_eq!(Game::figure_start_point(4), Point { x: 0, y: 0 });
    assert_eq!(Game::figure_start_point(5), Point { x: 0, y: 0 });
    assert_eq!(Game::figure_start_point(20), Point { x: 8, y: 0 });
    assert_eq!(Game::figure_start_point(2147483640), Point { x: 1073741818, y: 0 });
}

#[test]
fn a_new_game() {
    let game = game_with(12, 9, vec![2, 4]);
    assert_eq!(game.get_score(), 0);
    assert!(!game.is_game_over());
    assert_eq!(game.board().height(), 12);
    assert_eq!(game.board().width(), 9);
    assert!(game.draw_board().is_empty());
    assert_eq!(*game.active(), ActiveFigure::new(FigureType::L, Point { x: 2, y: 0 }));
    assert_eq!(*game.next(), ActiveFigure::new(FigureType::S, Point { x: 2, y: 0 }));
}

#[test]
fn shapes_are_drawn_from_zero_to_six() {
    let asked = Rc::new(RefCell::new(vec![]));
    let source = Sequence { numbers: vec![3], at: Cell::new(0), asked: asked.clone() };
    let mut game = Game::new(&Size { height: 2, width: 4 }, Box::new(source));
    assert_eq!(*asked.borrow(), vec![(0, 6), (0, 6)]);
    game.update(201); // the square piece rests on the floor of a field 2 high
    assert_eq!(*asked.borrow(), vec![(0, 6), (0, 6), (0, 6)]);
    let piece = Game::random_figure(
        Point { x: 7, y: 1 },
        &(Box::new(Sequence { numbers: vec![1], at: Cell::new(0), asked: asked.clone() })
            as Box<dyn Randomizer>),
    );
    assert_eq!(piece, ActiveFigure::new(FigureType::J, Point { x: 7, y: 1 }));
}

#[test]
fn no_step_before_more_than_one_period_has_gone_by() {
    let mut game = game_with(10, 10, vec![5]);
    game.update(200);
    assert_eq!(game.active().position(), Point { x: 3, y: 0 });
    game.update(0);
    assert_eq!(game.active().position(), Point { x: 3, y: 0 });
    game.update(1);
    assert_eq!(game.active().position(), Point { x: 3, y: 1 });
}

#[test]
fn time_held_back_adds_up_and_starts_again_after_a_step() {
    let mut game = game_with(10, 10, vec![5]);
    game.update(100);
    game.update(100);
    assert_eq!(game.active().position().y, 0);
    game.update(1);
    assert_eq!(game.active().position().y, 1);
    game.update(200);
    assert_eq!(game.active().position().y, 1);
    game.update(1);
    assert_eq!(game.active().position().y, 2);
}

#[test]
fn a_long_time_makes_one_step_only() {
    let mut game = game_with(10, 10, vec![5]);
    game.update(u64::MAX);
    assert_eq!(game.active().position().y, 1);
    game.update(u64::MAX);
    assert_eq!(game.active().position().y, 2);
}

#[test]
fn a_step_moves_the_piece_down_one_row() {
    let mut game = game_with(10, 10, vec![0]);
    let before = game.active().clone();
    game.update_game();
    assert_eq!(*game.active(), before.moved_down());
    assert!(game.draw_board().is_empty());
    assert_eq!(game.get_score(), 0);
}

#[test]
fn a_piece_at_rest_is_written_into_the_field_in_its_colour() {
    let mut game = game_with(5, 6, vec![3, 0, 1]);
    game.set_active(ActiveFigure::new(FigureType::L, Point { x: 1, y: 3 }));
    game.update_game();
    assert_eq!(*game.board().figure_at_xy(3, 3), Some(FigureType::L));
    assert_eq!(*game.board().figure_at_xy(1, 4), Some(FigureType::L));
    assert_eq!(*game.board().figure_at_xy(2, 4), Some(FigureType::L));
    assert_eq!(*game.board().figure_at_xy(3, 4), Some(FigureType::L));
    let colour = FigureType::L.color();
    assert_eq!(
        game.draw_board(),
        vec![unit(3, 3, colour), unit(1, 4, colour), unit(2, 4, colour), unit(3, 4, colour)]
    );
}

#[test]
fn the_piece_that_waited_falls_next_and_a_new_one_waits() {
    let mut game = game_with(5, 6, vec![3, 0, 1]);
    game.set_active(ActiveFigure::new(FigureType::L, Point { x: 1, y: 3 }));
    game.update_game();
    assert_eq!(*game.active(), ActiveFigure::new(FigureType::I, Point { x: 1, y: 0 }));
    assert_eq!(*game.next(), ActiveFigure::new(FigureType::J, Point { x: 1, y: 0 }));
    assert!(!game.is_game_over());
}

#[test]
fn one_completed_row_earns_a_hundred_points_and_is_taken_out() {
    let mut game = game_with(3, 4, vec![5]);
    let board = filled(game.board(), &[(2, 2), (3, 2), (3, 1)], FigureType::Z);
    game.set_board(board);
    game.set_active(ActiveFigure::new(FigureType::O, Point { x: 0, y: 1 }));
    game.update(201);
    assert_eq!(game.get_score(), 100);
    assert_eq!(*game.board().get_line(0).unwrap(), vec![None, None, None, None]);
    assert_eq!(*game.board().get_line(1).unwrap(), vec![None, None, None, None]);
    assert_eq!(
        *game.board().get_line(2).unwrap(),
        vec![Some(FigureType::O), Some(FigureType::O), None, Some(FigureType::Z)]
    );
}

#[test]
fn two_completed_rows_earn_two_hundred_points() {
    let mut game = game_with(4, 4, vec![5]);
    let board = filled(game.board(), &[(2, 2), (3, 2), (2, 3), (3, 3), (0, 1)], FigureType::Z);
    game.set_board(board);
    game.set_active(ActiveFigure::new(FigureType::O, Point { x: 0, y: 2 }));
    game.update(201);
    assert_eq!(game.get_score(), 200);
    assert_eq!(*game.board().get_line(2).unwrap(), vec![None, None, None, None]);
    assert_eq!(*game.board().get_line(3).unwrap(), vec![Some(FigureType::Z), None, None, None]);
}

#[test]
fn no_completed_row_earns_nothing() {
    let mut game = game_with(4, 4, vec![5]);
    game.set_active(ActiveFigure::new(FigureType::O, Point { x: 0, y: 2 }));
    game.update(201);
    assert_eq!(game.get_score(), 0);
    assert_eq!(game.draw_board().len(), 4);
}

#[test]
fn points_add_up() {
    let mut game = game_with(4, 4, vec![3]);
    for round in 1..4u64 {
        let board = filled(game.board(), &[(2, 2), (3, 2), (2, 3), (3, 3)], FigureType::Z);
        game.set_board(board);
        game.set_active(ActiveFigure::new(FigureType::O, Point { x: 0, y: 2 }));
        game.update(201);
        assert_eq!(game.get_score(), 200 * round);
        assert!(game.draw_board().is_empty());
        assert!(!game.is_game_over());
    }
}

#[test]
fn cells_outside_the_field_are_passed_over_when_a_piece_comes_to_rest() {
    let mut game = game_with(3, 2, vec![5]);
    // The T piece starts one column left of a field 2 wide.
    assert_eq!(game.active().position(), Point { x: -1, y: 0 });
    game.add_active_figure_to_board();
    assert_eq!(*game.board().get_line(0).unwrap(), vec![Some(FigureType::T), None]);
    assert_eq!(
        *game.board().get_line(1).unwrap(),
        vec![Some(FigureType::T), Some(FigureType::T)]
    );
    assert_eq!(*game.board().get_line(2).unwrap(), vec![None, None]);
}

#[test]
fn the_game_is_over_when_the_new_piece_has_no_room() {
    let mut game = game_with(6, 10, vec![5]);
    let board = filled(game.board(), &[(4, 1)], FigureType::S);
    game.set_board(board);
    game.set_active(ActiveFigure::new(FigureType::O, Point { x: 0, y: 4 }));
    assert!(!game.is_game_over());
    game.update(201);
    assert!(game.is_game_over());
    assert_eq!(*game.active(), ActiveFigure::new(FigureType::T, Point { x: 3, y: 0 }));
    assert_eq!(game.draw_board().len(), 5);
}

#[test]
fn a_game_that_is_over_stays_as_it_is() {
    let mut game = game_with(6, 10, vec![5]);
    let board = filled(game.board(), &[(4, 1)], FigureType::S);
    game.set_board(board);
    game.set_active(ActiveFigure::new(FigureType::O, Point { x: 0, y: 4 }));
    game.update(201);
    assert!(game.is_game_over());
    let board = game.draw_board();
    let active = game.active().clone();
    let next = game.next().clone();
    let score = game.get_score();
    for _ in 0..5 {
        game.update(201);
        game.update_game();
        game.perform(Action::MoveLeft);
        game.perform(Action::MoveRight);
        game.perform(Action::MoveDown);
        game.perform(Action::Rotate);
        assert!(game.is_game_over());
        assert_eq!(game.draw_board(), board);
        assert_eq!(*game.active(), active);
        assert_eq!(*game.next(), next);
        assert_eq!(game.get_score(), score);
    }
}

#[test]
fn the_piece_cannot_leave_the_field_however_often_it_is_moved() {
    let mut game = game_with(8, 6, vec![2]);
    for _ in 0..20 {
        game.perform(Action::MoveLeft);
        assert!(game.active().left_edge() >= 0);
    }
    assert_eq!(game.active().left_edge(), 0);
    for _ in 0..20 {
        game.perform(Action::MoveRight);
        assert!(game.active().right_edge() <= 5);
    }
    assert_eq!(game.active().right_edge(), 5);
    for _ in 0..20 {
        game.perform(Action::MoveDown);
        assert!(game.active().bottom_edge() <= 7);
    }
    assert_eq!(game.active().bottom_edge(), 7);
    for _ in 0..20 {
        game.perform(Action::Rotate);
        assert!(game.active().left_edge() >= 0);
        assert!(game.active().right_edge() <= 5);
        assert!(game.active().bottom_edge() <= 7);
    }
}

#[test]
fn a_move_onto_a_filled_cell_is_not_made() {
    let mut game = game_with(8, 8, vec![3]);
    let board = filled(game.board(), &[(1, 4), (6, 4), (4, 6)], FigureType::S);
    game.set_board(board);
    game.set_active(ActiveFigure::new(FigureType::O, Point { x: 2, y: 3 }));
    game.perform(Action::MoveLeft);
    assert_eq!(game.active().position(), Point { x: 2, y: 3 });
    game.set_active(ActiveFigure::new(FigureType::O, Point { x: 4, y: 3 }));
    game.perform(Action::MoveRight);
    assert_eq!(game.active().position(), Point { x: 4, y: 3 });
    game.perform(Action::MoveDown);
    assert_eq!(game.active().position(), Point { x: 4, y: 4 });
    game.perform(Action::MoveDown);
    assert_eq!(game.active().position(), Point { x: 4, y: 4 });
}

#[test]
fn a_turn_takes_the_first_candidate_that_fits() {
    let mut game = game_with(10, 10, vec![5]);
    // The T piece in place would reach the filled cell to its right; one
    // column further left it fits.
    let board = filled(game.board(), &[(6, 5)], FigureType::S);
    game.set_board(board);
    game.set_active(ActiveFigure::new(FigureType::T, Point { x: 4, y: 4 }));
    game.perform(Action::Rotate);
    assert_eq!(game.active().position(), Point { x: 3, y: 4 });
    assert_eq!(game.active().rotation_step(), 1);
}

#[test]
fn a_turn_that_fits_nowhere_is_not_made() {
    let mut game = game_with(6, 1, vec![0]);
    let upright = ActiveFigure::new(FigureType::I, Point { x: -2, y: 0 }).rotated();
    game.set_active(upright.clone());
    game.perform(Action::Rotate);
    assert_eq!(*game.active(), upright);
}

#[test]
fn the_square_piece_is_never_turned() {
    let mut game = game_with(6, 6, vec![3]);
    let before = game.active().clone();
    game.perform(Action::Rotate);
    assert_eq!(*game.active(), before);
}

#[test]
fn the_field_is_drawn_before_the_piece() {
    let mut game = game_with(6, 6, vec![3]);
    let board = filled(game.board(), &[(5, 5), (0, 4)], FigureType::J);
    game.set_board(board);
    let j = FigureType::J.color();
    let o = FigureType::O.color();
    assert_eq!(
        game.draw(),
        vec![
            unit(0, 4, j),
            unit(5, 5, j),
            unit(1, 0, o),
            unit(2, 0, o),
            unit(1, 1, o),
            unit(2, 1, o),
        ]
    );
}

#[test]
fn replaced_parts_of_a_game_are_read_back() {
    let mut game = game_with(6, 6, vec![3]);
    let piece = ActiveFigure::new(FigureType::Z, Point { x: -3, y: -5 });
    game.set_active(piece.clone());
    assert_eq!(*game.active(), piece);
    let board = filled(game.board(), &[(2, 2)], FigureType::I);
    game.set_board(board.clone());
    assert_eq!(game.board().matrix(), board.matrix());
}
