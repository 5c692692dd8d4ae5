use vstd::prelude::*;
use crate::active_figure::{views_of, ActiveFigure, ActiveFigureView};
use crate::block::Block;
use crate::board::Board;
use crate::figure_type::FigureType;
use crate::game_model::{
    blocks_in_row, blocks_in_rows, first_valid, full_rows, is_full_row, lemma_settled_keeps_size,
    piece_blocks, settled, shape_for, start_point, GameView,
};
use crate::geometry::{Point, Size};
use crate::move_validator::{can_move_down, has_valid_position, may_descend, valid_position};

verus! {

/// The time between two steps of the simulation, in milliseconds.
pub const MOVING_PERIOD: u64 = 200;

/// The points awarded for each row that a piece completes.
pub const ROW_SCORE: u64 = 100;

/// The largest height and the largest width of a field. It leaves room
/// for every position that a move may try, and for the cells of a piece
/// there, before the largest `i32`.
pub const MAX_SIDE: usize = 2147483640;

/// What a player can ask of the falling piece.
#[derive(Debug, Clone, Copy, PartialEq, Eq, Structural)]
pub enum Action {
    MoveDown,
    MoveLeft,
    MoveRight,
    Rotate,
}

/// A source of numbers that picks the shapes of the pieces to come.
pub trait Randomizer {
    /// Some number from `first` to `last`, both included. It is asked for
    /// a range that holds a number at least.
    fn random_between(&self, first: i32, last: i32) -> i32
        requires
            first <= last,
    ;
}

#[derive(Debug, Clone, Copy, PartialEq, Eq, Structural)]
pub enum GameState {
    Playing,
    GameOver,
}

/// The shape that a drawn number stands for.
pub fn shape_drawn(draw: i32) -> (kind: FigureType)
    ensures
        kind == shape_for(draw as int),
{
    match draw {
        0 => FigureType::I,
        1 => FigureType::J,
        2 => FigureType::L,
        3 => FigureType::O,
        4 => FigureType::S,
        5 => FigureType::T,
        _ => FigureType::Z,
    }
}

/// A game: the field, the falling piece, the piece to come, the score,
/// the time gone by since the last step, and whether the game is over.
pub struct Game {
    board: Board,
    score: u64,
    active: ActiveFigure,
    next: ActiveFigure,
    waiting_time: u64,
    randomizer: Box<dyn Randomizer + 'static>,
    state: GameState,
}

impl View for Game {
    type V = GameView;

    closed spec fn view(&self) -> GameView {
        GameView {
            board: self.board@,
            score: self.score as nat,
            active: self.active@,
            next: self.next@,
            waiting_time: self.waiting_time as nat,
            state: self.state,
        }
    }
}

impl Game {
    /// The game is well formed at every moment.
    #[verifier::type_invariant]
    pub open spec fn wf(&self) -> bool {
        self@.wf()
    }

    /// A game on an empty field of the given size. The shapes of the
    /// falling piece and of the piece to come are drawn from `randomizer`.
    pub fn new(size: &Size, randomizer: Box<dyn Randomizer + 'static>) -> (game: Game)
        requires
            1 <= size.height <= MAX_SIDE,
            1 <= size.width <= MAX_SIDE,
        ensures
            game@ == GameView::begun(
                size.height as nat,
                size.width as nat,
                game@.active.figure.kind,
                game@.next.figure.kind,
            ),
            game.wf(),
    {
        let start_point = Game::figure_start_point(size.width);
        let active = Game::random_figure(start_point, &randomizer);
        let next = Game::random_figure(start_point, &randomizer);
        let board = Board::new(size);
        Game { board, score: 0, active, next, waiting_time: 0, randomizer, state: GameState::Playing }
    }

    /// Where the grid of a new piece is put on a field of the given width:
    /// in the first row, two columns left of the middle.
    pub fn figure_start_point(width: usize) -> (point: Point)
        requires
            width / 2 - 2 <= i32::MAX,
        ensures
            point == start_point(width as nat),
    {
        let half: usize = width / 2;
        let mid_point: i32 = if half >= 2 {
            (half - 2) as i32
        } else {
            half as i32 - 2
        };
        Point { x: mid_point, y: 0 }
    }

    /// A new piece at `position` whose shape is drawn from `randomizer`.
    pub fn random_figure(position: Point, randomizer: &Box<dyn Randomizer + 'static>) -> (piece:
        ActiveFigure)
        ensures
            piece@ == ActiveFigureView::spawned(piece@.figure.kind, position),
    {
        let figure = shape_drawn(randomizer.random_between(0, 6));
        ActiveFigure::new(figure, position)
    }

    pub fn is_game_over(&self) -> (over: bool)
        ensures
            over == (self@.state == GameState::GameOver),
    {
        self.state == GameState::GameOver
    }

    /// The field.
    pub fn board(&self) -> (board: &Board)
        ensures
            board@ == self@.board,
    {
        &self.board
    }

    /// The falling piece.
    pub fn active(&self) -> (piece: &ActiveFigure)
        ensures
            piece@ == self@.active,
    {
        &self.active
    }

    /// The piece to come.
    pub fn next(&self) -> (piece: &ActiveFigure)
        ensures
            piece@ == self@.next,
    {
        &self.next
    }

    /// Puts `board` in the place of the field. It has the dimensions of
    /// the field.
    pub fn set_board(&mut self, board: Board)
        requires
            board@.height() == old(self)@.board.height(),
            board@.width() == old(self)@.board.width(),
        ensures
            final(self)@ == (GameView { board: board@, ..old(self)@ }),
    {
        proof {
            use_type_invariant(&*self);
            use_type_invariant(&board);
        }
        self.board = board;
    }

    /// Puts `piece` in the place of the falling piece. It lies at a
    /// position that the game admits.
    pub fn set_active(&mut self, piece: ActiveFigure)
        requires
            old(self)@.admits(piece@.position),
        ensures
            final(self)@ == (GameView { active: piece@, ..old(self)@ }),
    {
        proof {
            use_type_invariant(&*self);
            use_type_invariant(&piece);
        }
        self.active = piece;
    }

    /// What to draw: a square of side 1 for each filled cell of the field,
    /// then one for each cell of the falling piece.
    pub fn draw(&self) -> (blocks: Vec<Block>)
        ensures
            blocks@ == self@.drawn(),
    {
        let mut blocks = self.draw_board();
        let mut figure = self.draw_active_figure();
        blocks.append(&mut figure);
        blocks
    }

    fn draw_active_figure(&self) -> (blocks: Vec<Block>)
        ensures
            blocks@ == piece_blocks(self@.active),
    {
        proof {
            use_type_invariant(self);
            self@.lemma_nearby_fits(0, 0);
        }
        let figure = self.active.to_cartesian();
        let color = self.active.color();
        let mut blocks: Vec<Block> = Vec::new();
        let mut i: usize = 0;
        while i < figure.len()
            invariant
                figure@ == self@.active.world_cells(),
                color == self@.active.figure.kind.palette(),
                i <= figure.len(),
                blocks@ == piece_blocks(self@.active).take(i as int),
            decreases figure.len() - i,
        {
            let point = figure[i];
            blocks.push(Block::new(point.x, point.y, 1, 1, color));
            assert(blocks@ =~= piece_blocks(self@.active).take(i + 1));
            i += 1;
        }
        assert(blocks@ =~= piece_blocks(self@.active));
        blocks
    }

    /// A square of side 1 for each filled cell of the field, row after row
    /// from the top, in the colour of the shape that the cell holds.
    pub fn draw_board(&self) -> (blocks: Vec<Block>)
        ensures
            blocks@ == blocks_in_rows(self@.board, self@.board.height() as int),
    {
        proof {
            use_type_invariant(self);
        }
        let mut blocks: Vec<Block> = Vec::new();
        let height: usize = self.board.height();
        let width: usize = self.board.width();
        let mut y: usize = 0;
        while y < height
            invariant
                self@.board.wf(),
                height == self@.board.height(),
                width == self@.board.width(),
                height <= MAX_SIDE,
                width <= MAX_SIDE,
                y <= height,
                blocks@ == blocks_in_rows(self@.board, y as int),
            decreases height - y,
        {
            let ghost before = blocks@;
            let mut x: usize = 0;
            assert(self@.board.rows[y as int].len() == width);
            while x < width
                invariant
                    self@.board.wf(),
                    height == self@.board.height(),
                    width == self@.board.width(),
                    self@.board.rows[y as int].len() == width,
                    height <= MAX_SIDE,
                    width <= MAX_SIDE,
                    y < height,
                    x <= width,
                    blocks@ == before + blocks_in_row(self@.board.rows[y as int], y as int, x as int),
                decreases width - x,
            {
                if let Some(square) = self.board.figure_at_xy(x, y) {
                    let block = Block::new(x as i32, y as i32, 1, 1, square.color());
                    blocks.push(block);
                }
                x += 1;
            }
            y += 1;
        }
        blocks
    }

    /// Lets `delta_time` milliseconds go by. They are added to the time
    /// held back; once that is more than one period, one step of the
    /// simulation is made and no time is held back. Where the falling
    /// piece comes to rest, the score has room for what it earns.
    pub fn update(&mut self, delta_time: u64)
        requires
            old(self)@.lock_due(delta_time as nat) ==> old(self)@.score + old(self)@.lock_gain()
                <= u64::MAX,
        ensures
            final(self)@ == old(self)@.ticked(delta_time as nat, final(self)@.next.figure.kind),
    {
        proof {
            use_type_invariant(&*self);
        }
        if delta_time > MOVING_PERIOD - self.waiting_time {
            self.update_game();
            proof {
                use_type_invariant(&*self);
            }
            self.waiting_time = 0;
        } else {
            self.waiting_time = self.waiting_time + delta_time;
        }
    }

    /// One step of the simulation. A game that is over stays as it is. A
    /// piece that may descend goes one row down; any other piece comes to
    /// rest, and the score has room for what it earns.
    pub fn update_game(&mut self)
        requires
            old(self)@.state == GameState::Playing && !may_descend(
                old(self)@.active,
                old(self)@.board,
            ) ==> old(self)@.score + old(self)@.lock_gain() <= u64::MAX,
        ensures
            final(self)@ == old(self)@.stepped(final(self)@.next.figure.kind),
    {
        proof {
            use_type_invariant(&*self);
            self@.lemma_nearby_fits(0, 1);
        }
        if self.state == GameState::GameOver {
            return ;
        }
        if can_move_down(&self.active, &self.board) {
            self.move_down();
        } else {
            self.update_next_figure();
        }
    }

    fn update_next_figure(&mut self)
        requires
            old(self)@.score + old(self)@.lock_gain() <= u64::MAX,
        ensures
            final(self)@ == old(self)@.after_lock(final(self)@.next.figure.kind),
    {
        proof {
            use_type_invariant(&*self);
            old(self)@.lemma_lock_keeps_size();
        }
        self.add_active_figure_to_board();
        let completed_lines_count: usize = self.remove_completed_lines();
        self.add_score_for(completed_lines_count);
        self.add_new_active_figure();
        self.update_state();
    }

    fn update_state(&mut self)
        ensures
            final(self)@ == (GameView {
                state: if old(self)@.active.position.y == 0 && !valid_position(
                    old(self)@.active,
                    old(self)@.board,
                ) {
                    GameState::GameOver
                } else {
                    old(self)@.state
                },
                ..old(self)@
            }),
    {
        proof {
            use_type_invariant(&*self);
        }
        if self.check_is_game_over() {
            self.state = GameState::GameOver;
        }
    }

    /// Does what the player asks of the falling piece, where the field
    /// allows it. A game that is over stays as it is.
    pub fn perform(&mut self, action: Action)
        ensures
            final(self)@ == old(self)@.performed(action),
    {
        if self.state == GameState::GameOver {
            return ;
        }
        match action {
            Action::MoveLeft => self.move_left(),
            Action::MoveRight => self.move_right(),
            Action::MoveDown => self.move_down(),
            Action::Rotate => self.rotate_active_figure(),
        }
    }

    fn move_left(&mut self)
        ensures
            final(self)@ == old(self)@.offered(old(self)@.active.moved(-1, 0)),
    {
        proof {
            use_type_invariant(&*self);
            self@.lemma_nearby_fits(-1, 0);
        }
        let moved = self.active.moved_left();
        self.update_active_with(moved);
    }

    fn move_right(&mut self)
        ensures
            final(self)@ == old(self)@.offered(old(self)@.active.moved(1, 0)),
    {
        proof {
            use_type_invariant(&*self);
            self@.lemma_nearby_fits(1, 0);
        }
        let moved = self.active.moved_right();
        self.update_active_with(moved);
    }

    fn move_down(&mut self)
        ensures
            final(self)@ == old(self)@.offered(old(self)@.active.moved(0, 1)),
    {
        proof {
            use_type_invariant(&*self);
            self@.lemma_nearby_fits(0, 1);
        }
        let moved = self.active.moved_down();
        self.update_active_with(moved);
    }

    fn rotate_active_figure(&mut self)
        ensures
            final(self)@ == (match old(self)@.kicked() {
                Some(candidate) => GameView { active: candidate, ..old(self)@ },
                None => old(self)@,
            }),
    {
        proof {
            use_type_invariant(&*self);
            self@.lemma_kicked();
        }
        if let Some(rotated) = self.wall_kicked_rotated_active_figure() {
            self.update_active_with(rotated);
        }
    }

    fn wall_kicked_rotated_active_figure(&self) -> (found: Option<ActiveFigure>)
        ensures
            match found {
                Some(piece) => self@.kicked() == Some(piece@),
                None => self@.kicked().is_none(),
            },
    {
        proof {
            use_type_invariant(self);
            assert forall|i: int| 0 <= i < self@.active.kick_offsets().len() implies self@.active.can_shift(
                (#[trigger] self@.active.kick_offsets()[i]).x as int,
                self@.active.kick_offsets()[i].y as int,
            ) by {
                self@.lemma_kick_candidate(i);
                self@.lemma_nearby_fits(
                    self@.active.kick_offsets()[i].x as int,
                    self@.active.kick_offsets()[i].y as int,
                );
            }
        }
        let candidates = self.active.wall_kicked_rotation_tests();
        let mut i: usize = 0;
        while i < candidates.len()
            invariant
                self@.wf(),
                views_of(candidates@) == self@.active.kick_candidates(),
                i <= candidates.len(),
                first_valid(self@.active.kick_candidates(), self@.board, 0) == first_valid(
                    self@.active.kick_candidates(),
                    self@.board,
                    i as int,
                ),
            decreases candidates.len() - i,
        {
            assert(candidates@[i as int]@ == views_of(candidates@)[i as int]);
            proof {
                self@.lemma_kick_candidate(i as int);
            }
            if has_valid_position(&candidates[i], &self.board) {
                return Some(candidates[i].clone());
            }
            i += 1;
        }
        None
    }

    fn update_active_with(&mut self, new_active: ActiveFigure)
        requires
            new_active@.fits(),
            new_active@.position.y >= -5,
        ensures
            final(self)@ == old(self)@.offered(new_active@),
    {
        proof {
            use_type_invariant(&*self);
            use_type_invariant(&new_active);
            self@.lemma_offered_wf(new_active@);
        }
        if has_valid_position(&new_active, &self.board) {
            self.active = new_active;
        }
    }

    /// Writes the cells of the falling piece into the field, as cells of
    /// its shape. A cell outside the field is passed over.
    pub fn add_active_figure_to_board(&mut self)
        ensures
            final(self)@ == (GameView { board: old(self)@.locked_board(), ..old(self)@ }),
    {
        proof {
            use_type_invariant(&*self);
            self@.lemma_nearby_fits(0, 0);
        }
        let points = self.active.to_cartesian();
        let kind = self.active.get_type();
        let mut i: usize = 0;
        while i < points.len()
            invariant
                self@.wf(),
                old(self)@.wf(),
                points@ == old(self)@.active.world_cells(),
                kind == old(self)@.active.figure.kind,
                i <= points.len(),
                self@ == (GameView {
                    board: settled(old(self)@.board, points@, kind, i as int),
                    ..old(self)@
                }),
            decreases points.len() - i,
        {
            let point = points[i];
            proof {
                lemma_settled_keeps_size(old(self)@.board, points@, kind, i as int);
                lemma_settled_keeps_size(old(self)@.board, points@, kind, i + 1);
            }
            if point.x >= 0 && point.y >= 0 {
                self.board = self.board.replacing_figure_at_xy(
                    point.x as usize,
                    point.y as usize,
                    Some(kind),
                );
            }
            i += 1;
        }
    }

    fn add_new_active_figure(&mut self)
        ensures
            final(self)@ == (GameView {
                active: old(self)@.next,
                next: ActiveFigureView::spawned(
                    final(self)@.next.figure.kind,
                    start_point(old(self)@.board.width()),
                ),
                ..old(self)@
            }),
    {
        proof {
            use_type_invariant(&*self);
        }
        let start_point = Game::figure_start_point(self.board.width());
        self.active = self.next.clone();
        self.next = Game::random_figure(start_point, &self.randomizer);
    }

    fn remove_completed_lines(&mut self) -> (count: usize)
        ensures
            count == full_rows(old(self)@.board, old(self)@.board.height() as int).len(),
            final(self)@ == (GameView {
                board: old(self)@.board.without_rows(
                    full_rows(old(self)@.board, old(self)@.board.height() as int),
                ),
                ..old(self)@
            }),
    {
        proof {
            use_type_invariant(&*self);
        }
        let lines = self.lines_completed();
        proof {
            self@.board.lemma_without_rows_keeps_size(lines@);
        }
        self.board = self.board.removing_lines(&lines);
        lines.len()
    }

    fn lines_completed(&self) -> (completed_lines: Vec<usize>)
        ensures
            completed_lines@ == full_rows(self@.board, self@.board.height() as int),
    {
        let mut completed_lines: Vec<usize> = Vec::new();
        let height: usize = self.board.height();
        let mut line_number: usize = 0;
        while line_number < height
            invariant
                height == self@.board.height(),
                line_number <= height,
                completed_lines@ == full_rows(self@.board, line_number as int),
            decreases height - line_number,
        {
            if self.is_line_completed(line_number) {
                completed_lines.push(line_number);
            }
            line_number += 1;
        }
        completed_lines
    }

    fn is_line_completed(&self, line_number: usize) -> (full: bool)
        ensures
            full == (line_number < self@.board.height() && is_full_row(
                self@.board.rows[line_number as int],
            )),
    {
        if let Some(line) = self.board.get_line(line_number) {
            let mut x: usize = 0;
            while x < line.len()
                invariant
                    line@ == self@.board.rows[line_number as int],
                    x <= line.len(),
                    forall|k: int| 0 <= k < x ==> (#[trigger] line@[k]).is_some(),
                decreases line.len() - x,
            {
                if line[x].is_none() {
                    assert(!line@[x as int].is_some());
                    return false;
                }
                x += 1;
            }
            return true;
        }
        false
    }

    fn add_score_for(&mut self, completed_lines: usize)
        requires
            old(self)@.score + ROW_SCORE * completed_lines <= u64::MAX,
        ensures
            final(self)@ == (GameView {
                score: old(self)@.score + ROW_SCORE as nat * completed_lines as nat,
                ..old(self)@
            }),
    {
        proof {
            use_type_invariant(&*self);
        }
        self.score = self.score + (completed_lines as u64) * ROW_SCORE;
    }

    fn check_is_game_over(&self) -> (over: bool)
        ensures
            over == (self@.active.position.y == 0 && !valid_position(self@.active, self@.board)),
    {
        proof {
            use_type_invariant(self);
            self@.lemma_nearby_fits(0, 0);
        }
        self.active.position().y == 0 && !has_valid_position(&self.active, &self.board)
    }

    pub fn get_score(&self) -> (score: u64)
        ensures
            score == self@.score,
    {
        self.score
    }
}

} // verus!
