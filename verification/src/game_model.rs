use vstd::prelude::*;
use crate::active_figure::ActiveFigureView;
use crate::block::Block;
use crate::board::BoardView;
use crate::figure_type::FigureType;
use crate::game::{Action, GameState, MAX_SIDE, MOVING_PERIOD, ROW_SCORE};
use crate::geometry::{Point, Rect, Size};
use crate::graphics::Color;
use crate::move_validator::{
    beyond_edge, in_field, lemma_valid_position_by_cells, may_descend, valid_position,
};

verus! {

/// Where the grid of a new piece is put on a field of the given width.
pub open spec fn start_point(width: nat) -> Point {
    Point { x: (width / 2 - 2) as i32, y: 0 }
}

/// The shape that a drawn number stands for: 0 to 5 for I, J, L, O, S and
/// T, anything else for Z.
pub open spec fn shape_for(draw: int) -> FigureType {
    if draw == 0 {
        FigureType::I
    } else if draw == 1 {
        FigureType::J
    } else if draw == 2 {
        FigureType::L
    } else if draw == 3 {
        FigureType::O
    } else if draw == 4 {
        FigureType::S
    } else if draw == 5 {
        FigureType::T
    } else {
        FigureType::Z
    }
}

/// The field after the first `upto` of `cells` are written into it as
/// cells of shape `kind`. A cell outside the field is passed over.
pub open spec fn settled(board: BoardView, cells: Seq<Point>, kind: FigureType, upto: int) -> BoardView
    decreases upto,
{
    if upto <= 0 {
        board
    } else {
        settled(board, cells, kind, upto - 1).with_cell(
            cells[upto - 1].x as int,
            cells[upto - 1].y as int,
            Some(kind),
        )
    }
}

/// No cell of the row is empty.
pub open spec fn is_full_row(row: Seq<Option<FigureType>>) -> bool {
    forall|x: int| 0 <= x < row.len() ==> (#[trigger] row[x]).is_some()
}

/// The indices of the full rows among the first `upto` rows, ascending.
pub open spec fn full_rows(board: BoardView, upto: int) -> Seq<usize>
    decreases upto,
{
    if upto <= 0 {
        Seq::empty()
    } else if is_full_row(board.rows[upto - 1]) {
        full_rows(board, upto - 1).push((upto - 1) as usize)
    } else {
        full_rows(board, upto - 1)
    }
}

/// The first of the candidates from index `from` on whose position is
/// valid on the field, if there is one.
pub open spec fn first_valid(candidates: Seq<ActiveFigureView>, board: BoardView, from: int) -> Option<
    ActiveFigureView,
>
    decreases candidates.len() - from,
{
    if from < 0 || from >= candidates.len() {
        None
    } else if valid_position(candidates[from], board) {
        Some(candidates[from])
    } else {
        first_valid(candidates, board, from + 1)
    }
}

/// A square of side 1 at the given point.
pub open spec fn unit_block(point: Point, color: Color) -> Block {
    Block { rect: Rect { origin: point, size: Size { height: 1, width: 1 } }, color }
}

/// One block for each filled cell among the first `upto` cells of row `y`,
/// from left to right, in the colour of the shape that the cell holds.
pub open spec fn blocks_in_row(row: Seq<Option<FigureType>>, y: int, upto: int) -> Seq<Block>
    decreases upto,
{
    if upto <= 0 {
        Seq::empty()
    } else if let Some(kind) = row[upto - 1] {
        blocks_in_row(row, y, upto - 1).push(
            unit_block(Point { x: (upto - 1) as i32, y: y as i32 }, kind.palette()),
        )
    } else {
        blocks_in_row(row, y, upto - 1)
    }
}

/// One block for each filled cell of the first `upto` rows, row after row
/// from the top.
pub open spec fn blocks_in_rows(board: BoardView, upto: int) -> Seq<Block>
    decreases upto,
{
    if upto <= 0 {
        Seq::empty()
    } else {
        blocks_in_rows(board, upto - 1) + blocks_in_row(
            board.rows[upto - 1],
            upto - 1,
            board.rows[upto - 1].len() as int,
        )
    }
}

/// One block for each cell of the piece, in the colour of its shape.
pub open spec fn piece_blocks(piece: ActiveFigureView) -> Seq<Block> {
    Seq::new(
        piece.world_cells().len(),
        |i: int| unit_block(piece.world_cells()[i], piece.figure.kind.palette()),
    )
}

/// What a game is at one moment.
pub struct GameView {
    pub board: BoardView,
    pub score: nat,
    pub active: ActiveFigureView,
    pub next: ActiveFigureView,
    /// Milliseconds gone by since the last step.
    pub waiting_time: nat,
    pub state: GameState,
}

impl GameView {
    /// The position is one at which the game may hold a falling piece: no
    /// further left or up than a valid piece can come, and not beyond the
    /// last column or row.
    pub open spec fn admits(self, position: Point) -> bool {
        &&& -3 <= position.x < self.board.width()
        &&& -5 <= position.y < self.board.height()
    }

    /// The field is a rectangle of at least one cell and of no more than
    /// the largest side each way; both pieces are well formed; the falling
    /// piece is at a position that the game admits; the piece to come
    /// waits, not turned, at the start point; and no more time is held
    /// back than one period.
    pub open spec fn wf(self) -> bool {
        &&& self.board.wf()
        &&& 1 <= self.board.height() <= MAX_SIDE
        &&& 1 <= self.board.width() <= MAX_SIDE
        &&& self.active.wf()
        &&& self.admits(self.active.position)
        &&& self.next == ActiveFigureView::spawned(
            self.next.figure.kind,
            start_point(self.board.width()),
        )
        &&& self.waiting_time <= MOVING_PERIOD
    }

    /// The game as it begins on an empty field of the given size, with the
    /// two shapes that were drawn for it.
    pub open spec fn begun(height: nat, width: nat, first: FigureType, second: FigureType) -> GameView {
        GameView {
            board: BoardView::empty(height, width),
            score: 0,
            active: ActiveFigureView::spawned(first, start_point(width)),
            next: ActiveFigureView::spawned(second, start_point(width)),
            waiting_time: 0,
            state: GameState::Playing,
        }
    }

    /// The game with `candidate` as its falling piece where the position of
    /// `candidate` is valid; the game unchanged where it is not.
    pub open spec fn offered(self, candidate: ActiveFigureView) -> GameView {
        if valid_position(candidate, self.board) {
            GameView { active: candidate, ..self }
        } else {
            self
        }
    }

    /// The falling piece after a turn: the first of the candidates for its
    /// rotation step whose position is valid, if there is one.
    pub open spec fn kicked(self) -> Option<ActiveFigureView> {
        first_valid(self.active.kick_candidates(), self.board, 0)
    }

    /// The game after the player's action. A game that is over stays as it
    /// is. A move is made where it leads to a valid position; a turn is
    /// made to the first valid candidate position; otherwise nothing
    /// changes.
    pub open spec fn performed(self, action: Action) -> GameView {
        if self.state == GameState::GameOver {
            self
        } else {
            match action {
                Action::MoveLeft => self.offered(self.active.moved(-1, 0)),
                Action::MoveRight => self.offered(self.active.moved(1, 0)),
                Action::MoveDown => self.offered(self.active.moved(0, 1)),
                Action::Rotate => match self.kicked() {
                    Some(candidate) => GameView { active: candidate, ..self },
                    None => self,
                },
            }
        }
    }

    /// The field with the cells of the falling piece written into it.
    pub open spec fn locked_board(self) -> BoardView {
        settled(
            self.board,
            self.active.world_cells(),
            self.active.figure.kind,
            self.active.world_cells().len() as int,
        )
    }

    /// The rows that are full once the falling piece is written into the
    /// field, ascending.
    pub open spec fn completed_rows(self) -> Seq<usize> {
        full_rows(self.locked_board(), self.locked_board().height() as int)
    }

    /// The points that the falling piece earns when it comes to rest
    /// where it is.
    pub open spec fn lock_gain(self) -> nat {
        ROW_SCORE as nat * self.completed_rows().len()
    }

    /// The game after the falling piece came to rest: its cells are
    /// written into the field, the full rows are taken out and paid for,
    /// the piece that waited becomes the falling piece, a piece of shape
    /// `fresh` waits at the start point, and the game is over where the new
    /// falling piece has no valid position.
    pub open spec fn after_lock(self, fresh: FigureType) -> GameView {
        let board = self.locked_board().without_rows(self.completed_rows());
        GameView {
            board,
            score: self.score + self.lock_gain(),
            active: self.next,
            next: ActiveFigureView::spawned(fresh, start_point(board.width())),
            waiting_time: self.waiting_time,
            state: if self.next.position.y == 0 && !valid_position(self.next, board) {
                GameState::GameOver
            } else {
                self.state
            },
        }
    }

    /// The game after one step of the simulation. A game that is over
    /// stays as it is. A piece that may descend goes one row down, where
    /// that position is valid; any other piece comes to rest.
    pub open spec fn stepped(self, fresh: FigureType) -> GameView {
        if self.state == GameState::GameOver {
            self
        } else if may_descend(self.active, self.board) {
            self.offered(self.active.moved(0, 1))
        } else {
            self.after_lock(fresh)
        }
    }

    /// A step is due once `delta` more milliseconds have gone by.
    pub open spec fn step_due(self, delta: nat) -> bool {
        self.waiting_time + delta > MOVING_PERIOD
    }

    /// The falling piece comes to rest once `delta` more milliseconds have
    /// gone by.
    pub open spec fn lock_due(self, delta: nat) -> bool {
        &&& self.step_due(delta)
        &&& self.state == GameState::Playing
        &&& !may_descend(self.active, self.board)
    }

    /// The game after `delta` more milliseconds: the time is added to the
    /// time held back; once that is more than one period, one step is made
    /// and no time is held back.
    pub open spec fn ticked(self, delta: nat, fresh: FigureType) -> GameView {
        if self.step_due(delta) {
            GameView { waiting_time: 0, ..self.stepped(fresh) }
        } else {
            GameView { waiting_time: self.waiting_time + delta, ..self }
        }
    }

    /// What is drawn: the filled cells of the field, then the cells of the
    /// falling piece.
    pub open spec fn drawn(self) -> Seq<Block> {
        blocks_in_rows(self.board, self.board.height() as int) + piece_blocks(self.active)
    }
}

/// For every offset that raises a turning piece, the offset by as many
/// columns and no rows stands earlier in the same list.
pub proof fn lemma_raising_offset_has_level_twin(kind: FigureType, step: nat, i: int) -> (j: int)
    requires
        step <= 3,
        kind != FigureType::O,
        0 <= i < kind.kick_table()[step as int].len(),
        kind.kick_table()[step as int][i].y < 0,
    ensures
        0 <= j < i,
        kind.kick_table()[step as int][j].x == kind.kick_table()[step as int][i].x,
        kind.kick_table()[step as int][j].y == 0,
{
    let table = kind.kick_table();
    let row = table[step as int];
    assert(table.len() == 4);
    assert(row.len() == 5);
    if kind == FigureType::I {
        if step == 0 {
            assert(row[0].y == 0 && row[1].y == 0 && row[2].y == 0 && row[4].y == 2);
            assert(row[3].x == row[1].x);
            1
        } else if step == 1 {
            assert(row[0].y == 0 && row[1].y == 0 && row[2].y == 0 && row[3].y == 2);
            assert(row[4].x == row[2].x);
            2
        } else if step == 2 {
            assert(row[0].y == 0 && row[1].y == 0 && row[2].y == 0 && row[3].y == 1);
            assert(row[4].x == row[2].x);
            2
        } else {
            assert(row[0].y == 0 && row[1].y == 0 && row[2].y == 0 && row[4].y == 1);
            assert(row[3].x == row[1].x);
            1
        }
    } else {
        if step == 0 {
            assert(row[0].y == 0 && row[1].y == 0 && row[2].y == 1);
            assert(row[3].x == row[0].x && row[4].x == row[1].x);
            if i == 3 {
                0
            } else {
                1
            }
        } else if step == 1 {
            assert(row[0].y == 0 && row[1].y == 0 && row[2].y == 1 && row[3].y == 2 && row[4].y
                == 2);
            0
        } else if step == 2 {
            assert(row[0].y == 0 && row[1].y == 0 && row[2].y == 1);
            assert(row[3].x == row[0].x && row[4].x == row[1].x);
            if i == 3 {
                0
            } else {
                1
            }
        } else {
            assert(row[0].y == 0 && row[1].y == 0 && row[3].y == 2 && row[4].y == 2);
            assert(row[2].x == row[1].x);
            1
        }
    }
}

/// Every offset to try moves a piece by at most two columns and two rows.
pub proof fn lemma_kick_offsets_are_small(kind: FigureType, step: nat, i: int)
    requires
        step <= 3,
        kind == FigureType::O ==> step == 0,
        0 <= i < kind.kick_table()[step as int].len(),
    ensures
        -2 <= kind.kick_table()[step as int][i].x <= 2,
        -2 <= kind.kick_table()[step as int][i].y <= 2,
{
    let table = kind.kick_table();
    let row = table[step as int];
    if kind != FigureType::O {
        assert(table.len() == 4);
        assert(row.len() == 5);
        if step == 0 {
            assert(-2 <= row[0].x <= 2 && -2 <= row[1].x <= 2 && -2 <= row[2].x <= 2 && -2
                <= row[3].x <= 2 && -2 <= row[4].x <= 2);
            assert(-2 <= row[0].y <= 2 && -2 <= row[1].y <= 2 && -2 <= row[2].y <= 2 && -2
                <= row[3].y <= 2 && -2 <= row[4].y <= 2);
        } else if step == 1 {
            assert(-2 <= row[0].x <= 2 && -2 <= row[1].x <= 2 && -2 <= row[2].x <= 2 && -2
                <= row[3].x <= 2 && -2 <= row[4].x <= 2);
            assert(-2 <= row[0].y <= 2 && -2 <= row[1].y <= 2 && -2 <= row[2].y <= 2 && -2
                <= row[3].y <= 2 && -2 <= row[4].y <= 2);
        } else if step == 2 {
            assert(-2 <= row[0].x <= 2 && -2 <= row[1].x <= 2 && -2 <= row[2].x <= 2 && -2
                <= row[3].x <= 2 && -2 <= row[4].x <= 2);
            assert(-2 <= row[0].y <= 2 && -2 <= row[1].y <= 2 && -2 <= row[2].y <= 2 && -2
                <= row[3].y <= 2 && -2 <= row[4].y <= 2);
        } else {
            assert(-2 <= row[0].x <= 2 && -2 <= row[1].x <= 2 && -2 <= row[2].x <= 2 && -2
                <= row[3].x <= 2 && -2 <= row[4].x <= 2);
            assert(-2 <= row[0].y <= 2 && -2 <= row[1].y <= 2 && -2 <= row[2].y <= 2 && -2
                <= row[3].y <= 2 && -2 <= row[4].y <= 2);
        }
    }
}

/// What `first_valid` finds is the first candidate from `from` on whose
/// position is valid: none before it is, and where it finds nothing, none
/// is at all.
pub proof fn lemma_first_valid(candidates: Seq<ActiveFigureView>, board: BoardView, from: int) -> (at:
    int)
    requires
        0 <= from <= candidates.len(),
    ensures
        from <= at <= candidates.len(),
        forall|j: int| from <= j < at ==> !valid_position(#[trigger] candidates[j], board),
        at < candidates.len() ==> first_valid(candidates, board, from) == Some(candidates[at])
            && valid_position(candidates[at], board),
        at == candidates.len() ==> first_valid(candidates, board, from).is_none(),
    decreases candidates.len() - from,
{
    if from >= candidates.len() {
        from
    } else if valid_position(candidates[from], board) {
        from
    } else {
        lemma_first_valid(candidates, board, from + 1)
    }
}

/// Writing cells into a field leaves its dimensions as they are.
pub proof fn lemma_settled_keeps_size(board: BoardView, cells: Seq<Point>, kind: FigureType, upto: int)
    requires
        board.wf(),
    ensures
        settled(board, cells, kind, upto).wf(),
        settled(board, cells, kind, upto).height() == board.height(),
        settled(board, cells, kind, upto).width() == board.width(),
    decreases upto,
{
    if upto > 0 {
        lemma_settled_keeps_size(board, cells, kind, upto - 1);
        settled(board, cells, kind, upto - 1).lemma_with_cell_keeps_size(
            cells[upto - 1].x as int,
            cells[upto - 1].y as int,
            Some(kind),
        );
    }
}

/// After the first `upto` cells are written into a field, a cell of the
/// field holds the shape written where it is one of them, and what it held
/// before where it is none.
pub proof fn lemma_settled_reads(
    board: BoardView,
    cells: Seq<Point>,
    kind: FigureType,
    upto: int,
    x: int,
    y: int,
)
    requires
        board.wf(),
        0 <= upto <= cells.len(),
        0 <= x < board.width(),
        0 <= y < board.height(),
    ensures
        settled(board, cells, kind, upto).cell(x, y) == (if exists|i: int|
            0 <= i < upto && (#[trigger] cells[i]).x == x && cells[i].y == y {
            Some(kind)
        } else {
            board.cell(x, y)
        }),
    decreases upto,
{
    if upto > 0 {
        let before = settled(board, cells, kind, upto - 1);
        lemma_settled_reads(board, cells, kind, upto - 1, x, y);
        lemma_settled_keeps_size(board, cells, kind, upto - 1);
        let last = cells[upto - 1];
        before.lemma_with_cell_reads(last.x as int, last.y as int, Some(kind), x, y);
        if last.x == x && last.y == y {
            assert(cells[upto - 1].x == x && cells[upto - 1].y == y);
        } else if exists|i: int| 0 <= i < upto - 1 && (#[trigger] cells[i]).x == x && cells[i].y == y {
            let i = choose|i: int| 0 <= i < upto - 1 && (#[trigger] cells[i]).x == x && cells[i].y == y;
            assert(cells[i].x == x && cells[i].y == y);
        }
    }
}

/// The indices listed for the first `upto` rows are those of the full rows
/// among them, each once and in ascending order.
pub proof fn lemma_full_rows(board: BoardView, upto: int)
    requires
        0 <= upto <= board.height() <= usize::MAX,
    ensures
        full_rows(board, upto).len() <= upto,
        forall|k: int|
            0 <= k < full_rows(board, upto).len() ==> (#[trigger] full_rows(board, upto)[k]) < upto
                && is_full_row(board.rows[full_rows(board, upto)[k] as int]),
        forall|j: int, k: int|
            0 <= j < k < full_rows(board, upto).len() ==> (#[trigger] full_rows(board, upto)[j])
                < (#[trigger] full_rows(board, upto)[k]),
        forall|y: int|
            0 <= y < upto && is_full_row(#[trigger] board.rows[y]) ==> full_rows(
                board,
                upto,
            ).contains(y as usize),
    decreases upto,
{
    if upto > 0 {
        lemma_full_rows(board, upto - 1);
        let before = full_rows(board, upto - 1);
        let now = full_rows(board, upto);
        assert forall|y: int| 0 <= y < upto && is_full_row(#[trigger] board.rows[y]) implies now.contains(
            y as usize,
        ) by {
            if y < upto - 1 {
                let k = choose|k: int| 0 <= k < before.len() && before[k] == y as usize;
                assert(now[k] == y as usize);
            } else {
                assert(now[now.len() - 1] == y as usize);
            }
        }
    }
}

impl GameView {
    /// A well-formed piece at a valid position lies at a position that the
    /// game admits, provided it is not too high up.
    pub proof fn lemma_valid_is_admitted(self, piece: ActiveFigureView)
        requires
            self.board.wf(),
            piece.wf(),
            piece.fits(),
            piece.position.y >= -5,
            valid_position(piece, self.board),
        ensures
            self.admits(piece.position),
    {
        piece.figure.lemma_has_a_cell();
        piece.figure.lemma_local_cells_sound(0);
        lemma_valid_position_by_cells(piece, self.board);
        assert(in_field(self.board, piece.world_cells()[0]));
    }

    /// A piece that the game may hold, shifted by no more than two columns
    /// and two rows and then turned or not, has all its cells in range.
    pub proof fn lemma_nearby_fits(self, dx: int, dy: int)
        requires
            self.wf(),
            -2 <= dx <= 2,
            -2 <= dy <= 2,
        ensures
            self.active.fits(),
            self.active.can_shift(dx, dy),
            self.active.moved(dx, dy).wf(),
            self.active.moved(dx, dy).fits(),
            self.active.moved(dx, dy).rotated().wf(),
            self.active.moved(dx, dy).rotated().fits(),
    {
        self.active.lemma_fits();
        self.active.moved(dx, dy).lemma_fits();
        self.active.moved(dx, dy).lemma_rotated_wf();
        self.active.moved(dx, dy).rotated().lemma_fits();
    }

    /// Offering a nearby piece to a well-formed game gives a well-formed
    /// game.
    pub proof fn lemma_offered_wf(self, candidate: ActiveFigureView)
        requires
            self.wf(),
            candidate.wf(),
            candidate.fits(),
            candidate.position.y >= -5,
        ensures
            self.offered(candidate).wf(),
    {
        if valid_position(candidate, self.board) {
            self.lemma_valid_is_admitted(candidate);
        }
    }

    /// The candidates for a turn are the falling piece shifted by an offset
    /// of at most two columns and rows, and turned.
    pub proof fn lemma_kick_candidate(self, i: int)
        requires
            self.wf(),
            0 <= i < self.active.kick_candidates().len(),
        ensures
            -2 <= self.active.kick_offsets()[i].x <= 2,
            -2 <= self.active.kick_offsets()[i].y <= 2,
            self.active.kick_candidates()[i] == self.active.moved(
                self.active.kick_offsets()[i].x as int,
                self.active.kick_offsets()[i].y as int,
            ).rotated(),
            self.active.kick_candidates()[i].wf(),
            self.active.kick_candidates()[i].fits(),
    {
        lemma_kick_offsets_are_small(self.active.figure.kind, self.active.rotation_step, i);
        self.lemma_nearby_fits(
            self.active.kick_offsets()[i].x as int,
            self.active.kick_offsets()[i].y as int,
        );
    }

    /// The candidate that a turn settles on is never more than five rows
    /// above the field, nor above the piece before the turn where that was
    /// higher still: a candidate that raises the piece is tried only after
    /// the one in the same column that does not, and where that one fails
    /// and the raised one fits, the piece reached into the field.
    pub proof fn lemma_kick_stays_near(self, i: int)
        requires
            self.wf(),
            0 <= i < self.active.kick_candidates().len(),
            valid_position(self.active.kick_candidates()[i], self.board),
            forall|j: int|
                0 <= j < i ==> !valid_position(
                    #[trigger] self.active.kick_candidates()[j],
                    self.board,
                ),
        ensures
            self.active.kick_candidates()[i].position.y >= -5,
    {
        let piece = self.active;
        let offsets = piece.kick_offsets();
        let chosen = piece.kick_candidates()[i];
        self.lemma_kick_candidate(i);
        if offsets[i].y < 0 {
            let j = lemma_raising_offset_has_level_twin(piece.figure.kind, piece.rotation_step, i);
            let level = piece.kick_candidates()[j];
            self.lemma_kick_candidate(j);
            assert(!valid_position(level, self.board));
            lemma_valid_position_by_cells(level, self.board);
            lemma_valid_position_by_cells(chosen, self.board);
            let k = choose|k: int|
                0 <= k < level.world_cells().len() && !(in_field(
                    self.board,
                    #[trigger] level.world_cells()[k],
                ) && !self.board.occupied(level.world_cells()[k]));
            assert(level.figure == chosen.figure);
            assert(in_field(self.board, chosen.world_cells()[k]) && !self.board.occupied(
                chosen.world_cells()[k],
            ));
            level.figure.lemma_local_cells_sound(k);
            assert(level.world_cells()[k].x == chosen.world_cells()[k].x);
            assert(level.world_cells()[k].y >= 0);
        }
    }

    /// What a turn settles on, if anything, is a well-formed piece at a
    /// valid position that the game admits.
    pub proof fn lemma_kicked(self)
        requires
            self.wf(),
        ensures
            self.kicked().is_some() ==> {
                &&& self.kicked().unwrap().wf()
                &&& self.kicked().unwrap().fits()
                &&& valid_position(self.kicked().unwrap(), self.board)
                &&& self.admits(self.kicked().unwrap().position)
            },
    {
        let at = lemma_first_valid(self.active.kick_candidates(), self.board, 0);
        if at < self.active.kick_candidates().len() {
            self.lemma_kick_candidate(at);
            self.lemma_kick_stays_near(at);
            self.lemma_valid_is_admitted(self.active.kick_candidates()[at]);
        }
    }

    /// An action of the player leaves a well-formed game well formed.
    pub proof fn lemma_performed_wf(self, action: Action)
        requires
            self.wf(),
        ensures
            self.performed(action).wf(),
    {
        self.lemma_nearby_fits(-1, 0);
        self.lemma_nearby_fits(1, 0);
        self.lemma_nearby_fits(0, 1);
        self.lemma_offered_wf(self.active.moved(-1, 0));
        self.lemma_offered_wf(self.active.moved(1, 0));
        self.lemma_offered_wf(self.active.moved(0, 1));
        self.lemma_kicked();
    }

    /// Writing the falling piece into the field and taking out the full
    /// rows leaves the dimensions of the field as they are.
    pub proof fn lemma_lock_keeps_size(self)
        requires
            self.board.wf(),
        ensures
            self.locked_board().wf(),
            self.locked_board().height() == self.board.height(),
            self.locked_board().width() == self.board.width(),
            self.locked_board().without_rows(self.completed_rows()).wf(),
            self.locked_board().without_rows(self.completed_rows()).height() == self.board.height(),
            self.locked_board().without_rows(self.completed_rows()).width() == self.board.width(),
    {
        lemma_settled_keeps_size(
            self.board,
            self.active.world_cells(),
            self.active.figure.kind,
            self.active.world_cells().len() as int,
        );
        self.locked_board().lemma_without_rows_keeps_size(self.completed_rows());
    }

    /// A piece that comes to rest leaves a well-formed game well formed.
    pub proof fn lemma_after_lock_wf(self, fresh: FigureType)
        requires
            self.wf(),
        ensures
            self.after_lock(fresh).wf(),
    {
        self.lemma_lock_keeps_size();
    }

    /// A step, and the passing of time, leave a well-formed game well
    /// formed.
    pub proof fn lemma_ticked_wf(self, delta: nat, fresh: FigureType)
        requires
            self.wf(),
        ensures
            self.stepped(fresh).wf(),
            self.ticked(delta, fresh).wf(),
    {
        self.lemma_nearby_fits(0, 1);
        self.lemma_offered_wf(self.active.moved(0, 1));
        self.lemma_after_lock_wf(fresh);
    }

    /// A piece at a valid position that may descend is at a valid position
    /// one row further down: going down cannot take it past the side edges.
    /// So a step of a game that is not over takes such a piece one row
    /// down.
    pub proof fn lemma_descent_keeps_valid(self, fresh: FigureType)
        requires
            self.wf(),
            valid_position(self.active, self.board),
            may_descend(self.active, self.board),
        ensures
            valid_position(self.active.moved(0, 1), self.board),
            self.state == GameState::Playing ==> self.stepped(fresh) == (GameView {
                active: self.active.moved(0, 1),
                ..self
            }),
    {
        let piece = self.active;
        let lower = piece.moved(0, 1);
        self.lemma_nearby_fits(0, 1);
        lemma_valid_position_by_cells(piece, self.board);
        lemma_valid_position_by_cells(lower, self.board);
        crate::active_figure::lemma_lowest(piece.world_cells());
        assert forall|i: int| 0 <= i < lower.world_cells().len() implies in_field(
            self.board,
            #[trigger] lower.world_cells()[i],
        ) && !self.board.occupied(lower.world_cells()[i]) by {
            piece.lemma_moved_cells(0, 1, i);
            assert(in_field(self.board, piece.world_cells()[i]));
            assert(piece.world_cells()[i].y <= piece.bottom_edge());
        }
    }

    /// No action takes the falling piece past an edge of the field: after
    /// it the piece is where it was, or it lies at a valid position. So a
    /// piece within the edges stays within them, however many moves the
    /// player asks for: no cell of it comes to lie left of column 0, right
    /// of the last column or below the last row.
    pub proof fn lemma_moves_stay_within_edges(self, action: Action)
        requires
            self.wf(),
        ensures
            self.performed(action).board == self.board,
            self.performed(action).active == self.active || valid_position(
                self.performed(action).active,
                self.board,
            ),
            !beyond_edge(self.active, self.board) ==> {
                &&& self.performed(action).active.left_edge() >= 0
                &&& self.performed(action).active.right_edge() < self.board.width()
                &&& self.performed(action).active.bottom_edge() < self.board.height()
            },
    {
        self.lemma_kicked();
    }

    /// A game that is over stays as it is: no action and no step changes
    /// the field, the score, the pieces or the state.
    pub proof fn lemma_game_over_is_final(self, action: Action, delta: nat, fresh: FigureType)
        requires
            self.state == GameState::GameOver,
        ensures
            self.performed(action) == self,
            self.stepped(fresh) == self,
            self.ticked(delta, fresh).board == self.board,
            self.ticked(delta, fresh).score == self.score,
            self.ticked(delta, fresh).active == self.active,
            self.ticked(delta, fresh).next == self.next,
            self.ticked(delta, fresh).state == GameState::GameOver,
    {
    }

    /// When a piece comes to rest, the game is over exactly if the piece
    /// that waited cannot be placed validly at the start point on the
    /// field as it is then.
    pub proof fn lemma_game_over_on_lock(self, fresh: FigureType)
        requires
            self.wf(),
            self.state == GameState::Playing,
        ensures
            self.after_lock(fresh).active == self.next,
            self.after_lock(fresh).active.position == start_point(self.board.width()),
            self.after_lock(fresh).state == GameState::GameOver <==> !valid_position(
                self.next,
                self.after_lock(fresh).board,
            ),
    {
    }

    /// A piece that comes to rest earns `ROW_SCORE` points for each row
    /// that it completes, and completes no more rows than the field has.
    pub proof fn lemma_lock_score(self, fresh: FigureType)
        requires
            self.wf(),
        ensures
            self.after_lock(fresh).score == self.score + 100 * self.completed_rows().len(),
            self.completed_rows().len() <= self.board.height(),
            self.lock_gain() <= 100 * self.board.height(),
    {
        self.lemma_lock_keeps_size();
        lemma_full_rows(self.locked_board(), self.locked_board().height() as int);
    }
}

} // verus!
