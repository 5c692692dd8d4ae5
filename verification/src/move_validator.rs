use vstd::prelude::*;
use crate::active_figure::{
    leftmost, lemma_leftmost, lemma_lowest, lemma_rightmost, lowest, rightmost, ActiveFigure,
    ActiveFigureView,
};
use crate::board::{Board, BoardView};
use crate::geometry::Point;

verus! {

/// The point lies in a column of the field and not below its last row. It
/// may lie above the first row.
pub open spec fn in_field(board: BoardView, point: Point) -> bool {
    0 <= point.x < board.width() && point.y < board.height()
}

/// Some cell of the piece is a filled cell of the field.
pub open spec fn overlaps(piece: ActiveFigureView, board: BoardView) -> bool {
    exists|i: int| 0 <= i < piece.world_cells().len() && board.occupied(#[trigger] piece.world_cells()[i])
}

/// The piece reaches left of the first column, right of the last one, or
/// below the last row.
pub open spec fn beyond_edge(piece: ActiveFigureView, board: BoardView) -> bool {
    ||| piece.left_edge() < 0
    ||| piece.right_edge() >= board.width()
    ||| piece.bottom_edge() >= board.height()
}

/// The piece overlaps no filled cell and stays within the edges.
pub open spec fn valid_position(piece: ActiveFigureView, board: BoardView) -> bool {
    !overlaps(piece, board) && !beyond_edge(piece, board)
}

/// The piece reaches the last row of the field.
pub open spec fn at_bottom(piece: ActiveFigureView, board: BoardView) -> bool {
    piece.bottom_edge() == board.height() - 1
}

/// The piece does not rest on the floor, and one row further down it would
/// overlap no filled cell.
pub open spec fn may_descend(piece: ActiveFigureView, board: BoardView) -> bool {
    !at_bottom(piece, board) && !overlaps(piece.moved(0, 1), board)
}

/// A position is valid exactly when every cell of the piece lies in the
/// field and is free there.
pub proof fn lemma_valid_position_by_cells(piece: ActiveFigureView, board: BoardView)
    ensures
        valid_position(piece, board) <==> forall|i: int|
            0 <= i < piece.world_cells().len() ==> in_field(board, #[trigger] piece.world_cells()[i])
                && !board.occupied(piece.world_cells()[i]),
{
    let cells = piece.world_cells();
    lemma_leftmost(cells);
    lemma_rightmost(cells);
    lemma_lowest(cells);
    if valid_position(piece, board) {
        assert forall|i: int| 0 <= i < cells.len() implies in_field(board, #[trigger] cells[i])
            && !board.occupied(cells[i]) by {}
    }
    if forall|i: int|
        0 <= i < cells.len() ==> in_field(board, #[trigger] cells[i]) && !board.occupied(cells[i]) {
        if cells.len() > 0 {
            let l = choose|i: int| 0 <= i < cells.len() && (#[trigger] cells[i]).x == leftmost(cells);
            let r = choose|i: int| 0 <= i < cells.len() && (#[trigger] cells[i]).x == rightmost(cells);
            let b = choose|i: int| 0 <= i < cells.len() && (#[trigger] cells[i]).y == lowest(cells);
            assert(in_field(board, cells[l]));
            assert(in_field(board, cells[r]));
            assert(in_field(board, cells[b]));
        }
    }
}

/// Whether the piece overlaps no filled cell of the field and stays within
/// its left, right and bottom edges.
pub fn has_valid_position(active_figure: &ActiveFigure, board: &Board) -> (valid: bool)
    requires
        active_figure@.fits(),
    ensures
        valid == valid_position(active_figure@, board@),
{
    !will_colide_with_block(active_figure, board) && !will_collide_with_edge(active_figure, board)
}

/// Whether the piece can go one row further down: it does not rest on the
/// floor, and one row further down it would overlap no filled cell.
pub fn can_move_down(figure: &ActiveFigure, board: &Board) -> (free: bool)
    requires
        figure@.fits(),
        figure@.can_shift(0, 1),
        figure@.moved(0, 1).fits(),
    ensures
        free == may_descend(figure@, board@),
{
    let moved_down = figure.moved_down();
    !is_at_the_bottom(figure, board) && !will_colide_with_block(&moved_down, board)
}

/// Whether some cell of the piece is a filled cell of the field.
pub fn will_colide_with_block(figure: &ActiveFigure, board: &Board) -> (hit: bool)
    requires
        figure@.fits(),
    ensures
        hit == overlaps(figure@, board@),
{
    let points = figure.to_cartesian();
    let mut i: usize = 0;
    while i < points.len()
        invariant
            points@ == figure@.world_cells(),
            i <= points.len(),
            forall|k: int| 0 <= k < i ==> !board@.occupied(#[trigger] points@[k]),
        decreases points.len() - i,
    {
        if board.contains(points[i]) {
            return true;
        }
        i += 1;
    }
    false
}

/// Whether the piece reaches left of the first column, right of the last
/// one, or below the last row.
pub fn will_collide_with_edge(active_figure: &ActiveFigure, board: &Board) -> (hit: bool)
    requires
        active_figure@.fits(),
    ensures
        hit == beyond_edge(active_figure@, board@),
{
    let right_edge: i32 = active_figure.right_edge();
    let bottom_edge: i32 = active_figure.bottom_edge();
    let collided_with_left = active_figure.left_edge() < 0;
    let collided_with_right = right_edge >= 0 && right_edge as usize >= board.width();
    let collided_with_bottom = bottom_edge >= 0 && bottom_edge as usize >= board.height();
    collided_with_left || collided_with_right || collided_with_bottom
}

/// Whether the piece reaches the last row of the field.
pub fn is_at_the_bottom(figure: &ActiveFigure, board: &Board) -> (resting: bool)
    requires
        figure@.fits(),
    ensures
        resting == at_bottom(figure@, board@),
{
    let below: i64 = figure.bottom_edge() as i64 + 1;
    below >= 0 && below as u64 == board.height() as u64
}

} // verus!
