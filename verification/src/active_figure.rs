use vstd::prelude::*;
use crate::figure::{Figure, FigureView};
use crate::figure_type::FigureType;
use crate::geometry::Point;
use crate::graphics::Color;
use crate::matrix::rows_of;

verus! {

/// The smallest column among `cells`; the largest `i32` where there is no
/// cell.
pub open spec fn leftmost(cells: Seq<Point>) -> int
    decreases cells.len(),
{
    if cells.len() == 0 {
        i32::MAX as int
    } else if cells.last().x < leftmost(cells.drop_last()) {
        cells.last().x as int
    } else {
        leftmost(cells.drop_last())
    }
}

/// The largest column among `cells`; the smallest `i32` where there is no
/// cell.
pub open spec fn rightmost(cells: Seq<Point>) -> int
    decreases cells.len(),
{
    if cells.len() == 0 {
        i32::MIN as int
    } else if cells.last().x > rightmost(cells.drop_last()) {
        cells.last().x as int
    } else {
        rightmost(cells.drop_last())
    }
}

/// The largest row among `cells`; the smallest `i32` where there is no cell.
pub open spec fn lowest(cells: Seq<Point>) -> int
    decreases cells.len(),
{
    if cells.len() == 0 {
        i32::MIN as int
    } else if cells.last().y > lowest(cells.drop_last()) {
        cells.last().y as int
    } else {
        lowest(cells.drop_last())
    }
}

/// No cell lies left of the leftmost column, and one lies in it.
pub proof fn lemma_leftmost(cells: Seq<Point>)
    ensures
        forall|i: int| 0 <= i < cells.len() ==> leftmost(cells) <= (#[trigger] cells[i]).x,
        cells.len() > 0 ==> exists|i: int| 0 <= i < cells.len() && (#[trigger] cells[i]).x == leftmost(cells),
    decreases cells.len(),
{
    if cells.len() > 0 {
        let rest = cells.drop_last();
        lemma_leftmost(rest);
        assert forall|i: int| 0 <= i < cells.len() implies leftmost(cells) <= (#[trigger] cells[i]).x by {
            if i < rest.len() {
                assert(rest[i] == cells[i]);
            }
        }
        if cells.last().x < leftmost(rest) || rest.len() == 0 {
            assert(cells[cells.len() - 1].x == leftmost(cells));
        } else {
            let i = choose|i: int| 0 <= i < rest.len() && (#[trigger] rest[i]).x == leftmost(rest);
            assert(cells[i] == rest[i]);
        }
    }
}

/// No cell lies right of the rightmost column, and one lies in it.
pub proof fn lemma_rightmost(cells: Seq<Point>)
    ensures
        forall|i: int| 0 <= i < cells.len() ==> rightmost(cells) >= (#[trigger] cells[i]).x,
        cells.len() > 0 ==> exists|i: int| 0 <= i < cells.len() && (#[trigger] cells[i]).x == rightmost(cells),
    decreases cells.len(),
{
    if cells.len() > 0 {
        let rest = cells.drop_last();
        lemma_rightmost(rest);
        assert forall|i: int| 0 <= i < cells.len() implies rightmost(cells) >= (#[trigger] cells[i]).x by {
            if i < rest.len() {
                assert(rest[i] == cells[i]);
            }
        }
        if cells.last().x > rightmost(rest) || rest.len() == 0 {
            assert(cells[cells.len() - 1].x == rightmost(cells));
        } else {
            let i = choose|i: int| 0 <= i < rest.len() && (#[trigger] rest[i]).x == rightmost(rest);
            assert(cells[i] == rest[i]);
        }
    }
}

/// No cell lies below the lowest row, and one lies in it.
pub proof fn lemma_lowest(cells: Seq<Point>)
    ensures
        forall|i: int| 0 <= i < cells.len() ==> lowest(cells) >= (#[trigger] cells[i]).y,
        cells.len() > 0 ==> exists|i: int| 0 <= i < cells.len() && (#[trigger] cells[i]).y == lowest(cells),
    decreases cells.len(),
{
    if cells.len() > 0 {
        let rest = cells.drop_last();
        lemma_lowest(rest);
        assert forall|i: int| 0 <= i < cells.len() implies lowest(cells) >= (#[trigger] cells[i]).y by {
            if i < rest.len() {
                assert(rest[i] == cells[i]);
            }
        }
        if cells.last().y > lowest(rest) || rest.len() == 0 {
            assert(cells[cells.len() - 1].y == lowest(cells));
        } else {
            let i = choose|i: int| 0 <= i < rest.len() && (#[trigger] rest[i]).y == lowest(rest);
            assert(cells[i] == rest[i]);
        }
    }
}

/// What a falling piece is: the piece, the field position of the top-left
/// corner of its grid, and the number of quarter turns made since it
/// appeared, counted round from 0 to 3.
pub struct ActiveFigureView {
    pub figure: FigureView,
    pub position: Point,
    pub rotation_step: nat,
}

impl ActiveFigureView {
    /// The rotation step is one of 0 to 3, the grid is the shape's
    /// orientation at that step, and the square shape stays at step 0.
    pub open spec fn wf(self) -> bool {
        &&& self.rotation_step <= 3
        &&& self.figure.kind == FigureType::O ==> self.rotation_step == 0
        &&& self.figure.cells == self.figure.kind.orientation(self.rotation_step)
    }

    /// The piece of shape `kind` as it first appears, with its grid at
    /// `position`.
    pub open spec fn spawned(kind: FigureType, position: Point) -> ActiveFigureView {
        ActiveFigureView { figure: FigureView::fresh(kind), position, rotation_step: 0 }
    }

    /// The field cells that the piece fills: its own cells, each shifted by
    /// the position.
    pub open spec fn world_cells(self) -> Seq<Point> {
        Seq::new(
            self.figure.local_cells().len(),
            |i: int|
                Point {
                    x: (self.figure.local_cells()[i].x + self.position.x) as i32,
                    y: (self.figure.local_cells()[i].y + self.position.y) as i32,
                },
        )
    }

    /// Every field cell of the piece has coordinates that an `i32` holds.
    pub open spec fn fits(self) -> bool {
        forall|i: int|
            0 <= i < self.figure.local_cells().len() ==> {
                &&& (#[trigger] self.figure.local_cells()[i]).x + self.position.x <= i32::MAX
                &&& self.figure.local_cells()[i].y + self.position.y <= i32::MAX
            }
    }

    /// The position shifted by `dx` columns and `dy` rows is one that an
    /// `i32` pair holds.
    pub open spec fn can_shift(self, dx: int, dy: int) -> bool {
        &&& i32::MIN <= self.position.x + dx <= i32::MAX
        &&& i32::MIN <= self.position.y + dy <= i32::MAX
    }

    /// The same piece, turned the same way, `dx` columns further right and
    /// `dy` rows further down.
    pub open spec fn moved(self, dx: int, dy: int) -> ActiveFigureView {
        ActiveFigureView {
            position: Point { x: (self.position.x + dx) as i32, y: (self.position.y + dy) as i32 },
            ..self
        }
    }

    /// The piece in the same place after a quarter turn clockwise.
    pub open spec fn rotated(self) -> ActiveFigureView {
        ActiveFigureView {
            figure: self.figure.rotated(),
            position: self.position,
            rotation_step: self.figure.kind.step_after(self.rotation_step),
        }
    }

    /// The offsets to try, in this order, when the piece turns from its
    /// current rotation step.
    pub open spec fn kick_offsets(self) -> Seq<Point> {
        self.figure.kind.kick_table()[self.rotation_step as int]
    }

    /// Every offset to try leads to a position that an `i32` pair holds.
    pub open spec fn can_kick(self) -> bool {
        forall|i: int|
            0 <= i < self.kick_offsets().len() ==> self.can_shift(
                (#[trigger] self.kick_offsets()[i]).x as int,
                self.kick_offsets()[i].y as int,
            )
    }

    /// The turned piece at each of the positions to try, in the order of
    /// the offsets: first shifted, then turned.
    pub open spec fn kick_candidates(self) -> Seq<ActiveFigureView> {
        Seq::new(
            self.kick_offsets().len(),
            |i: int| self.moved(self.kick_offsets()[i].x as int, self.kick_offsets()[i].y as int).rotated(),
        )
    }

    /// The leftmost column that the piece reaches.
    pub open spec fn left_edge(self) -> int {
        leftmost(self.world_cells())
    }

    /// The rightmost column that the piece reaches.
    pub open spec fn right_edge(self) -> int {
        rightmost(self.world_cells())
    }

    /// The lowest row that the piece reaches.
    pub open spec fn bottom_edge(self) -> int {
        lowest(self.world_cells())
    }

    /// A falling piece that is well formed holds a well-formed piece.
    pub proof fn lemma_figure_wf(self)
        requires
            self.wf(),
        ensures
            self.figure.wf(),
    {
    }

    /// Turning keeps a falling piece well formed.
    pub proof fn lemma_rotated_wf(self)
        requires
            self.wf(),
        ensures
            self.rotated().wf(),
    {
        self.figure.kind.lemma_turn_advances_orientation(self.rotation_step);
        if self.figure.kind == FigureType::O {
            FigureType::lemma_o_has_one_orientation(0);
            FigureType::lemma_o_has_one_orientation(1);
        }
    }

    /// Under repeated turns the rotation step of a piece other than the
    /// square one goes round 0, 1, 2, 3 and back to 0; that of the square
    /// piece is 0 after every turn.
    pub proof fn lemma_rotation_step_cycle(self)
        requires
            self.wf(),
        ensures
            self.figure.kind != FigureType::O ==> self.rotated().rotation_step == (self.rotation_step
                + 1) % 4,
            self.figure.kind == FigureType::O ==> self.rotated().rotation_step == 0,
            self.rotated().rotated().rotated().rotated().rotation_step == self.rotation_step,
    {
    }

    /// Four turns give back the falling piece one started with: the same
    /// cells in the same place at the same rotation step.
    pub proof fn lemma_rotation_closure(self)
        requires
            self.wf(),
        ensures
            self.rotated().rotated().rotated().rotated() == self,
    {
        self.lemma_figure_wf();
        self.figure.lemma_rotation_closure();
    }

    /// Shifting the piece shifts each of its field cells by as much.
    pub proof fn lemma_moved_cells(self, dx: int, dy: int, i: int)
        requires
            self.wf(),
            self.fits(),
            self.can_shift(dx, dy),
            self.moved(dx, dy).fits(),
            0 <= i < self.world_cells().len(),
        ensures
            self.moved(dx, dy).world_cells().len() == self.world_cells().len(),
            self.moved(dx, dy).world_cells()[i].x == self.world_cells()[i].x + dx,
            self.moved(dx, dy).world_cells()[i].y == self.world_cells()[i].y + dy,
    {
        self.figure.lemma_local_cells_sound(i);
        assert(self.moved(dx, dy).figure.local_cells()[i] == self.figure.local_cells()[i]);
    }

    /// A piece whose position leaves room for a grid of side 4 before the
    /// largest `i32` has all its field cells in range.
    pub proof fn lemma_fits(self)
        requires
            self.wf(),
            self.position.x <= i32::MAX - 3,
            self.position.y <= i32::MAX - 3,
        ensures
            self.fits(),
    {
        assert forall|i: int| 0 <= i < self.figure.local_cells().len() implies {
            &&& (#[trigger] self.figure.local_cells()[i]).x + self.position.x <= i32::MAX
            &&& self.figure.local_cells()[i].y + self.position.y <= i32::MAX
        } by {
            self.figure.lemma_local_cells_sound(i);
        }
    }
}

/// The views of the pieces in a list.
pub open spec fn views_of(pieces: Seq<ActiveFigure>) -> Seq<ActiveFigureView> {
    Seq::new(pieces.len(), |i: int| pieces[i]@)
}

/// A piece in play: the piece itself, where it is on the field, and how
/// often it has been turned.
#[derive(Debug, PartialEq)]
pub struct ActiveFigure {
    figure: Figure,
    position: Point,
    rotation_step: usize,
}

impl View for ActiveFigure {
    type V = ActiveFigureView;

    closed spec fn view(&self) -> ActiveFigureView {
        ActiveFigureView {
            figure: self.figure@,
            position: self.position,
            rotation_step: self.rotation_step as nat,
        }
    }
}

impl ActiveFigure {
    /// The rotation step is one of 0 to 3 and tells how the grid is turned.
    #[verifier::type_invariant]
    pub open spec fn wf(&self) -> bool {
        self@.wf()
    }

    pub fn new(figure_type: FigureType, position: Point) -> (a: ActiveFigure)
        ensures
            a@ == ActiveFigureView::spawned(figure_type, position),
            a.wf(),
    {
        ActiveFigure { figure: Figure::new(figure_type), position, rotation_step: 0 }
    }

    /// The field cells that the piece fills.
    pub fn to_cartesian(&self) -> (points: Vec<Point>)
        requires
            self@.fits(),
        ensures
            points@ == self@.world_cells(),
    {
        proof {
            use_type_invariant(self);
        }
        let figure_points = self.figure.to_cartesian();
        let (dx, dy) = (self.position.x, self.position.y);
        let mut points: Vec<Point> = Vec::new();
        let mut i: usize = 0;
        while i < figure_points.len()
            invariant
                self@.wf(),
                figure_points@ == self@.figure.local_cells(),
                self@.fits(),
                dx == self@.position.x,
                dy == self@.position.y,
                i <= figure_points.len(),
                points@ == self@.world_cells().take(i as int),
            decreases figure_points.len() - i,
        {
            let point = figure_points[i];
            assert(point == self@.figure.local_cells()[i as int]);
            assert(point.x >= 0 && point.y >= 0) by {
                self@.figure.lemma_local_cells_sound(i as int);
            }
            points.push(Point { x: point.x + dx, y: point.y + dy });
            assert(points@ =~= self@.world_cells().take(i + 1));
            i += 1;
        }
        assert(points@ =~= self@.world_cells());
        points
    }

    pub fn color(&self) -> (c: Color)
        ensures
            c == self@.figure.kind.palette(),
    {
        self.figure.color()
    }

    pub fn position(&self) -> (p: Point)
        ensures
            p == self@.position,
    {
        self.position
    }

    pub fn get_type(&self) -> (kind: FigureType)
        ensures
            kind == self@.figure.kind,
    {
        self.figure.get_type()
    }

    /// The number of quarter turns made, counted round from 0 to 3.
    pub fn rotation_step(&self) -> (step: usize)
        ensures
            step == self@.rotation_step,
            step <= 3,
    {
        proof {
            use_type_invariant(self);
        }
        self.rotation_step
    }

    /// The piece itself.
    pub fn figure(&self) -> (f: &Figure)
        ensures
            f@ == self@.figure,
    {
        &self.figure
    }

    /// The leftmost column that the piece reaches.
    pub fn left_edge(&self) -> (edge: i32)
        requires
            self@.fits(),
        ensures
            edge == self@.left_edge(),
    {
        let points = self.to_cartesian();
        let mut edge: i32 = i32::MAX;
        let mut i: usize = 0;
        while i < points.len()
            invariant
                i <= points.len(),
                edge == leftmost(points@.take(i as int)),
            decreases points.len() - i,
        {
            assert(points@.take(i + 1).drop_last() =~= points@.take(i as int));
            if points[i].x < edge {
                edge = points[i].x;
            }
            i += 1;
        }
        assert(points@.take(i as int) =~= points@);
        edge
    }

    /// The rightmost column that the piece reaches.
    pub fn right_edge(&self) -> (edge: i32)
        requires
            self@.fits(),
        ensures
            edge == self@.right_edge(),
    {
        let points = self.to_cartesian();
        let mut edge: i32 = i32::MIN;
        let mut i: usize = 0;
        while i < points.len()
            invariant
                i <= points.len(),
                edge == rightmost(points@.take(i as int)),
            decreases points.len() - i,
        {
            assert(points@.take(i + 1).drop_last() =~= points@.take(i as int));
            if points[i].x > edge {
                edge = points[i].x;
            }
            i += 1;
        }
        assert(points@.take(i as int) =~= points@);
        edge
    }

    /// The lowest row that the piece reaches.
    pub fn bottom_edge(&self) -> (edge: i32)
        requires
            self@.fits(),
        ensures
            edge == self@.bottom_edge(),
    {
        let points = self.to_cartesian();
        let mut edge: i32 = i32::MIN;
        let mut i: usize = 0;
        while i < points.len()
            invariant
                i <= points.len(),
                edge == lowest(points@.take(i as int)),
            decreases points.len() - i,
        {
            assert(points@.take(i + 1).drop_last() =~= points@.take(i as int));
            if points[i].y > edge {
                edge = points[i].y;
            }
            i += 1;
        }
        assert(points@.take(i as int) =~= points@);
        edge
    }

    /// The piece in the same place after a quarter turn clockwise.
    pub fn rotated(&self) -> (r: ActiveFigure)
        ensures
            r@ == self@.rotated(),
            r.wf(),
    {
        proof {
            use_type_invariant(self);
            self@.lemma_rotated_wf();
        }
        let figure = self.figure.rotated();
        ActiveFigure { figure, position: self.position, rotation_step: self.next_rotation_step() }
    }

    /// The piece one row further down.
    pub fn moved_down(&self) -> (r: ActiveFigure)
        requires
            self@.can_shift(0, 1),
        ensures
            r@ == self@.moved(0, 1),
            r.wf(),
    {
        self.updating_position_by_xy(0, 1)
    }

    /// The piece one column further left.
    pub fn moved_left(&self) -> (r: ActiveFigure)
        requires
            self@.can_shift(-1, 0),
        ensures
            r@ == self@.moved(-1, 0),
            r.wf(),
    {
        self.updating_position_by_xy(-1, 0)
    }

    /// The piece one column further right.
    pub fn moved_right(&self) -> (r: ActiveFigure)
        requires
            self@.can_shift(1, 0),
        ensures
            r@ == self@.moved(1, 0),
            r.wf(),
    {
        self.updating_position_by_xy(1, 0)
    }

    /// The turned piece at each position to try when it turns from its
    /// current rotation step, in the order in which to try them.
    pub fn wall_kicked_rotation_tests(&self) -> (candidates: Vec<ActiveFigure>)
        requires
            self@.can_kick(),
        ensures
            views_of(candidates@) == self@.kick_candidates(),
    {
        let offsets = self.wall_kick_tests();
        let mut candidates: Vec<ActiveFigure> = Vec::new();
        let mut i: usize = 0;
        while i < offsets.len()
            invariant
                offsets@ == self@.kick_offsets(),
                self@.can_kick(),
                i <= offsets.len(),
                candidates@.len() == i,
                views_of(candidates@) == self@.kick_candidates().take(i as int),
            decreases offsets.len() - i,
        {
            let point = offsets[i];
            assert(point == self@.kick_offsets()[i as int]);
            let candidate = self.updating_position_by_xy(point.x, point.y).rotated();
            let ghost before = candidates@;
            candidates.push(candidate);
            assert forall|k: int| 0 <= k < i + 1 implies views_of(candidates@)[k]
                == self@.kick_candidates()[k] by {
                if k < i {
                    assert(candidates@[k] == before[k]);
                    assert(views_of(before)[k] == self@.kick_candidates().take(i as int)[k]);
                }
            }
            assert(views_of(candidates@) =~= self@.kick_candidates().take(i + 1));
            i += 1;
        }
        assert(views_of(candidates@) =~= self@.kick_candidates());
        candidates
    }

    fn wall_kick_tests(&self) -> (offsets: Vec<Point>)
        ensures
            offsets@ == self@.kick_offsets(),
    {
        proof {
            use_type_invariant(self);
        }
        let kick_wall_tests_matrix = self.figure.wall_kick_tests();
        assert(rows_of(kick_wall_tests_matrix@).len() > self.rotation_step);
        let row = &kick_wall_tests_matrix[self.rotation_step];
        assert(row@ == rows_of(kick_wall_tests_matrix@)[self.rotation_step as int]);
        let mut offsets: Vec<Point> = Vec::new();
        let mut i: usize = 0;
        while i < row.len()
            invariant
                i <= row.len(),
                offsets@ == row@.take(i as int),
            decreases row.len() - i,
        {
            offsets.push(row[i]);
            assert(offsets@ =~= row@.take(i + 1));
            i += 1;
        }
        assert(offsets@ =~= row@);
        offsets
    }

    fn next_rotation_step(&self) -> (step: usize)
        ensures
            step == self@.figure.kind.step_after(self@.rotation_step),
    {
        proof {
            use_type_invariant(self);
        }
        match self.get_type() {
            FigureType::O => 0,
            _ => {
                let next_step: usize = self.rotation_step + 1;
                if next_step > 3 {
                    return 0;
                }
                next_step
            },
        }
    }

    /// The piece `x` columns further right and `y` rows further down.
    pub fn updating_position_by_xy(&self, x: i32, y: i32) -> (r: ActiveFigure)
        requires
            self@.can_shift(x as int, y as int),
        ensures
            r@ == self@.moved(x as int, y as int),
            r.wf(),
    {
        proof {
            use_type_invariant(self);
        }
        ActiveFigure {
            figure: self.figure.clone(),
            position: Point { x: self.position().x + x, y: self.position().y + y },
            rotation_step: self.rotation_step,
        }
    }
}

impl Clone for ActiveFigure {
    /// The same piece in the same place at the same rotation step.
    fn clone(&self) -> (r: Self)
        ensures
            r@ == self@,
    {
        proof {
            use_type_invariant(self);
        }
        ActiveFigure {
            figure: self.figure.clone(),
            position: self.position,
            rotation_step: self.rotation_step,
        }
    }
}

} // verus!
