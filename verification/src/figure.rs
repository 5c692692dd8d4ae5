use vstd::prelude::*;
use crate::figure_type::FigureType;
use crate::geometry::Point;
use crate::graphics::Color;
use crate::matrix::{
    is_rectangular, is_square, rows_of, turned_clockwise, width_of, Matrix,
};

verus! {

/// The marked cells among the first `upto` cells of `row`, from left to
/// right, as points of row `y`. A cell is marked when it holds 1.
pub open spec fn marked_in_row(row: Seq<u8>, y: int, upto: int) -> Seq<Point>
    decreases upto,
{
    if upto <= 0 {
        Seq::empty()
    } else if row[upto - 1] == 1 {
        marked_in_row(row, y, upto - 1).push(Point { x: (upto - 1) as i32, y: y as i32 })
    } else {
        marked_in_row(row, y, upto - 1)
    }
}

/// The marked cells of the first `upto` rows, row after row from the top.
pub open spec fn marked_in_rows(rows: Seq<Seq<u8>>, upto: int) -> Seq<Point>
    decreases upto,
{
    if upto <= 0 {
        Seq::empty()
    } else {
        marked_in_rows(rows, upto - 1) + marked_in_row(
            rows[upto - 1],
            upto - 1,
            rows[upto - 1].len() as int,
        )
    }
}

/// All marked cells of a grid: row after row from the top, each row from
/// left to right.
pub open spec fn marked_cells(rows: Seq<Seq<u8>>) -> Seq<Point> {
    marked_in_rows(rows, rows.len() as int)
}

/// Column `x` of row `y` exists in `rows` and is marked.
pub open spec fn is_marked(rows: Seq<Seq<u8>>, x: int, y: int) -> bool {
    0 <= y < rows.len() && 0 <= x < rows[y].len() && rows[y][x] == 1
}

/// Every point listed for a row is a marked cell of that row.
pub proof fn lemma_marked_in_row_sound(row: Seq<u8>, y: int, upto: int, i: int)
    requires
        0 <= upto <= row.len() <= i32::MAX,
        0 <= y <= i32::MAX,
        0 <= i < marked_in_row(row, y, upto).len(),
    ensures
        marked_in_row(row, y, upto)[i].y == y,
        0 <= marked_in_row(row, y, upto)[i].x < upto,
        row[marked_in_row(row, y, upto)[i].x as int] == 1,
    decreases upto,
{
    if upto > 0 {
        let before = marked_in_row(row, y, upto - 1);
        if i < before.len() {
            lemma_marked_in_row_sound(row, y, upto - 1, i);
        }
    }
}

/// Every marked cell of a row is listed for it.
pub proof fn lemma_marked_in_row_complete(row: Seq<u8>, y: int, upto: int, x: int) -> (i: int)
    requires
        0 <= x < upto <= row.len() <= i32::MAX,
        0 <= y <= i32::MAX,
        row[x] == 1,
    ensures
        0 <= i < marked_in_row(row, y, upto).len(),
        marked_in_row(row, y, upto)[i] == (Point { x: x as i32, y: y as i32 }),
    decreases upto,
{
    if x == upto - 1 {
        marked_in_row(row, y, upto - 1).len() as int
    } else {
        lemma_marked_in_row_complete(row, y, upto - 1, x)
    }
}

/// Every point listed for the first `upto` rows is a marked cell of one of
/// them.
pub proof fn lemma_marked_in_rows_sound(rows: Seq<Seq<u8>>, upto: int, i: int)
    requires
        0 <= upto <= rows.len() <= i32::MAX,
        forall|y: int| 0 <= y < rows.len() ==> (#[trigger] rows[y]).len() <= i32::MAX,
        0 <= i < marked_in_rows(rows, upto).len(),
    ensures
        0 <= marked_in_rows(rows, upto)[i].y < upto,
        is_marked(rows, marked_in_rows(rows, upto)[i].x as int, marked_in_rows(rows, upto)[i].y as int),
    decreases upto,
{
    if upto > 0 {
        let before = marked_in_rows(rows, upto - 1);
        if i < before.len() {
            lemma_marked_in_rows_sound(rows, upto - 1, i);
        } else {
            lemma_marked_in_row_sound(
                rows[upto - 1],
                upto - 1,
                rows[upto - 1].len() as int,
                i - before.len(),
            );
        }
    }
}

/// Every marked cell of the first `upto` rows is listed for them.
pub proof fn lemma_marked_in_rows_complete(rows: Seq<Seq<u8>>, upto: int, x: int, y: int) -> (i: int)
    requires
        0 <= y < upto <= rows.len() <= i32::MAX,
        forall|k: int| 0 <= k < rows.len() ==> (#[trigger] rows[k]).len() <= i32::MAX,
        is_marked(rows, x, y),
    ensures
        0 <= i < marked_in_rows(rows, upto).len(),
        marked_in_rows(rows, upto)[i] == (Point { x: x as i32, y: y as i32 }),
    decreases upto,
{
    if y == upto - 1 {
        let k = lemma_marked_in_row_complete(rows[y], y, rows[y].len() as int, x);
        marked_in_rows(rows, upto - 1).len() + k
    } else {
        lemma_marked_in_rows_complete(rows, upto - 1, x, y)
    }
}

/// A quarter turn takes the cell in column `x` of row `y` to the column
/// that lies as far from the right edge as the row lay from the top, in
/// row `x`.
pub proof fn lemma_turn_moves_cell(rows: Seq<Seq<u8>>, x: int, y: int)
    requires
        is_square(rows),
        0 <= x < rows.len(),
        0 <= y < rows.len(),
    ensures
        turned_clockwise(rows)[x][rows.len() - 1 - y] == rows[y][x],
{
}

/// What a piece is: its shape and the grid of its cells as it is turned now.
pub struct FigureView {
    pub kind: FigureType,
    pub cells: Seq<Seq<u8>>,
}

impl FigureView {
    /// The grid is one of the four orientations of the shape.
    pub open spec fn wf(self) -> bool {
        ||| self.cells == self.kind.orientation(0)
        ||| self.cells == self.kind.orientation(1)
        ||| self.cells == self.kind.orientation(2)
        ||| self.cells == self.kind.orientation(3)
    }

    /// The piece as it first appears.
    pub open spec fn fresh(kind: FigureType) -> FigureView {
        FigureView { kind, cells: kind.pattern() }
    }

    /// The piece after a quarter turn clockwise.
    pub open spec fn rotated(self) -> FigureView {
        FigureView { kind: self.kind, cells: turned_clockwise(self.cells) }
    }

    /// The cells that the piece fills, as offsets from the top-left corner
    /// of its grid: row after row, each from left to right.
    pub open spec fn local_cells(self) -> Seq<Point> {
        marked_cells(self.cells)
    }

    /// A well-formed piece lies on a square grid of its shape's side.
    pub proof fn lemma_grid_is_square(self)
        requires
            self.wf(),
        ensures
            is_square(self.cells),
            self.cells.len() == self.kind.side(),
            2 <= self.cells.len() <= 4,
    {
        self.kind.lemma_orientation_is_square(0);
        self.kind.lemma_orientation_is_square(1);
        self.kind.lemma_orientation_is_square(2);
        self.kind.lemma_orientation_is_square(3);
    }

    /// A quarter turn of a well-formed piece is a well-formed piece.
    pub proof fn lemma_rotated_wf(self)
        requires
            self.wf(),
        ensures
            self.rotated().wf(),
    {
        self.kind.lemma_turn_advances_orientation(0);
        self.kind.lemma_turn_advances_orientation(1);
        self.kind.lemma_turn_advances_orientation(2);
        self.kind.lemma_turn_advances_orientation(3);
    }

    /// Four quarter turns give back the piece one started with, and a
    /// square piece is the same after every single turn.
    pub proof fn lemma_rotation_closure(self)
        requires
            self.wf(),
        ensures
            self.rotated().rotated().rotated().rotated() == self,
            self.kind == FigureType::O ==> self.rotated() == self,
    {
        self.lemma_grid_is_square();
        crate::matrix::lemma_four_turns(self.cells);
        if self.kind == FigureType::O {
            FigureType::lemma_o_has_one_orientation(0);
            FigureType::lemma_o_has_one_orientation(1);
            FigureType::lemma_o_has_one_orientation(2);
            FigureType::lemma_o_has_one_orientation(3);
            FigureType::O.lemma_turn_advances_orientation(0);
        }
    }

    /// Each listed cell lies on the grid and is filled.
    pub proof fn lemma_local_cells_sound(self, i: int)
        requires
            self.wf(),
            0 <= i < self.local_cells().len(),
        ensures
            0 <= self.local_cells()[i].x < self.kind.side(),
            0 <= self.local_cells()[i].y < self.kind.side(),
            self.cells[self.local_cells()[i].y as int][self.local_cells()[i].x as int] == 1,
    {
        self.lemma_grid_is_square();
        lemma_marked_in_rows_sound(self.cells, self.cells.len() as int, i);
    }

    /// Each filled cell of the grid is listed.
    pub proof fn lemma_local_cells_complete(self, x: int, y: int) -> (i: int)
        requires
            self.wf(),
            is_marked(self.cells, x, y),
        ensures
            0 <= i < self.local_cells().len(),
            self.local_cells()[i] == (Point { x: x as i32, y: y as i32 }),
    {
        self.lemma_grid_is_square();
        lemma_marked_in_rows_complete(self.cells, self.cells.len() as int, x, y)
    }

    /// A well-formed piece fills at least one cell.
    pub proof fn lemma_has_a_cell(self)
        requires
            self.wf(),
        ensures
            self.local_cells().len() > 0,
    {
        let p0 = self.kind.pattern();
        let p1 = turned_clockwise(p0);
        let p2 = turned_clockwise(p1);
        let p3 = turned_clockwise(p2);
        let n = self.kind.side() as int;
        self.kind.lemma_orientation_is_square(0);
        self.kind.lemma_orientation_is_square(1);
        self.kind.lemma_orientation_is_square(2);
        self.kind.lemma_orientation_is_square(3);
        assert(p0[1][1] == 1);
        lemma_turn_moves_cell(p0, 1, 1);
        lemma_turn_moves_cell(p1, n - 2, 1);
        lemma_turn_moves_cell(p2, n - 2, n - 2);
        assert(is_marked(p0, 1, 1));
        assert(is_marked(p1, n - 2, 1));
        assert(is_marked(p2, n - 2, n - 2));
        assert(is_marked(p3, 1, n - 2));
        if self.cells == p0 {
            self.lemma_local_cells_complete(1, 1);
        } else if self.cells == p1 {
            self.lemma_local_cells_complete(n - 2, 1);
        } else if self.cells == p2 {
            self.lemma_local_cells_complete(n - 2, n - 2);
        } else {
            self.lemma_local_cells_complete(1, n - 2);
        }
    }
}

/// A piece: one of the seven shapes, turned some number of quarter turns.
#[derive(Debug, PartialEq)]
pub struct Figure {
    figure_type: FigureType,
    matrix: Matrix<u8>,
}

impl View for Figure {
    type V = FigureView;

    closed spec fn view(&self) -> FigureView {
        FigureView { kind: self.figure_type, cells: self.matrix@ }
    }
}

impl Figure {
    /// The grid is one of the four orientations of the shape.
    #[verifier::type_invariant]
    pub open spec fn wf(&self) -> bool {
        self@.wf()
    }

    /// The piece of the given shape as it first appears.
    pub fn new(figure_type: FigureType) -> (f: Figure)
        ensures
            f@ == FigureView::fresh(figure_type),
            f.wf(),
    {
        let matrix = figure_type.initial_matrix();
        Figure { figure_type, matrix }
    }

    pub fn get_type(&self) -> (kind: FigureType)
        ensures
            kind == self@.kind,
    {
        self.figure_type
    }

    pub fn color(&self) -> (c: Color)
        ensures
            c == self@.kind.palette(),
    {
        self.figure_type.color()
    }

    /// The grid of the piece as it is turned now.
    pub fn matrix(&self) -> (m: &Matrix<u8>)
        ensures
            m@ == self@.cells,
    {
        &self.matrix
    }

    pub fn wall_kick_tests(&self) -> (table: Vec<Vec<Point>>)
        ensures
            rows_of(table@) == self@.kind.kick_table(),
    {
        self.figure_type.wall_kick()
    }

    /// The piece after a quarter turn clockwise.
    pub fn rotated(&self) -> (r: Figure)
        ensures
            r@ == self@.rotated(),
            r.wf(),
    {
        proof {
            use_type_invariant(self);
            self@.lemma_grid_is_square();
            self@.lemma_rotated_wf();
        }
        Figure { matrix: self.matrix.rotated(), figure_type: self.figure_type }
    }

    /// The cells that the piece fills, as offsets from the top-left corner
    /// of its grid.
    pub fn to_cartesian(&self) -> (points: Vec<Point>)
        ensures
            points@ == self@.local_cells(),
    {
        proof {
            use_type_invariant(self);
            self@.lemma_grid_is_square();
        }
        let mut points: Vec<Point> = Vec::new();
        let height: usize = self.matrix.height();
        let width: usize = self.matrix.width();
        let mut y: usize = 0;
        while y < height
            invariant
                height == self.matrix@.len(),
                width == width_of(self.matrix@),
                is_rectangular(self.matrix@),
                height <= 4,
                width <= 4,
                y <= height,
                points@ == marked_in_rows(self.matrix@, y as int),
            decreases height - y,
        {
            let ghost before = points@;
            let mut x: usize = 0;
            assert(self.matrix@[y as int].len() == width);
            while x < width
                invariant
                    height == self.matrix@.len(),
                    width == width_of(self.matrix@),
                    self.matrix@[y as int].len() == width,
                    height <= 4,
                    width <= 4,
                    y < height,
                    x <= width,
                    points@ == before + marked_in_row(self.matrix@[y as int], y as int, x as int),
                decreases width - x,
            {
                if let Some(element) = self.matrix.at_xy(x, y) {
                    if *element == 1 {
                        points.push(Point { x: x as i32, y: y as i32 });
                    }
                }
                x += 1;
            }
            y += 1;
        }
        points
    }
}

impl Clone for Figure {
    /// The same shape, turned the same way.
    fn clone(&self) -> (r: Self)
        ensures
            r@ == self@,
    {
        proof {
            use_type_invariant(self);
        }
        Figure { figure_type: self.figure_type, matrix: self.matrix.clone() }
    }
}

} // verus!
