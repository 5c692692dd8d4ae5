use vstd::prelude::*;

verus! {

/// Every row is as long as the first one.
pub open spec fn is_rectangular<T>(rows: Seq<Seq<T>>) -> bool {
    forall|y: int| 0 <= y < rows.len() ==> (#[trigger] rows[y]).len() == rows[0].len()
}

/// The length of the first row, 0 where there is no row.
pub open spec fn width_of<T>(rows: Seq<Seq<T>>) -> nat {
    if rows.len() == 0 {
        0
    } else {
        rows[0].len()
    }
}

/// As many columns as rows.
pub open spec fn is_square<T>(rows: Seq<Seq<T>>) -> bool {
    is_rectangular(rows) && width_of(rows) == rows.len()
}

/// The rows of a square grid after a quarter turn clockwise: the cell in row
/// `y`, column `x` comes from column `y` of the row that lay `x` rows above
/// the bottom one.
pub open spec fn turned_clockwise<T>(rows: Seq<Seq<T>>) -> Seq<Seq<T>> {
    Seq::new(
        rows.len(),
        |y: int| Seq::new(rows.len(), |x: int| rows[rows.len() - 1 - x][y]),
    )
}

/// `rows` with the cell in column `x` of row `y` set to `value`; `rows`
/// itself where there is no such cell.
pub open spec fn with_cell<T>(rows: Seq<Seq<T>>, x: int, y: int, value: T) -> Seq<Seq<T>> {
    if 0 <= y < rows.len() && 0 <= x < width_of(rows) {
        rows.update(y, rows[y].update(x, value))
    } else {
        rows
    }
}

/// What a vector of rows holds, row by row.
pub open spec fn rows_of<T>(data: Seq<Vec<T>>) -> Seq<Seq<T>> {
    Seq::new(data.len(), |y: int| data[y]@)
}

/// A quarter turn of a square grid gives a square grid of the same side.
pub proof fn lemma_turn_keeps_square<T>(rows: Seq<Seq<T>>)
    ensures
        is_square(turned_clockwise(rows)),
        turned_clockwise(rows).len() == rows.len(),
{
}

/// Four quarter turns bring every cell of a square grid back to its place.
pub proof fn lemma_four_turns<T>(rows: Seq<Seq<T>>)
    requires
        is_square(rows),
    ensures
        turned_clockwise(turned_clockwise(turned_clockwise(turned_clockwise(rows)))) == rows,
{
    let once = turned_clockwise(rows);
    let twice = turned_clockwise(once);
    let thrice = turned_clockwise(twice);
    let back = turned_clockwise(thrice);
    let n = rows.len() as int;
    assert forall|y: int| 0 <= y < n implies #[trigger] back[y] == rows[y] by {
        assert forall|x: int| 0 <= x < n implies back[y][x] == rows[y][x] by {
            assert(back[y][x] == thrice[n - 1 - x][y]);
            assert(thrice[n - 1 - x][y] == twice[n - 1 - y][n - 1 - x]);
            assert(twice[n - 1 - y][n - 1 - x] == once[x][n - 1 - y]);
            assert(once[x][n - 1 - y] == rows[y][x]);
        }
        assert(rows[y].len() == n);
        assert(back[y] =~= rows[y]);
    }
    assert(back =~= rows);
}

/// A rectangular grid of cells, stored row by row from the top. A cell is
/// addressed by its column `x` and its row `y`.
#[derive(Debug, PartialEq)]
pub struct Matrix<T> {
    data: Vec<Vec<T>>,
}

impl<T> View for Matrix<T> {
    type V = Seq<Seq<T>>;

    /// The rows, top row first.
    closed spec fn view(&self) -> Seq<Seq<T>> {
        rows_of(self.data@)
    }
}

impl<T> Matrix<T> {
    /// All rows have one length.
    #[verifier::type_invariant]
    pub open spec fn wf(&self) -> bool {
        is_rectangular(self@)
    }

    pub fn new(data: Vec<Vec<T>>) -> (m: Matrix<T>)
        requires
            is_rectangular(rows_of(data@)),
        ensures
            m@ == rows_of(data@),
            m.wf(),
    {
        Matrix { data }
    }

    /// The grid turned a quarter turn clockwise.
    pub fn rotated(&self) -> (r: Matrix<T>) where T: Copy
        requires
            is_square(self@),
        ensures
            r@ == turned_clockwise(self@),
            r.wf(),
    {
        let mut data: Vec<Vec<T>> = Vec::new();
        let matrix_length: usize = self.data.len();
        let mut i: usize = 0;
        while i < matrix_length
            invariant
                matrix_length == self.data.len(),
                is_square(self@),
                i <= matrix_length,
                data@.len() == i,
                forall|y: int|
                    0 <= y < i ==> (#[trigger] data@[y])@ == turned_clockwise(self@)[y],
            decreases matrix_length - i,
        {
            let mut row: Vec<T> = Vec::new();
            let mut j: usize = 0;
            while j < matrix_length
                invariant
                    matrix_length == self.data.len(),
                    is_square(self@),
                    i < matrix_length,
                    j <= matrix_length,
                    row@.len() == j,
                    forall|x: int|
                        0 <= x < j ==> #[trigger] row@[x] == self@[matrix_length - 1 - x][i as int],
                decreases matrix_length - j,
            {
                let y_position: usize = (matrix_length - 1) - j;
                assert(self@[y_position as int].len() == matrix_length);
                let element = self.data[y_position][i];
                row.push(element);
                j += 1;
            }
            assert(row@ =~= turned_clockwise(self@)[i as int]);
            data.push(row);
            i += 1;
        }
        assert(rows_of(data@) =~= turned_clockwise(self@));
        proof {
            lemma_turn_keeps_square(self@);
        }
        Matrix { data }
    }

    pub fn height(&self) -> (h: usize)
        ensures
            h == self@.len(),
    {
        self.data.len()
    }

    pub fn width(&self) -> (w: usize)
        ensures
            w == width_of(self@),
    {
        if self.data.len() > 0 {
            return self.data[0].len();
        }
        0
    }

    /// The cell in column `x` of row `y`, if there is one.
    pub fn at_xy(&self, x: usize, y: usize) -> (cell: Option<&T>)
        ensures
            cell == (if x < width_of(self@) && y < self@.len() {
                Some(&self@[y as int][x as int])
            } else {
                None
            }),
    {
        proof {
            use_type_invariant(self);
        }
        if x >= self.width() || y >= self.height() {
            return None;
        }
        assert(self@[y as int].len() == width_of(self@));
        Some(&self.data[y][x])
    }

    /// A copy of the grid in which the cell in column `x` of row `y` holds
    /// `element`. Where the grid has no such cell, the copy equals the grid.
    pub fn replacing_at_xy(&self, x: usize, y: usize, element: T) -> (r: Matrix<T>) where T: Copy
        ensures
            r@ == with_cell(self@, x as int, y as int, element),
            r.wf(),
    {
        proof {
            use_type_invariant(self);
        }
        let mut data: Vec<Vec<T>> = Vec::new();
        let height: usize = self.height();
        let width: usize = self.width();
        let mut _y: usize = 0;
        while _y < height
            invariant
                height == self@.len(),
                width == width_of(self@),
                is_rectangular(self@),
                _y <= height,
                data@.len() == _y,
                forall|k: int|
                    0 <= k < _y ==> (#[trigger] data@[k])@ == with_cell(
                        self@,
                        x as int,
                        y as int,
                        element,
                    )[k],
            decreases height - _y,
        {
            let mut row: Vec<T> = Vec::new();
            let mut _x: usize = 0;
            assert(self@[_y as int].len() == width);
            while _x < width
                invariant
                    height == self@.len(),
                    width == width_of(self@),
                    self@[_y as int].len() == width,
                    _y < height,
                    _x <= width,
                    row@.len() == _x,
                    forall|k: int|
                        0 <= k < _x ==> #[trigger] row@[k] == with_cell(
                            self@,
                            x as int,
                            y as int,
                            element,
                        )[_y as int][k],
                decreases width - _x,
            {
                if _x == x && _y == y {
                    row.push(element);
                } else {
                    row.push(self.data[_y][_x]);
                }
                _x += 1;
            }
            assert(row@ =~= with_cell(self@, x as int, y as int, element)[_y as int]);
            data.push(row);
            _y += 1;
        }
        assert(rows_of(data@) =~= with_cell(self@, x as int, y as int, element));
        Matrix { data }
    }

    /// Row `line`, if there is one.
    pub fn row_at(&self, line: usize) -> (row: Option<&Vec<T>>)
        ensures
            line < self@.len() ==> row.is_some() && row.unwrap()@ == self@[line as int],
            line >= self@.len() ==> row.is_none(),
    {
        if line >= self.data.len() {
            None
        } else {
            Some(&self.data[line])
        }
    }
}

impl<T: Copy> Clone for Matrix<T> {
    /// A grid with the same cells.
    fn clone(&self) -> (r: Self)
        ensures
            r@ == self@,
    {
        proof {
            use_type_invariant(self);
        }
        let mut data: Vec<Vec<T>> = Vec::new();
        let mut y: usize = 0;
        while y < self.data.len()
            invariant
                y <= self.data.len(),
                data@.len() == y,
                forall|k: int| 0 <= k < y ==> (#[trigger] data@[k])@ == self.data@[k]@,
            decreases self.data.len() - y,
        {
            let mut row: Vec<T> = Vec::new();
            let mut x: usize = 0;
            while x < self.data[y].len()
                invariant
                    y < self.data.len(),
                    x <= self.data[y as int].len(),
                    row@ == self.data[y as int]@.take(x as int),
                decreases self.data[y as int].len() - x,
            {
                row.push(self.data[y][x]);
                x += 1;
            }
            data.push(row);
            y += 1;
        }
        assert(rows_of(data@) =~= self@);
        Matrix { data }
    }
}

} // verus!
