use std::collections::VecDeque;
use vstd::prelude::*;
use crate::figure_type::FigureType;
use crate::geometry::{Point, Size};
use crate::matrix::{is_rectangular, rows_of, width_of, with_cell, Matrix};

verus! {

/// A row of `width` empty cells.
pub open spec fn blank_row(width: nat) -> Seq<Option<FigureType>> {
    Seq::new(width, |x: int| None::<FigureType>)
}

/// `count` rows of `width` empty cells each.
pub open spec fn blank_rows(count: nat, width: nat) -> Seq<Seq<Option<FigureType>>> {
    Seq::new(count, |y: int| blank_row(width))
}

/// How many of the row indices from `from` up to, but not including,
/// `upto` are listed in `lines`.
pub open spec fn listed_between(lines: Seq<usize>, from: int, upto: int) -> nat
    decreases upto - from,
{
    if from >= upto {
        0
    } else if lines.contains((upto - 1) as usize) {
        listed_between(lines, from, upto - 1) + 1
    } else {
        listed_between(lines, from, upto - 1)
    }
}

/// The listed indices of a range are those of its lower part and those of
/// its upper part.
pub proof fn lemma_listed_split(lines: Seq<usize>, from: int, middle: int, upto: int)
    requires
        from <= middle <= upto,
    ensures
        listed_between(lines, from, upto) == listed_between(lines, from, middle) + listed_between(
            lines,
            middle,
            upto,
        ),
        listed_between(lines, from, upto) <= upto - from,
    decreases upto - from,
{
    if middle < upto {
        lemma_listed_split(lines, from, middle, upto - 1);
    } else if from < upto {
        lemma_listed_split(lines, from, middle - 1, upto - 1);
    }
}

/// What a field is: its rows from the top, each cell empty or holding the
/// shape of the piece that came to rest there.
pub struct BoardView {
    pub rows: Seq<Seq<Option<FigureType>>>,
}

impl BoardView {
    /// All rows have one length.
    pub open spec fn wf(self) -> bool {
        is_rectangular(self.rows)
    }

    pub open spec fn height(self) -> nat {
        self.rows.len()
    }

    pub open spec fn width(self) -> nat {
        width_of(self.rows)
    }

    /// The field of the given dimensions with every cell empty.
    pub open spec fn empty(height: nat, width: nat) -> BoardView {
        BoardView { rows: blank_rows(height, width) }
    }

    /// What column `x` of row `y` holds; nothing where the field has no
    /// such cell.
    pub open spec fn cell(self, x: int, y: int) -> Option<FigureType> {
        if 0 <= x < self.width() && 0 <= y < self.height() {
            self.rows[y][x]
        } else {
            None
        }
    }

    /// The point is a cell of the field, and that cell is filled.
    pub open spec fn occupied(self, point: Point) -> bool {
        self.cell(point.x as int, point.y as int).is_some()
    }

    /// The field with column `x` of row `y` set to `content`; the field
    /// itself where it has no such cell.
    pub open spec fn with_cell(self, x: int, y: int, content: Option<FigureType>) -> BoardView {
        BoardView { rows: with_cell(self.rows, x, y, content) }
    }

    /// The rows among the first `upto` whose index is not in `lines`, in
    /// their order.
    pub open spec fn kept_rows(self, lines: Seq<usize>, upto: int) -> Seq<Seq<Option<FigureType>>>
        decreases upto,
    {
        if upto <= 0 {
            Seq::empty()
        } else if lines.contains((upto - 1) as usize) {
            self.kept_rows(lines, upto - 1)
        } else {
            self.kept_rows(lines, upto - 1).push(self.rows[upto - 1])
        }
    }

    /// The field after the rows listed in `lines` are taken out: the other
    /// rows in their order at the bottom, and above them as many empty rows
    /// as were taken out.
    pub open spec fn without_rows(self, lines: Seq<usize>) -> BoardView {
        let kept = self.kept_rows(lines, self.height() as int);
        BoardView { rows: blank_rows((self.height() - kept.len()) as nat, self.width()) + kept }
    }

    /// Among the first `upto` rows no more are kept than there are, and
    /// each kept row is as wide as the field.
    pub proof fn lemma_kept_rows(self, lines: Seq<usize>, upto: int)
        requires
            self.wf(),
            0 <= upto <= self.height(),
        ensures
            self.kept_rows(lines, upto).len() <= upto,
            forall|k: int|
                0 <= k < self.kept_rows(lines, upto).len() ==> (#[trigger] self.kept_rows(
                    lines,
                    upto,
                )[k]).len() == self.width(),
        decreases upto,
    {
        if upto > 0 {
            self.lemma_kept_rows(lines, upto - 1);
        }
    }

    /// Taking rows out leaves a field of the same dimensions.
    pub proof fn lemma_without_rows_keeps_size(self, lines: Seq<usize>)
        requires
            self.wf(),
        ensures
            self.without_rows(lines).wf(),
            self.without_rows(lines).height() == self.height(),
            self.without_rows(lines).width() == self.width(),
    {
        self.lemma_kept_rows(lines, self.height() as int);
    }

    /// Among the first `upto` rows there are as many kept rows as indices
    /// that are not listed.
    pub proof fn lemma_kept_rows_count(self, lines: Seq<usize>, upto: int)
        requires
            0 <= upto <= self.height() <= usize::MAX,
        ensures
            self.kept_rows(lines, upto).len() == upto - listed_between(lines, 0, upto),
        decreases upto,
    {
        if upto > 0 {
            self.lemma_kept_rows_count(lines, upto - 1);
        }
    }

    /// Among the first `upto` rows, a row that is not listed stands after
    /// as many kept rows as unlisted rows lie above it.
    pub proof fn lemma_kept_rows_position(self, lines: Seq<usize>, upto: int, y: int)
        requires
            0 <= y < upto <= self.height() <= usize::MAX,
            !lines.contains(y as usize),
        ensures
            0 <= y - listed_between(lines, 0, y) < self.kept_rows(lines, upto).len(),
            self.kept_rows(lines, upto)[y - listed_between(lines, 0, y)] == self.rows[y],
        decreases upto,
    {
        self.lemma_kept_rows_count(lines, upto - 1);
        self.lemma_kept_rows_count(lines, y);
        lemma_listed_split(lines, 0, y, upto - 1);
        if y < upto - 1 {
            self.lemma_kept_rows_position(lines, upto - 1, y);
        }
    }

    /// Where each row is after the listed rows are taken out. A row that is
    /// not listed moves down by as many rows as are listed below it, and
    /// the rows at the top, as many as are listed, are empty. The
    /// dimensions of the field stay as they are.
    pub proof fn lemma_without_rows_reads(self, lines: Seq<usize>, y: int)
        requires
            self.wf(),
            0 <= y < self.height() <= usize::MAX,
        ensures
            self.without_rows(lines).height() == self.height(),
            !lines.contains(y as usize) ==> self.without_rows(lines).rows[y + listed_between(
                lines,
                y + 1,
                self.height() as int,
            )] == self.rows[y],
            y < listed_between(lines, 0, self.height() as int) ==> self.without_rows(lines).rows[y]
                == blank_row(self.width()),
    {
        let height = self.height() as int;
        self.lemma_kept_rows_count(lines, height);
        if !lines.contains(y as usize) {
            self.lemma_kept_rows_position(lines, height, y);
        }
        lemma_listed_split(lines, 0, y, height);
        lemma_listed_split(lines, y, y + 1, height);
        assert(listed_between(lines, y, y + 1) == (if lines.contains(y as usize) {
            1nat
        } else {
            0nat
        })) by {
            assert(listed_between(lines, y, y) == 0);
        }
    }

    /// Setting a cell leaves a field of the same dimensions.
    pub proof fn lemma_with_cell_keeps_size(self, x: int, y: int, content: Option<FigureType>)
        requires
            self.wf(),
        ensures
            self.with_cell(x, y, content).wf(),
            self.with_cell(x, y, content).height() == self.height(),
            self.with_cell(x, y, content).width() == self.width(),
    {
    }

    /// Setting a cell changes what that cell holds and nothing else.
    pub proof fn lemma_with_cell_reads(
        self,
        x: int,
        y: int,
        content: Option<FigureType>,
        at_x: int,
        at_y: int,
    )
        requires
            self.wf(),
        ensures
            self.with_cell(x, y, content).cell(at_x, at_y) == (if at_x == x && at_y == y && 0 <= x
                < self.width() && 0 <= y < self.height() {
                content
            } else {
                self.cell(at_x, at_y)
            }),
    {
    }
}

/// The playing field: a grid in which each cell is empty or holds the
/// shape of the piece that came to rest there.
#[derive(Debug)]
pub struct Board {
    matrix: Matrix<Option<FigureType>>,
}

impl View for Board {
    type V = BoardView;

    closed spec fn view(&self) -> BoardView {
        BoardView { rows: self.matrix@ }
    }
}

impl Board {
    /// All rows have one length.
    #[verifier::type_invariant]
    pub open spec fn wf(&self) -> bool {
        self@.wf()
    }

    /// The empty field of the given size.
    pub fn new(size: &Size) -> (b: Board)
        ensures
            b@ == BoardView::empty(size.height as nat, size.width as nat),
            b.wf(),
    {
        let mut cells: Vec<Vec<Option<FigureType>>> = Vec::new();
        let mut _y: usize = 0;
        while _y < size.height
            invariant
                _y <= size.height,
                cells@.len() == _y,
                rows_of(cells@) == blank_rows(_y as nat, size.width as nat),
            decreases size.height - _y,
        {
            let line = Board::get_empty_line(size.width);
            let ghost before = cells@;
            cells.push(line);
            assert forall|k: int| 0 <= k < _y + 1 implies rows_of(cells@)[k] == blank_row(
                size.width as nat,
            ) by {
                if k < _y {
                    assert(cells@[k] == before[k]);
                    assert(rows_of(before)[k] == blank_row(size.width as nat));
                }
            }
            assert(rows_of(cells@) =~= blank_rows((_y + 1) as nat, size.width as nat));
            _y += 1;
        }
        let matrix = Matrix::new(cells);
        Board { matrix }
    }

    fn get_empty_line(width: usize) -> (line: Vec<Option<FigureType>>)
        ensures
            line@ == blank_row(width as nat),
    {
        let mut line: Vec<Option<FigureType>> = Vec::new();
        let mut _x: usize = 0;
        while _x < width
            invariant
                _x <= width,
                line@ == blank_row(_x as nat),
            decreases width - _x,
        {
            line.push(None);
            assert(line@ =~= blank_row((_x + 1) as nat));
            _x += 1;
        }
        line
    }

    pub fn height(&self) -> (h: usize)
        ensures
            h == self@.height(),
    {
        self.matrix.height()
    }

    pub fn width(&self) -> (w: usize)
        ensures
            w == self@.width(),
    {
        self.matrix.width()
    }

    /// The grid of the field.
    pub fn matrix(&self) -> (m: &Matrix<Option<FigureType>>)
        ensures
            m@ == self@.rows,
    {
        &self.matrix
    }

    /// What column `x` of row `y` holds; nothing where the field has no
    /// such cell.
    pub fn figure_at_xy(&self, x: usize, y: usize) -> (content: &Option<FigureType>)
        ensures
            *content == self@.cell(x as int, y as int),
    {
        if let Some(element) = self.matrix.at_xy(x, y) {
            element
        } else {
            &None
        }
    }

    /// A copy of the field in which column `x` of row `y` holds
    /// `figure_type`. Where the field has no such cell, the copy equals the
    /// field.
    pub fn replacing_figure_at_xy(&self, x: usize, y: usize, figure_type: Option<FigureType>) -> (b:
        Board)
        ensures
            b@ == self@.with_cell(x as int, y as int, figure_type),
            b.wf(),
    {
        let matrix = self.matrix.replacing_at_xy(x, y, figure_type);
        Board { matrix }
    }

    /// Whether the point is a filled cell of the field. A point with a
    /// negative coordinate, or beyond the last row or column, is none.
    pub fn contains(&self, point: Point) -> (found: bool)
        ensures
            found == self@.occupied(point),
            point.x < 0 || point.y < 0 ==> !found,
            found ==> 0 <= point.x < self@.width() && 0 <= point.y < self@.height()
                && self@.rows[point.y as int][point.x as int].is_some(),
    {
        if point.x < 0 || point.y < 0 {
            return false;
        }
        self.figure_at_xy(point.x as usize, point.y as usize).is_some()
    }

    /// Row `line`, if there is one.
    pub fn get_line(&self, line: usize) -> (row: Option<&Vec<Option<FigureType>>>)
        ensures
            line < self@.height() ==> row.is_some() && row.unwrap()@ == self@.rows[line as int],
            line >= self@.height() ==> row.is_none(),
    {
        self.matrix.row_at(line)
    }

    /// A copy of the field from which the rows listed in `lines` are taken
    /// out: the rows above each move down, and empty rows fill the top. An
    /// index that names no row, or names one again, changes nothing.
    pub fn removing_lines(&self, lines: &Vec<usize>) -> (b: Board)
        ensures
            b@ == self@.without_rows(lines@),
            b.wf(),
    {
        proof {
            use_type_invariant(self);
        }
        let height: usize = self.height();
        let width: usize = self.width();
        let mut new_board_data: VecDeque<Vec<Option<FigureType>>> = VecDeque::new();
        let mut line_number: usize = 0;
        while line_number < height
            invariant
                self@.wf(),
                height == self@.height(),
                width == self@.width(),
                line_number <= height,
                self@.kept_rows(lines@, line_number as int).len() <= line_number,
                rows_of(new_board_data@) == blank_rows(
                    (line_number - self@.kept_rows(lines@, line_number as int).len()) as nat,
                    width as nat,
                ) + self@.kept_rows(lines@, line_number as int),
            decreases height - line_number,
        {
            let ghost before = rows_of(new_board_data@);
            let ghost kept = self@.kept_rows(lines@, line_number as int);
            let ghost blanks = (line_number - kept.len()) as nat;
            if Board::has_line(lines, line_number) {
                new_board_data.push_front(Board::get_empty_line(self.width()));
                assert(rows_of(new_board_data@) =~= seq![blank_row(width as nat)] + before);
                assert(seq![blank_row(width as nat)] + blank_rows(blanks, width as nat)
                    =~= blank_rows(blanks + 1, width as nat));
                assert(rows_of(new_board_data@) =~= blank_rows(blanks + 1, width as nat) + kept);
            } else {
                if let Some(line) = self.get_line(line_number) {
                    new_board_data.push_back(Board::copy_line(line));
                    assert(rows_of(new_board_data@) =~= before.push(
                        self@.rows[line_number as int],
                    ));
                    assert(rows_of(new_board_data@) =~= blank_rows(blanks, width as nat)
                        + kept.push(self@.rows[line_number as int]));
                }
            }
            line_number += 1;
        }
        let ghost target = self@.without_rows(lines@).rows;
        let mut data: Vec<Vec<Option<FigureType>>> = Vec::new();
        loop
            invariant
                rows_of(data@) + rows_of(new_board_data@) == target,
            ensures
                rows_of(data@) == target,
            decreases new_board_data@.len(),
        {
            let ghost done = rows_of(data@);
            let ghost rest = rows_of(new_board_data@);
            match new_board_data.pop_front() {
                Some(line) => {
                    data.push(line);
                    assert(rows_of(data@) =~= done.push(rest[0]));
                    assert(rows_of(new_board_data@) =~= rest.subrange(1, rest.len() as int));
                    assert(rows_of(data@) + rows_of(new_board_data@) =~= done + rest);
                },
                None => {
                    assert(rows_of(data@) =~= done + rest);
                    break;
                },
            }
        }
        proof {
            self@.lemma_without_rows_keeps_size(lines@);
        }
        Board { matrix: Matrix::new(data) }
    }

    fn has_line(lines: &Vec<usize>, line_number: usize) -> (found: bool)
        ensures
            found == lines@.contains(line_number),
    {
        let mut i: usize = 0;
        while i < lines.len()
            invariant
                i <= lines.len(),
                forall|k: int| 0 <= k < i ==> lines@[k] != line_number,
            decreases lines.len() - i,
        {
            if lines[i] == line_number {
                return true;
            }
            i += 1;
        }
        false
    }

    fn copy_line(line: &Vec<Option<FigureType>>) -> (copy: Vec<Option<FigureType>>)
        ensures
            copy@ == line@,
    {
        let mut copy: Vec<Option<FigureType>> = Vec::new();
        let mut i: usize = 0;
        while i < line.len()
            invariant
                i <= line.len(),
                copy@ == line@.take(i as int),
            decreases line.len() - i,
        {
            copy.push(line[i]);
            assert(copy@ =~= line@.take(i + 1));
            i += 1;
        }
        assert(copy@ =~= line@);
        copy
    }
}

impl Clone for Board {
    /// A field with the same cells.
    fn clone(&self) -> (b: Self)
        ensures
            b@ == self@,
    {
        proof {
            use_type_invariant(self);
        }
        Board { matrix: self.matrix.clone() }
    }
}

} // verus!
