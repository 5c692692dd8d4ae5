use vstd::prelude::*;
use crate::geometry::Point;
use crate::graphics::Color;
use crate::matrix::{
    is_square, lemma_four_turns, lemma_turn_keeps_square, rows_of, turned_clockwise, Matrix,
};

verus! {

/// The seven shapes of four cells.
#[derive(Debug, Clone, Copy, PartialEq, Eq, Structural)]
pub enum FigureType {
    I,
    J,
    L,
    O,
    S,
    T,
    Z,
}

/// The offset by `x` columns and `y` rows.
pub open spec fn offset(x: int, y: int) -> Point {
    Point { x: x as i32, y: y as i32 }
}

/// The offsets to try, in this order, when a piece other than I or O turns:
/// one list for each rotation step that the piece may turn from.
pub open spec fn default_kicks() -> Seq<Seq<Point>> {
    seq![
        seq![offset(0, 0), offset(-1, 0), offset(-1, 1), offset(0, -2), offset(-1, -2)],
        seq![offset(0, 0), offset(1, 0), offset(-1, 1), offset(0, 2), offset(1, 2)],
        seq![offset(0, 0), offset(1, 0), offset(1, 1), offset(0, -2), offset(1, -2)],
        seq![offset(0, 0), offset(-1, 0), offset(-1, -1), offset(0, 2), offset(-1, 2)],
    ]
}

/// The offsets to try, in this order, when the I piece turns: one list for
/// each rotation step that it may turn from.
pub open spec fn i_kicks() -> Seq<Seq<Point>> {
    seq![
        seq![offset(0, 0), offset(-2, 0), offset(1, 0), offset(-2, -1), offset(1, 2)],
        seq![offset(0, 0), offset(-1, 0), offset(2, 0), offset(-1, 2), offset(2, -1)],
        seq![offset(0, 0), offset(2, 0), offset(-1, 0), offset(2, 1), offset(-1, -2)],
        seq![offset(0, 0), offset(1, 0), offset(-2, 0), offset(1, -2), offset(-2, 1)],
    ]
}

impl FigureType {
    /// The colour in which the shape is drawn.
    pub open spec fn palette(self) -> Color {
        match self {
            FigureType::I => Color { red: 108, green: 237, blue: 238, alpha: 255 },
            FigureType::J => Color { red: 0, green: 33, blue: 230, alpha: 255 },
            FigureType::L => Color { red: 229, green: 162, blue: 67, alpha: 255 },
            FigureType::O => Color { red: 241, green: 238, blue: 79, alpha: 255 },
            FigureType::S => Color { red: 221, green: 47, blue: 23, alpha: 255 },
            FigureType::T => Color { red: 146, green: 45, blue: 231, alpha: 255 },
            FigureType::Z => Color { red: 110, green: 235, blue: 71, alpha: 255 },
        }
    }

    /// The shape as it first appears: a square grid in which 1 marks a cell
    /// of the shape and 0 a free one.
    pub open spec fn pattern(self) -> Seq<Seq<u8>> {
        match self {
            FigureType::I => seq![
                seq![0u8, 0u8, 0u8, 0u8],
                seq![1u8, 1u8, 1u8, 1u8],
                seq![0u8, 0u8, 0u8, 0u8],
                seq![0u8, 0u8, 0u8, 0u8],
            ],
            FigureType::J => seq![seq![1u8, 0u8, 0u8], seq![1u8, 1u8, 1u8], seq![0u8, 0u8, 0u8]],
            FigureType::L => seq![seq![0u8, 0u8, 1u8], seq![1u8, 1u8, 1u8], seq![0u8, 0u8, 0u8]],
            FigureType::O => seq![seq![1u8, 1u8], seq![1u8, 1u8]],
            FigureType::S => seq![seq![0u8, 1u8, 1u8], seq![1u8, 1u8, 0u8], seq![0u8, 0u8, 0u8]],
            FigureType::T => seq![seq![0u8, 1u8, 0u8], seq![1u8, 1u8, 1u8], seq![0u8, 0u8, 0u8]],
            FigureType::Z => seq![seq![1u8, 1u8, 0u8], seq![0u8, 1u8, 1u8], seq![0u8, 0u8, 0u8]],
        }
    }

    /// The side of the square grid that holds the shape.
    pub open spec fn side(self) -> nat {
        match self {
            FigureType::I => 4,
            FigureType::O => 2,
            _ => 3,
        }
    }

    /// The shape after `step` quarter turns clockwise, for `step` from 0 to 3.
    pub open spec fn orientation(self, step: nat) -> Seq<Seq<u8>> {
        if step == 1 {
            turned_clockwise(self.pattern())
        } else if step == 2 {
            turned_clockwise(turned_clockwise(self.pattern()))
        } else if step == 3 {
            turned_clockwise(turned_clockwise(turned_clockwise(self.pattern())))
        } else {
            self.pattern()
        }
    }

    /// The offsets to try when the shape turns: for O a single empty list,
    /// for every other shape one list of five for each rotation step.
    pub open spec fn kick_table(self) -> Seq<Seq<Point>> {
        match self {
            FigureType::O => seq![Seq::<Point>::empty()],
            FigureType::I => i_kicks(),
            _ => default_kicks(),
        }
    }

    /// The rotation step that follows `step`: O has one orientation and
    /// stays at 0, every other shape goes round 0, 1, 2, 3.
    pub open spec fn step_after(self, step: nat) -> nat {
        if self == FigureType::O || step >= 3 {
            0
        } else {
            step + 1
        }
    }

    pub fn color(&self) -> (c: Color)
        ensures
            c == self.palette(),
    {
        match self {
            FigureType::I => Color { red: 108, green: 237, blue: 238, alpha: 255 },
            FigureType::J => Color { red: 0, green: 33, blue: 230, alpha: 255 },
            FigureType::L => Color { red: 229, green: 162, blue: 67, alpha: 255 },
            FigureType::O => Color { red: 241, green: 238, blue: 79, alpha: 255 },
            FigureType::S => Color { red: 221, green: 47, blue: 23, alpha: 255 },
            FigureType::T => Color { red: 146, green: 45, blue: 231, alpha: 255 },
            FigureType::Z => Color { red: 110, green: 235, blue: 71, alpha: 255 },
        }
    }

    pub fn initial_matrix(&self) -> (m: Matrix<u8>)
        ensures
            m@ == self.pattern(),
    {
        let vectors = match self {
            FigureType::I => self.draw_i(),
            FigureType::J => self.draw_j(),
            FigureType::L => self.draw_l(),
            FigureType::O => self.draw_o(),
            FigureType::S => self.draw_s(),
            FigureType::T => self.draw_t(),
            FigureType::Z => self.draw_z(),
        };
        proof {
            self.lemma_pattern_is_square();
        }
        Matrix::new(vectors)
    }

    pub fn wall_kick(&self) -> (table: Vec<Vec<Point>>)
        ensures
            rows_of(table@) == self.kick_table(),
    {
        match self {
            FigureType::O => {
                let table: Vec<Vec<Point>> = vec![Vec::new()];
                assert(rows_of(table@) =~= self.kick_table());
                table
            },
            FigureType::I => FigureType::wall_kick_i(),
            _ => FigureType::wall_kick_default(),
        }
    }

    fn draw_i(&self) -> (v: Vec<Vec<u8>>)
        ensures
            rows_of(v@) == FigureType::I.pattern(),
    {
        let v = vec![vec![0, 0, 0, 0], vec![1, 1, 1, 1], vec![0, 0, 0, 0], vec![0, 0, 0, 0]];
        assert(rows_of(v@) =~= FigureType::I.pattern());
        v
    }

    fn draw_j(&self) -> (v: Vec<Vec<u8>>)
        ensures
            rows_of(v@) == FigureType::J.pattern(),
    {
        let v = vec![vec![1, 0, 0], vec![1, 1, 1], vec![0, 0, 0]];
        assert(rows_of(v@) =~= FigureType::J.pattern());
        v
    }

    fn draw_l(&self) -> (v: Vec<Vec<u8>>)
        ensures
            rows_of(v@) == FigureType::L.pattern(),
    {
        let v = vec![vec![0, 0, 1], vec![1, 1, 1], vec![0, 0, 0]];
        assert(rows_of(v@) =~= FigureType::L.pattern());
        v
    }

    fn draw_o(&self) -> (v: Vec<Vec<u8>>)
        ensures
            rows_of(v@) == FigureType::O.pattern(),
    {
        let v = vec![vec![1, 1], vec![1, 1]];
        assert(rows_of(v@) =~= FigureType::O.pattern());
        v
    }

    fn draw_s(&self) -> (v: Vec<Vec<u8>>)
        ensures
            rows_of(v@) == FigureType::S.pattern(),
    {
        let v = vec![vec![0, 1, 1], vec![1, 1, 0], vec![0, 0, 0]];
        assert(rows_of(v@) =~= FigureType::S.pattern());
        v
    }

    fn draw_t(&self) -> (v: Vec<Vec<u8>>)
        ensures
            rows_of(v@) == FigureType::T.pattern(),
    {
        let v = vec![vec![0, 1, 0], vec![1, 1, 1], vec![0, 0, 0]];
        assert(rows_of(v@) =~= FigureType::T.pattern());
        v
    }

    fn draw_z(&self) -> (v: Vec<Vec<u8>>)
        ensures
            rows_of(v@) == FigureType::Z.pattern(),
    {
        let v = vec![vec![1, 1, 0], vec![0, 1, 1], vec![0, 0, 0]];
        assert(rows_of(v@) =~= FigureType::Z.pattern());
        v
    }

    fn wall_kick_default() -> (table: Vec<Vec<Point>>)
        ensures
            rows_of(table@) == default_kicks(),
    {
        let table = vec![
            vec![
                Point { x: 0, y: 0 },
                Point { x: -1, y: 0 },
                Point { x: -1, y: 1 },
                Point { x: 0, y: -2 },
                Point { x: -1, y: -2 },
            ],
            vec![
                Point { x: 0, y: 0 },
                Point { x: 1, y: 0 },
                Point { x: -1, y: 1 },
                Point { x: 0, y: 2 },
                Point { x: 1, y: 2 },
            ],
            vec![
                Point { x: 0, y: 0 },
                Point { x: 1, y: 0 },
                Point { x: 1, y: 1 },
                Point { x: 0, y: -2 },
                Point { x: 1, y: -2 },
            ],
            vec![
                Point { x: 0, y: 0 },
                Point { x: -1, y: 0 },
                Point { x: -1, y: -1 },
                Point { x: 0, y: 2 },
                Point { x: -1, y: 2 },
            ],
        ];
        assert(rows_of(table@) =~= default_kicks());
        table
    }

    fn wall_kick_i() -> (table: Vec<Vec<Point>>)
        ensures
            rows_of(table@) == i_kicks(),
    {
        let table = vec![
            vec![
                Point { x: 0, y: 0 },
                Point { x: -2, y: 0 },
                Point { x: 1, y: 0 },
                Point { x: -2, y: -1 },
                Point { x: 1, y: 2 },
            ],
            vec![
                Point { x: 0, y: 0 },
                Point { x: -1, y: 0 },
                Point { x: 2, y: 0 },
                Point { x: -1, y: 2 },
                Point { x: 2, y: -1 },
            ],
            vec![
                Point { x: 0, y: 0 },
                Point { x: 2, y: 0 },
                Point { x: -1, y: 0 },
                Point { x: 2, y: 1 },
                Point { x: -1, y: -2 },
            ],
            vec![
                Point { x: 0, y: 0 },
                Point { x: 1, y: 0 },
                Point { x: -2, y: 0 },
                Point { x: 1, y: -2 },
                Point { x: -2, y: 1 },
            ],
        ];
        assert(rows_of(table@) =~= i_kicks());
        table
    }

    /// The grid that holds a shape is square, of the shape's side.
    pub proof fn lemma_pattern_is_square(self)
        ensures
            is_square(self.pattern()),
            self.pattern().len() == self.side(),
    {
    }

    /// Each orientation of a shape is a square grid of the shape's side.
    pub proof fn lemma_orientation_is_square(self, step: nat)
        ensures
            is_square(self.orientation(step)),
            self.orientation(step).len() == self.side(),
    {
        self.lemma_pattern_is_square();
        let p0 = self.pattern();
        let p1 = turned_clockwise(p0);
        let p2 = turned_clockwise(p1);
        lemma_turn_keeps_square(p0);
        lemma_turn_keeps_square(p1);
        lemma_turn_keeps_square(p2);
    }

    /// A quarter turn takes the orientation at one rotation step to the
    /// orientation at the next; from step 3 it leads back to the shape as it
    /// first appeared.
    pub proof fn lemma_turn_advances_orientation(self, step: nat)
        requires
            step <= 3,
        ensures
            turned_clockwise(self.orientation(step)) == self.orientation(((step + 1) % 4) as nat),
    {
        if step == 3 {
            self.lemma_pattern_is_square();
            lemma_four_turns(self.pattern());
        }
    }

    /// The square shape looks the same however often it is turned.
    pub proof fn lemma_o_has_one_orientation(step: nat)
        ensures
            FigureType::O.orientation(step) == FigureType::O.pattern(),
    {
        let p = FigureType::O.pattern();
        let q = turned_clockwise(p);
        assert(q =~= p) by {
            assert(q.len() == 2);
            assert(q[0] =~= p[0]);
            assert(q[1] =~= p[1]);
        }
    }
}

} // verus!
