//! The pixel grid that display states draw on, and the traits that tie a
//! state to its messages and to the grid.
//!
//! The traits are for others to implement. What an implementation promises it
//! says in the spec functions of the trait; left as they are, they promise
//! nothing, and the contracts here then say only what this crate adds.

use vstd::prelude::*;

verus! {

/// One pixel of the grid, laid out as the panel takes it.
#[derive(Debug, Copy, Clone)]
pub struct RGB8 {
    pub padding: u8,
    pub b: u8,
    pub r: u8,
    pub g: u8,
}

impl Default for RGB8 {
    /// A dark pixel.
    fn default() -> (p: Self)
        ensures
            p == (RGB8 { padding: 0, b: 0, r: 0, g: 0 }),
    {
        RGB8 { padding: 0, b: 0, r: 0, g: 0 }
    }
}

/// Coordinate number `index` of a grid of `rows` by `cols` cells walked row
/// by row, or nothing when the walk has fewer cells.
pub open spec fn coord_at(rows: usize, cols: usize, index: usize) -> Option<(usize, usize)> {
    if cols > 0 && index < rows * cols {
        Some(((index / cols) as usize, (index % cols) as usize))
    } else {
        None
    }
}

/// The walk stays inside the grid, and a coordinate tells the place it has in
/// the walk: no two places give the same coordinate.
pub proof fn lemma_walk_stays_in_grid(rows: usize, cols: usize, index: usize)
    ensures
        coord_at(rows, cols, index) matches Some((row, col)) ==> {
            &&& row < rows
            &&& col < cols
            &&& row * cols + col == index
        },
{
    if coord_at(rows, cols, index) is Some {
        let row = index as int / cols as int;
        let col = index as int % cols as int;
        assert(0 <= row < rows && 0 <= col < cols && row * cols + col == index)
            by (nonlinear_arith)
            requires
                cols > 0,
                0 <= index < rows * cols,
                row == index as int / cols as int,
                col == index as int % cols as int,
        ;
    }
}

/// The walk reaches every cell of the grid: the cell at `row` and `col` is
/// found at place `row * cols + col`.
pub proof fn lemma_walk_covers_the_grid(rows: usize, cols: usize, row: usize, col: usize)
    requires
        row < rows,
        col < cols,
        rows * cols <= usize::MAX,
    ensures
        row * cols + col < rows * cols,
        coord_at(rows, cols, (row * cols + col) as usize) == Some((row, col)),
{
    let index = row * cols + col;
    assert(0 <= index < rows * cols && index / cols as int == row && index % cols as int == col)
        by (nonlinear_arith)
        requires
            0 <= row < rows,
            0 <= col < cols,
            index == row * cols + col,
    ;
}

/// How long a state wants its frame shown.
pub trait FrameTime {
    /// `time` is what `frame_time` may report of this state.
    open spec fn reports(&self, time: u64) -> bool {
        true
    }

    fn frame_time(&self) -> (r: u64)
        ensures
            self.reports(r),
    ;
}

/// A display state that takes a message, or none, on every tick and draws
/// itself on the grid.
pub trait Updateable {
    type Message;

    /// One call of `update` with `message` may turn the state `before` into
    /// the state `after`.
    open spec fn updates(before: &Self, message: Option<Self::Message>, after: &Self) -> bool {
        true
    }

    fn update<D: MatrixDisplay>(&mut self, message: Option<Self::Message>, display: &mut D)
        ensures
            Self::updates(old(self), message, final(self)),
    ;
}

/// A grid of pixels, addressed by row and column.
pub trait MatrixDisplay {
    /// `dims`, rows first, is what `size` may report of this grid.
    open spec fn has_size(&self, dims: (usize, usize)) -> bool {
        true
    }

    /// `cell` is what `get` may hand out at `row` and `col`.
    open spec fn shows(&self, row: usize, col: usize, cell: Option<RGB8>) -> bool {
        true
    }

    /// `get_mut` at `row` and `col` on the grid `before` may lend `cell`, and
    /// the grid is `after` once the cell is given back holding `cell_after`.
    open spec fn lends(
        before: &Self,
        row: usize,
        col: usize,
        cell: Option<RGB8>,
        after: &Self,
        cell_after: Option<RGB8>,
    ) -> bool {
        true
    }

    fn get_mut(&mut self, row: usize, col: usize) -> (r: Option<&mut RGB8>)
        ensures
            Self::lends(
                old(self),
                row,
                col,
                match r {
                    Some(cell) => Some(*cell),
                    None => None,
                },
                final(self),
                match r {
                    Some(cell) => Some(*final(cell)),
                    None => None,
                },
            ),
    ;

    fn get(&self, row: usize, col: usize) -> (r: Option<&RGB8>)
        ensures
            self.shows(
                row,
                col,
                match r {
                    Some(pixel) => Some(*pixel),
                    None => None,
                },
            ),
    ;

    fn size(&self) -> (r: (usize, usize))
        ensures
            self.has_size(r),
    ;

    /// Coordinate number `index` of the walk over a grid of `rows` by `cols`
    /// cells, row by row and each row from its first column.
    fn iter_coords_helper(rows: usize, cols: usize, index: usize) -> (r: Option<(usize, usize)>)
        ensures
            r == coord_at(rows, cols, index),
    {
        if cols == 0 {
            return None;
        }
        let row: usize = index / cols;
        assert((row < rows) == (index < rows * cols)) by (nonlinear_arith)
            requires
                cols > 0,
                row == index / cols,
        ;
        if row < rows {
            Some((row, index % cols))
        } else {
            None
        }
    }

    /// Item number `index` of the walk over all cells: the coordinate, and
    /// the cell there as `get_mut` lends it. Nothing once the walk is over,
    /// and the grid is then not touched; nothing as well where `get_mut`
    /// lends nothing.
    fn iter_mut(&mut self, index: usize) -> (r: Option<((usize, usize), &mut RGB8)>)
        ensures
            exists|dims: (usize, usize)|
                {
                    &&& #[trigger] old(self).has_size(dims)
                    &&& match coord_at(dims.0, dims.1, index) {
                        Some(at) => {
                            &&& r matches Some((found, _)) ==> found == at
                            &&& Self::lends(
                                old(self),
                                at.0,
                                at.1,
                                match r {
                                    Some((_, cell)) => Some(*cell),
                                    None => None,
                                },
                                final(self),
                                match r {
                                    Some((_, cell)) => Some(*final(cell)),
                                    None => None,
                                },
                            )
                        },
                        None => r is None && &*final(self) == &*old(self),
                    }
                },
    {
        let (rows, cols) = self.size();
        match Self::iter_coords_helper(rows, cols, index) {
            Some((row, col)) => {
                match self.get_mut(row, col) {
                    Some(cell) => Some(((row, col), cell)),
                    None => None,
                }
            },
            None => None,
        }
    }
}

/// A display state that is one of two kinds.
pub enum EitherState<A, B> {
    First(A),
    Second(B),
}

/// A message for one of the two kinds of an `EitherState`.
pub enum EitherMessage<MA, MB> {
    First(MA),
    Second(MB),
}

impl<A: FrameTime, B: FrameTime> FrameTime for EitherState<A, B> {
    /// What the state that is held may report.
    open spec fn reports(&self, time: u64) -> bool {
        match self {
            EitherState::First(inner) => inner.reports(time),
            EitherState::Second(inner) => inner.reports(time),
        }
    }

    fn frame_time(&self) -> (r: u64) {
        match self {
            EitherState::First(inner) => inner.frame_time(),
            EitherState::Second(inner) => inner.frame_time(),
        }
    }
}

/// The message that reaches a state of the first kind: the payload of a
/// message of the first kind, nothing for no message or one of the other kind.
pub open spec fn first_message<MA, MB>(message: Option<EitherMessage<MA, MB>>) -> Option<MA> {
    match message {
        Some(EitherMessage::First(m)) => Some(m),
        _ => None,
    }
}

/// The message that reaches a state of the second kind.
pub open spec fn second_message<MA, MB>(message: Option<EitherMessage<MA, MB>>) -> Option<MB> {
    match message {
        Some(EitherMessage::Second(m)) => Some(m),
        _ => None,
    }
}

impl<A: Updateable, B: Updateable> Updateable for EitherState<A, B> {
    type Message = EitherMessage<A::Message, B::Message>;

    /// The state keeps its kind and is updated as that kind is, with the
    /// message that is meant for it.
    open spec fn updates(before: &Self, message: Option<Self::Message>, after: &Self) -> bool {
        match (*before, *after) {
            (EitherState::First(a0), EitherState::First(a1)) => A::updates(
                &a0,
                first_message(message),
                &a1,
            ),
            (EitherState::Second(b0), EitherState::Second(b1)) => B::updates(
                &b0,
                second_message(message),
                &b1,
            ),
            _ => false,
        }
    }

    fn update<D: MatrixDisplay>(&mut self, message: Option<Self::Message>, display: &mut D) {
        match self {
            EitherState::First(inner) => {
                let message = match message {
                    Some(EitherMessage::First(m)) => Some(m),
                    _ => None,
                };
                inner.update(message, display);
            },
            EitherState::Second(inner) => {
                let message = match message {
                    Some(EitherMessage::Second(m)) => Some(m),
                    _ => None,
                };
                inner.update(message, display);
            },
        }
    }
}

} // verus!
