//! A grid of `ROWS` by `COLS` pixels kept row after row in one buffer, as the
//! desktop stand-in for the panel holds it.

use vstd::prelude::*;
use core::marker::PhantomData;
use crate::display::MatrixDisplay;
use crate::display::RGB8;

verus! {

/// Place in the buffer of the cell at `row` and `col`: rows lie one behind the
/// other, so a column past the end of its row is a cell of a later row.
pub open spec fn cell_index(cols: usize, row: usize, col: usize) -> int {
    row * cols + col
}

/// The pixel buffer of a window that shows a display state of type `State`,
/// driven by messages of type `Message`, with each pixel drawn as a square of
/// `pixel_size` points.
pub struct DisplayWindow<State, Message, const ROWS: usize, const COLS: usize> {
    _state: PhantomData<(State, Message)>,
    pixel_size: u32,
    pixel_buffer: Vec<RGB8>,
}

impl<State, Message, const ROWS: usize, const COLS: usize> DisplayWindow<
    State,
    Message,
    ROWS,
    COLS,
> {
    #[verifier::type_invariant]
    spec fn filled(self) -> bool {
        self.pixel_buffer@.len() == ROWS * COLS
    }

    /// The pixels, row after row.
    pub closed spec fn pixels(self) -> Seq<RGB8> {
        self.pixel_buffer@
    }

    /// Side of the square a pixel is drawn as.
    pub closed spec fn scale(self) -> u32 {
        self.pixel_size
    }

    /// A window of dark pixels.
    pub fn new(pixel_size: u32) -> (r: Self)
        requires
            ROWS * COLS <= usize::MAX,
        ensures
            r.scale() == pixel_size,
            r.pixels() == Seq::new((ROWS * COLS) as nat, |i: int| RGB8 { padding: 0, r: 0, g: 0, b: 0 }),
    {
        let count: usize = ROWS * COLS;
        let mut pixel_buffer: Vec<RGB8> = Vec::new();
        while pixel_buffer.len() < count
            invariant
                count == ROWS * COLS,
                pixel_buffer@.len() <= count,
                forall|i: int|
                    0 <= i < pixel_buffer@.len() ==> pixel_buffer@[i] == (RGB8 {
                        padding: 0,
                        r: 0,
                        g: 0,
                        b: 0,
                    }),
            decreases count - pixel_buffer@.len(),
        {
            pixel_buffer.push(RGB8 { padding: 0, r: 0, g: 0, b: 0 });
        }
        assert(pixel_buffer@ =~= Seq::new(
            (ROWS * COLS) as nat,
            |i: int| RGB8 { padding: 0, r: 0, g: 0, b: 0 },
        ));
        Self { _state: PhantomData, pixel_size, pixel_buffer }
    }

    /// Side of the square a pixel is drawn as.
    pub fn pixel_size(&self) -> (r: u32)
        ensures
            r == self.scale(),
    {
        self.pixel_size
    }

    /// Place in the buffer of the cell at `row` and `col`, if the buffer
    /// reaches that far.
    fn index_of(&self, row: usize, col: usize) -> (r: Option<usize>)
        ensures
            self.pixels().len() == ROWS * COLS,
            match r {
                Some(index) => index == cell_index(COLS, row, col) && index < ROWS * COLS,
                None => cell_index(COLS, row, col) >= ROWS * COLS,
            },
    {
        proof {
            use_type_invariant(self);
        }
        let len: usize = self.pixel_buffer.len();
        let start: usize = match row.checked_mul(COLS) {
            Some(start) => start,
            None => {
                return None;
            },
        };
        match start.checked_add(col) {
            Some(index) if index < len => Some(index),
            _ => None,
        }
    }
}

impl<State, Message, const ROWS: usize, const COLS: usize> MatrixDisplay for DisplayWindow<
    State,
    Message,
    ROWS,
    COLS,
> {
    open spec fn has_size(&self, dims: (usize, usize)) -> bool {
        dims == (ROWS, COLS)
    }

    open spec fn shows(&self, row: usize, col: usize, cell: Option<RGB8>) -> bool {
        cell == if cell_index(COLS, row, col) < self.pixels().len() {
            Some(self.pixels()[cell_index(COLS, row, col)])
        } else {
            None
        }
    }

    open spec fn lends(
        before: &Self,
        row: usize,
        col: usize,
        cell: Option<RGB8>,
        after: &Self,
        cell_after: Option<RGB8>,
    ) -> bool {
        &&& before.shows(row, col, cell)
        &&& after.scale() == before.scale()
        &&& match cell_after {
            Some(pixel) => cell is Some && after.pixels() == before.pixels().update(
                cell_index(COLS, row, col),
                pixel,
            ),
            None => cell is None && after.pixels() == before.pixels(),
        }
    }

    fn get_mut(&mut self, row: usize, col: usize) -> (r: Option<&mut RGB8>) {
        match self.index_of(row, col) {
            Some(index) => Some(&mut self.pixel_buffer[index]),
            None => None,
        }
    }

    fn get(&self, row: usize, col: usize) -> (r: Option<&RGB8>) {
        match self.index_of(row, col) {
            Some(index) => Some(&self.pixel_buffer[index]),
            None => None,
        }
    }

    fn size(&self) -> (r: (usize, usize)) {
        (ROWS, COLS)
    }
}

} // verus!
