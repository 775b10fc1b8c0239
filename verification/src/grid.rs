//! Rectangular grids of samples, stored row by row.

use vstd::prelude::*;

verus! {

/// A colour of three 8-bit channels: red, green and blue.
#[derive(Clone, Copy, Debug, PartialEq, Eq, Structural)]
pub struct Rgb(pub u8, pub u8, pub u8);

/// What a grid is to a proof: its width, its height and its cells row by
/// row, the cell at `(x, y)` at index `y * width + x`.
pub struct GridView<T> {
    pub width: nat,
    pub height: nat,
    pub cells: Seq<T>,
}

impl<T> GridView<T> {
    /// The grid has as many cells as its width and height say.
    pub open spec fn well_formed(self) -> bool {
        self.cells.len() == self.width * self.height
    }

    /// `(x, y)` is a place of the grid.
    pub open spec fn contains(self, x: int, y: int) -> bool {
        0 <= x < self.width && 0 <= y < self.height
    }

    /// The cell at `(x, y)`.
    pub open spec fn at(self, x: int, y: int) -> T {
        self.cells[y * self.width + x]
    }
}

/// The index of the place `(x, y)` in a grid of the given width lies inside
/// the grid's cells, and leads back to `x` and `y`.
pub proof fn lemma_cell_index(width: nat, height: nat, x: int, y: int)
    requires
        0 <= x < width,
        0 <= y < height,
    ensures
        0 <= y * width + x < width * height,
        (y * width + x) % (width as int) == x,
        (y * width + x) / (width as int) == y,
{
    assert(0 <= y * width && y * width + width <= width * height) by (nonlinear_arith)
        requires
            0 <= y < height,
            0 <= width,
    ;
    vstd::arithmetic::div_mod::lemma_fundamental_div_mod_converse(
        y * width + x,
        width as int,
        y,
        x,
    );
}

/// A grid of `width` times `height` cells.
pub struct Grid<T> {
    width: u32,
    height: u32,
    cells: Vec<T>,
}

/// A grid of luminance samples in fixed point: the sample `s` stands for the
/// luminance `s / LUMA_ONE`.
pub type LumaGrid = Grid<u64>;

/// A grid of colours.
pub type PixelGrid = Grid<Rgb>;

impl<T> View for Grid<T> {
    type V = GridView<T>;

    closed spec fn view(&self) -> GridView<T> {
        GridView { width: self.width as nat, height: self.height as nat, cells: self.cells@ }
    }
}

impl<T> Grid<T> {
    #[verifier::type_invariant]
    spec fn inv(&self) -> bool {
        self.cells@.len() == self.width * self.height
    }

    /// A grid of the given width and height over `cells`, which are taken row
    /// by row; `None` if there are not `width * height` of them.
    pub fn new(width: u32, height: u32, cells: Vec<T>) -> (grid: Option<Self>)
        ensures
            cells@.len() == width * height ==> (grid matches Some(g) && g@ == (GridView {
                width: width as nat,
                height: height as nat,
                cells: cells@,
            })),
            cells@.len() != width * height ==> grid is None,
    {
        let count: u64 = cells.len() as u64;
        assert(width * height <= 0xffff_ffff * 0xffff_ffff) by (nonlinear_arith)
            requires
                0 <= width <= 0xffff_ffff,
                0 <= height <= 0xffff_ffff,
        ;
        if count == (width as u64) * (height as u64) {
            Some(Grid { width, height, cells })
        } else {
            None
        }
    }

    /// The number of cells in a row.
    pub fn width(&self) -> (w: u32)
        ensures
            w == self@.width,
    {
        self.width
    }

    /// The number of rows.
    pub fn height(&self) -> (h: u32)
        ensures
            h == self@.height,
    {
        self.height
    }

    /// The cells, row by row.
    pub fn cells(&self) -> (cells: &Vec<T>)
        ensures
            cells@ == self@.cells,
            self@.well_formed(),
    {
        proof {
            use_type_invariant(self);
        }
        &self.cells
    }

    /// The cell at `(x, y)`, or `None` outside the grid.
    pub fn get(&self, x: u32, y: u32) -> (cell: Option<&T>)
        ensures
            self@.contains(x as int, y as int) ==> (cell matches Some(c) && *c == self@.at(
                x as int,
                y as int,
            )),
            !self@.contains(x as int, y as int) ==> cell is None,
    {
        proof {
            use_type_invariant(self);
        }
        if x < self.width && y < self.height {
            let count: usize = self.cells.len();
            proof {
                lemma_cell_index(self.width as nat, self.height as nat, x as int, y as int);
                assert(0 <= y * self.width <= y * self.width + x < count) by {
                    assert(0 <= y * self.width) by (nonlinear_arith)
                        requires
                            0 <= y,
                            0 <= self.width,
                    ;
                }
            }
            let index: usize = (y as usize) * (self.width as usize) + (x as usize);
            Some(&self.cells[index])
        } else {
            None
        }
    }
}

} // verus!
