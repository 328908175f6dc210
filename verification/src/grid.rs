//! The character grid: a fixed-size rectangle of density characters stored in
//! row-major order, and the builder that quantizes luminance samples into it.

use vstd::prelude::*;
use crate::quantize::quantize;
use crate::quantize::quantize_spec;

verus! {

/// A rectangular character grid, row-major: cell `(x, y)` lives at index
/// `y * width + x`.
pub struct CharGrid {
    pub cells: Vec<char>,
    pub width: usize,
    pub height: usize,
}

/// The all-blank cell sequence of length `n`.
pub open spec fn blank_cells(n: nat) -> Seq<char> {
    Seq::new(n, |i: int| ' ')
}

impl CharGrid {
    /// Well-formed: the cell store holds exactly `width * height` characters
    /// and both sides are positive and within the pipeline's size cap.
    pub open spec fn wf(self) -> bool {
        &&& self.cells@.len() == self.width * self.height
        &&& 1 <= self.width <= 1024
        &&& 1 <= self.height <= 1024
    }

    /// The character at column `x`, row `y`.
    pub open spec fn at(self, x: int, y: int) -> char {
        self.cells@[y * self.width + x]
    }

    /// A fresh grid fully initialized to the blank marker.
    pub fn blank(width: usize, height: usize) -> (g: CharGrid)
        requires
            1 <= width <= 1024,
            1 <= height <= 1024,
        ensures
            g.wf(),
            g.width == width,
            g.height == height,
            g.cells@ == blank_cells((width * height) as nat),
    {
        proof {
            lemma_grid_area_bound(width as int, height as int);
        }
        let n: usize = width * height;
        let mut cells: Vec<char> = Vec::new();
        let mut i: usize = 0;
        while i < n
            invariant
                i <= n,
                cells@.len() == i,
                forall|k: int| 0 <= k < i ==> cells@[k] == ' ',
            decreases n - i,
        {
            cells.push(' ');
            i = i + 1;
        }
        let g = CharGrid { cells, width, height };
        proof {
            assert(g.cells@ =~= blank_cells((width * height) as nat));
        }
        g
    }

    /// Read one cell.
    pub fn get(&self, x: usize, y: usize) -> (c: char)
        requires
            self.wf(),
            x < self.width,
            y < self.height,
        ensures
            c == self.at(x as int, y as int),
    {
        proof {
            lemma_row_major_index(x as int, y as int, self.width as int, self.height as int);
            lemma_grid_area_bound(self.width as int, self.height as int);
        }
        let idx: usize = y * self.width + x;
        self.cells[idx]
    }

    /// One row of the grid, top row first, for the display sink.
    pub fn row_chars(&self, y: usize) -> (r: Vec<char>)
        requires
            self.wf(),
            y < self.height,
        ensures
            r@.len() == self.width,
            forall|i: int| 0 <= i < self.width ==> r@[i] == self.at(i, y as int),
    {
        let mut r: Vec<char> = Vec::new();
        let mut x: usize = 0;
        while x < self.width
            invariant
                self.wf(),
                y < self.height,
                x <= self.width,
                r@.len() == x,
                forall|i: int| 0 <= i < x ==> r@[i] == self.at(i, y as int),
            decreases self.width - x,
        {
            let c = self.get(x, y);
            r.push(c);
            x = x + 1;
        }
        r
    }
}

/// A cell inside the rectangle has a row-major index inside the store.
pub proof fn lemma_row_major_index(x: int, y: int, w: int, h: int)
    by (nonlinear_arith)
    requires
        0 <= x < w,
        0 <= y < h,
    ensures
        0 <= y * w + x < w * h,
{
}

/// The area of a capped grid stays small.
pub proof fn lemma_grid_area_bound(w: int, h: int)
    by (nonlinear_arith)
    requires
        0 <= w <= 1024,
        0 <= h <= 1024,
    ensures
        0 <= w * h <= 0x100000,
{
}

/// Build the character grid from `width * height` luminance samples given in
/// row-major order: every cell is the quantized sample at its position.
pub fn build_grid(samples: &Vec<u8>, width: usize, height: usize) -> (g: CharGrid)
    requires
        samples@.len() == width * height,
        1 <= width <= 1024,
        1 <= height <= 1024,
    ensures
        g.wf(),
        g.width == width,
        g.height == height,
        forall|k: int| 0 <= k < width * height ==> g.cells@[k] == quantize_spec(samples@[k] as int),
{
    let n: usize = samples.len();
    let mut cells: Vec<char> = Vec::new();
    let mut i: usize = 0;
    while i < n
        invariant
            i <= n,
            n == samples@.len(),
            cells@.len() == i,
            forall|k: int| 0 <= k < i ==> cells@[k] == quantize_spec(samples@[k] as int),
        decreases n - i,
    {
        let c = quantize(samples[i]);
        cells.push(c);
        i = i + 1;
    }
    CharGrid { cells, width, height }
}

} // verus!
