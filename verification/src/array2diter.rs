//! Walking a flat buffer as a grid: each step gives an item, or a position,
//! together with its column and row.

use std::marker::PhantomData;
use std::ops::Range;
use vstd::prelude::*;

verus! {

/// Walks the items of a slice that holds a grid row by row.
pub struct Array2DIterator<'a, T> {
    array: &'a [T],
    width: usize,
    index: usize,
}

impl<'a, T> Array2DIterator<'a, T> {
    /// The slice that is walked.
    pub closed spec fn items(&self) -> Seq<T> {
        self.array@
    }

    /// Number of columns of the grid.
    pub closed spec fn columns(&self) -> int {
        self.width as int
    }

    /// Number of items handed out so far.
    pub closed spec fn position(&self) -> int {
        self.index as int
    }

    /// The walk is within the slice, or at its end.
    pub closed spec fn wf(&self) -> bool {
        self.index <= self.array@.len()
    }

    pub fn new(array: &'a [T], width: usize) -> (it: Array2DIterator<'a, T>)
        ensures
            it.wf(),
            it.items() == array@,
            it.columns() == width,
            it.position() == 0,
    {
        Array2DIterator { array, width, index: 0 }
    }

    /// The next item with its column and row, or `None` at the end of the
    /// slice.
    pub fn next(&mut self) -> (r: Option<(&'a T, usize, usize)>)
        requires
            old(self).wf(),
            old(self).columns() > 0,
        ensures
            final(self).wf(),
            final(self).items() == old(self).items(),
            final(self).columns() == old(self).columns(),
            match r {
                Some((item, x, y)) => {
                    &&& old(self).position() < old(self).items().len()
                    &&& *item == old(self).items()[old(self).position()]
                    &&& x == old(self).position() % old(self).columns()
                    &&& y == old(self).position() / old(self).columns()
                    &&& final(self).position() == old(self).position() + 1
                },
                None => {
                    &&& old(self).position() == old(self).items().len()
                    &&& final(self).position() == old(self).position()
                },
            },
    {
        if self.index >= self.array.len() {
            return None;
        }
        let x = self.index % self.width;
        let y = self.index / self.width;
        let item = &self.array[self.index];

        self.index += 1;

        Some((item, x, y))
    }
}

/// Walks the positions of a range that stands for a grid row by row. Only
/// whole rows are walked: what is left of the range after the last whole row
/// is not visited.
pub struct Array2DRangeIterator<T> {
    range: Range<usize>,
    width: usize,
    x: usize,
    y: usize,
    _marker: PhantomData<T>,
}

impl<T> Array2DRangeIterator<T> {
    /// First position of the range.
    pub closed spec fn start(&self) -> int {
        self.range.start as int
    }

    /// Number of positions in the range; none where it ends before it starts.
    pub closed spec fn length(&self) -> int {
        if self.range.end >= self.range.start {
            self.range.end - self.range.start
        } else {
            0
        }
    }

    /// Number of columns of the grid.
    pub closed spec fn columns(&self) -> int {
        self.width as int
    }

    /// Column of the position that comes next.
    pub closed spec fn column(&self) -> int {
        self.x as int
    }

    /// Row of the position that comes next.
    pub closed spec fn row(&self) -> int {
        self.y as int
    }

    /// Number of whole rows in the range.
    pub open spec fn rows(&self) -> int {
        self.length() / self.columns()
    }

    /// Number of positions handed out so far.
    pub open spec fn position(&self) -> int {
        self.row() * self.columns() + self.column()
    }

    /// The grid has columns, and the next position lies in one of them.
    pub open spec fn wf(&self) -> bool {
        0 <= self.column() < self.columns() && 0 <= self.row() && 0 <= self.start()
            && 0 <= self.length()
    }

    pub fn new(range: Range<usize>, width: usize) -> (it: Array2DRangeIterator<T>)
        ensures
            it.start() == range.start,
            it.length() == if range.end >= range.start {
                range.end - range.start
            } else {
                0
            },
            it.columns() == width,
            it.column() == 0,
            it.row() == 0,
            width > 0 ==> it.wf(),
    {
        Array2DRangeIterator { range, width, x: 0, y: 0, _marker: PhantomData }
    }

    /// The next position with its column and row, or `None` after the last
    /// whole row.
    pub fn next(&mut self) -> (r: Option<(usize, usize, usize)>)
        requires
            old(self).wf(),
        ensures
            final(self).wf(),
            final(self).start() == old(self).start(),
            final(self).length() == old(self).length(),
            final(self).columns() == old(self).columns(),
            match r {
                Some((index, x, y)) => {
                    &&& old(self).row() < old(self).rows()
                    &&& x == old(self).column()
                    &&& y == old(self).row()
                    &&& index == old(self).start() + old(self).position()
                    &&& final(self).position() == old(self).position() + 1
                    &&& old(self).position() < old(self).rows() * old(self).columns()
                },
                None => {
                    &&& old(self).row() >= old(self).rows()
                    &&& final(self).column() == old(self).column()
                    &&& final(self).row() == old(self).row()
                },
            },
    {
        let len = if self.range.end >= self.range.start {
            self.range.end - self.range.start
        } else {
            0
        };
        if self.y >= len / self.width {
            return None;
        }
        proof {
            lemma_cell_in_rows(self.x as int, self.y as int, self.width as int, len as int);
        }
        let index = self.y * self.width + self.x;

        let current_x = self.x;
        let current_y = self.y;

        self.x += 1;
        if self.x >= self.width {
            self.x = 0;
            self.y += 1;
            assert((current_y + 1) * self.width == current_y * self.width + self.width)
                by (nonlinear_arith);
        }
        Some((self.range.start + index, current_x, current_y))
    }
}

/// A cell of a whole row lies within the range: row `y` of `len / width` rows
/// and column `x` of `width` give a position below `len`.
pub proof fn lemma_cell_in_rows(x: int, y: int, width: int, len: int)
    by (nonlinear_arith)
    requires
        0 <= x < width,
        0 <= y < len / width,
        0 <= len,
    ensures
        0 <= y * width,
        y * width + x < (len / width) * width,
        (len / width) * width <= len,
{
    assert((y + 1) * width <= (len / width) * width);
    assert((y + 1) * width == y * width + width);
}

/// The position of a cell gives its column and row back.
pub proof fn lemma_position_of_cell(x: int, y: int, width: int)
    requires
        0 <= x < width,
        0 <= y,
    ensures
        (y * width + x) % width == x,
        (y * width + x) / width == y,
{
    vstd::arithmetic::div_mod::lemma_fundamental_div_mod_converse(y * width + x, width, y, x);
}

} // verus!
