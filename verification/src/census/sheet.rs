//! A worksheet as the census extraction reads it: a rectangle of cells at a
//! position, each holding the plain values that the extraction looks at.
use vstd::prelude::*;

verus! {

/// What the extraction reads of a floating-point cell.
#[derive(Clone, Copy, Debug, PartialEq, Eq)]
pub struct FloatCell {
    /// The value rounded half away from zero and converted (saturating) to `i64`.
    pub rounded: i64,
    /// Whether the sign bit of the value is clear.
    pub sign_positive: bool,
    /// Whether the fractional part of the value is zero.
    pub whole: bool,
    /// The value converted (saturating, truncating toward zero) to `u64`.
    pub as_u64: u64,
}

/// The contents of one worksheet cell.
#[derive(Debug)]
pub enum Cell {
    Int(i64),
    Float(FloatCell),
    String(String),
    /// An empty cell, or one holding a value the extraction never reads
    /// (a boolean, a date, a duration or an error).
    Other,
}

/// The abstract contents of a sheet: `rows` by `width` cells whose top-left
/// cell stands at (`first_row`, `first_col`), listed row by row.
pub struct SheetView {
    pub first_row: nat,
    pub first_col: nat,
    pub width: nat,
    pub cells: Seq<Cell>,
}

impl SheetView {
    pub open spec fn height(self) -> nat {
        if self.width == 0 {
            0
        } else {
            self.cells.len() / self.width
        }
    }

    /// The cell at an absolute position, `None` outside the sheet.
    pub open spec fn cell(self, row: int, col: int) -> Option<Cell> {
        if self.first_row <= row < self.first_row + self.height() && self.first_col <= col
            < self.first_col + self.width {
            Some(self.cells[(row - self.first_row) * self.width + (col - self.first_col)])
        } else {
            None
        }
    }
}

/// A rectangle of cells, stored row by row.
pub struct Sheet {
    first_row: u32,
    first_col: u32,
    width: usize,
    cells: Vec<Cell>,
}

/// Whether `cells.len()` cells make whole rows of `width` cells that fit,
/// from (`first_row`, `first_col`), in the `u32` coordinates of a worksheet.
pub open spec fn sheet_shape_ok(first_row: u32, first_col: u32, width: usize, len: nat) -> bool {
    &&& len == 0 || (width > 0 && len % (width as nat) == 0)
    &&& len > 0 ==> first_col + width <= u32::MAX + 1
    &&& len > 0 ==> first_row + len / (width as nat) <= u32::MAX + 1
}

impl View for Sheet {
    type V = SheetView;

    closed spec fn view(&self) -> SheetView {
        SheetView {
            first_row: self.first_row as nat,
            first_col: self.first_col as nat,
            width: if self.cells@.len() == 0 { 0 } else { self.width as nat },
            cells: self.cells@,
        }
    }
}

impl Sheet {
    #[verifier::type_invariant]
    closed spec fn shape(self) -> bool {
        sheet_shape_ok(self.first_row, self.first_col, self.width, self.cells@.len())
    }

    /// A sheet whose rows of `width` cells, listed one after another in
    /// `cells`, start at (`first_row`, `first_col`); `None` where the cells do
    /// not make whole rows or do not fit in `u32` coordinates.
    pub fn new(first_row: u32, first_col: u32, width: usize, cells: Vec<Cell>) -> (res: Option<
        Sheet,
    >)
        ensures
            res is Some <==> sheet_shape_ok(first_row, first_col, width, cells@.len()),
            res matches Some(s) ==> {
                &&& s@.cells == cells@
                &&& s@.first_row == first_row
                &&& s@.first_col == first_col
                &&& s@.width == if cells@.len() == 0 { 0 } else { width as nat }
            },
    {
        let len = cells.len();
        if len == 0 {
            return Some(Sheet { first_row, first_col, width, cells });
        }
        if width == 0 || len % width != 0 {
            return None;
        }
        let height = len / width;
        if width as u64 > 0x1_0000_0000u64 - first_col as u64 || height as u64 > 0x1_0000_0000u64
            - first_row as u64 {
            return None;
        }
        Some(Sheet { first_row, first_col, width, cells })
    }

    /// The value at an absolute position, `None` outside the sheet, as
    /// `calamine::Range::get_value` gives it.
    pub fn get_value(&self, row: u32, col: u32) -> (res: Option<&Cell>)
        ensures
            match res {
                Some(c) => self@.cell(row as int, col as int) == Some(*c),
                None => self@.cell(row as int, col as int) is None,
            },
    {
        proof {
            use_type_invariant(self);
        }
        let len = self.cells.len();
        if len == 0 {
            return None;
        }
        let height = len / self.width;
        if row < self.first_row || col < self.first_col {
            return None;
        }
        let r = (row - self.first_row) as usize;
        let c = (col - self.first_col) as usize;
        if r >= height || c >= self.width {
            return None;
        }
        proof {
            let w = self.width as int;
            assert(r * w + c < len) by (nonlinear_arith)
                requires
                    r < height,
                    c < w,
                    height == len as int / w,
                    w > 0,
            ;
        }
        Some(&self.cells[r * self.width + c])
    }
}

} // verus!
