//! The membership mask: which point lies inside which cuboid.

use vstd::prelude::*;
use crate::error::AugmentError;

verus! {

/// `ndarray::ShapeError`, carried through as it is: why a shape was refused
/// is not looked at.
#[verifier::external_type_specification]
#[verifier::external_body]
pub struct ExShapeError(ndarray::ShapeError);

/// A table of booleans with one row for each cuboid and one column for each
/// point, held in a two-dimensional `ndarray` array. The cell in row `m` and
/// column `i` says whether point `i` lies inside cuboid `m`.
#[verifier::external_body]
pub struct InteriorMask {
    cells: ndarray::Array2<bool>,
}

/// The rows of a mask, first row first.
pub uninterp spec fn mask_cells(mask: InteriorMask) -> Seq<Seq<bool>>;

/// The number of columns of a mask, which it has even where it has no row.
pub uninterp spec fn mask_width(mask: InteriorMask) -> nat;

/// Whether `ndarray` accepts `rows` by `cols` as the shape of an array: the
/// product of the lengths that are not zero must not exceed `isize::MAX`.
pub open spec fn shape_fits(rows: usize, cols: usize) -> bool {
    (if rows == 0 { 1int } else { rows as int }) * (if cols == 0 { 1int } else { cols as int })
        <= isize::MAX as int
}

impl View for InteriorMask {
    type V = Seq<Seq<bool>>;

    open spec fn view(&self) -> Seq<Seq<bool>> {
        mask_cells(*self)
    }
}

impl InteriorMask {
    /// The number of columns.
    pub open spec fn width(&self) -> nat {
        mask_width(*self)
    }

    /// Every row has as many cells as the mask has columns.
    pub open spec fn is_rectangular(&self) -> bool {
        forall|m: int| 0 <= m < self@.len() ==> (#[trigger] self@[m]).len() == self.width()
    }

    /// Calls `Array2::from_shape_vec` with the shape `(rows, cols)`. It
    /// succeeds exactly when the shape is one `ndarray` accepts and `cells`
    /// has one entry for each cell; the array then holds `cells` row by row.
    #[verifier::external_body]
    fn from_shape_vec(
        rows: usize,
        cols: usize,
        cells: Vec<bool>,
    ) -> (made: Result<InteriorMask, ndarray::ShapeError>)
        ensures
            made is Ok <==> (shape_fits(rows, cols) && rows * cols == cells@.len()),
            made is Ok ==> mask_cells(made->Ok_0).len() == rows,
            made is Ok ==> mask_width(made->Ok_0) == cols,
            made is Ok ==> forall|m: int|
                0 <= m < rows ==> #[trigger] mask_cells(made->Ok_0)[m] == cells@.subrange(
                    m * cols,
                    m * cols + cols,
                ),
    {
        ndarray::Array2::from_shape_vec((rows, cols), cells).map(|cells| InteriorMask { cells })
    }

    /// Calls `nrows`: the length of the first axis.
    #[verifier::external_body]
    pub(crate) fn nrows(&self) -> (rows: usize)
        ensures
            rows == mask_cells(*self).len(),
    {
        self.cells.nrows()
    }

    /// Calls `ncols`: the length of the second axis, which is the length of
    /// every row.
    #[verifier::external_body]
    pub(crate) fn ncols(&self) -> (cols: usize)
        ensures
            cols == mask_width(*self),
            forall|m: int|
                0 <= m < mask_cells(*self).len() ==> (#[trigger] mask_cells(*self)[m]).len()
                    == cols,
    {
        self.cells.ncols()
    }

    /// Calls `row` and copies the view out with `to_vec`: the cells of one
    /// row, first column first.
    #[verifier::external_body]
    pub(crate) fn row(&self, index: usize) -> (cells: Vec<bool>)
        requires
            index < mask_cells(*self).len(),
        ensures
            cells@ == mask_cells(*self)[index as int],
    {
        self.cells.row(index).to_vec()
    }

    /// Builds the mask of `rows` cuboids and `cols` points from its cells
    /// listed row by row.
    pub fn new(
        rows: usize,
        cols: usize,
        cells: Vec<bool>,
    ) -> (made: Result<InteriorMask, AugmentError>)
        ensures
            made is Ok <==> shape_fits(rows, cols) && rows * cols == cells@.len(),
            made is Err ==> made == Err::<InteriorMask, AugmentError>(AugmentError::ShapeMismatch),
            made matches Ok(mask) ==> mask@.len() == rows && mask.width() == cols
                && mask.is_rectangular(),
            made matches Ok(mask) ==> forall|m: int, i: int|
                0 <= m < rows && 0 <= i < cols ==> #[trigger] mask@[m][i] == cells@[m * cols + i],
    {
        let ghost listed = cells@;
        match InteriorMask::from_shape_vec(rows, cols, cells) {
            Ok(mask) => {
                proof {
                    assert forall|m: int, i: int|
                        0 <= m < rows && 0 <= i < cols implies #[trigger] mask@[m][i] == listed[m
                        * cols + i] by {
                        lemma_cell_offset(m, i, rows as int, cols as int);
                    }
                    assert forall|m: int| 0 <= m < mask@.len() implies (#[trigger] mask@[m]).len()
                        == mask.width() by {
                        lemma_cell_offset(m, 0, rows as int, cols as int);
                    }
                }
                Ok(mask)
            },
            Err(_) => Err(AugmentError::ShapeMismatch),
        }
    }
}

/// Row `m` of a table with `cols` columns lies wholly inside its `rows * cols`
/// cells.
proof fn lemma_cell_offset(m: int, i: int, rows: int, cols: int)
    requires
        0 <= m < rows,
        0 <= i <= cols,
    ensures
        0 <= m * cols <= m * cols + i <= m * cols + cols <= rows * cols,
{
    assert(0 <= m * cols && m * cols + cols <= rows * cols) by (nonlinear_arith)
        requires
            0 <= m < rows,
            0 <= cols,
    ;
}

} // verus!
