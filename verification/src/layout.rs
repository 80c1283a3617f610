//! Classifying the layout of an operand, and electing one for a whole call.
use crate::flags::BLASLayout;
use vstd::prelude::*;

verus! {

/// The layout that a shape and its strides stand for. An operand without
/// elements, or with a single one, is `Sequential` whatever its strides; of
/// the others one whose second axis has unit stride is `RowMajor`, one whose
/// first axis alone has it is `ColMajor`, and the rest is `NonContiguous`.
pub open spec fn layout_of(shape: (usize, usize), strides: (isize, isize)) -> BLASLayout {
    if shape.0 == 0 || shape.1 == 0 {
        BLASLayout::Sequential
    } else if shape.0 == 1 && shape.1 == 1 {
        BLASLayout::Sequential
    } else if strides.1 == 1 {
        BLASLayout::RowMajor
    } else if strides.0 == 1 {
        BLASLayout::ColMajor
    } else {
        BLASLayout::NonContiguous
    }
}

/// Classifies an operand by its shape and its strides alone.
pub fn classify(shape: (usize, usize), strides: (isize, isize)) -> (r: BLASLayout)
    ensures
        r == layout_of(shape, strides),
{
    if shape.0 == 0 || shape.1 == 0 {
        BLASLayout::Sequential
    } else if shape.0 == 1 && shape.1 == 1 {
        BLASLayout::Sequential
    } else if strides.1 == 1 {
        BLASLayout::RowMajor
    } else if strides.0 == 1 {
        BLASLayout::ColMajor
    } else {
        BLASLayout::NonContiguous
    }
}

/// The operand prefers row-major order, or has no preference: its second
/// axis is the one with unit stride, or it has no more than one element.
pub open spec fn row_ready(shape: (usize, usize), strides: (isize, isize)) -> bool {
    layout_of(shape, strides).cpref()
}

/// The operand is walked column by column with unit stride: its transpose
/// prefers row-major order. Every operand that classifies as `ColMajor` or
/// `Sequential` is of this kind, and so is one with unit stride along both
/// axes.
pub open spec fn col_ready(shape: (usize, usize), strides: (isize, isize)) -> bool {
    row_ready((shape.1, shape.0), (strides.1, strides.0))
}

/// Whether an operand of this shape and these strides is walked column by
/// column with unit stride.
pub fn is_col_ready(shape: (usize, usize), strides: (isize, isize)) -> (r: bool)
    ensures
        r == col_ready(shape, strides),
{
    classify((shape.1, shape.0), (strides.1, strides.0)).is_cpref()
}

/// A column-major kernel can take the operand as it lies: the operand is
/// walked column by column with unit stride, and where it has more than one
/// column, the step from one column to the next is no less than the number
/// of rows, as the kernels demand of a leading dimension. Strides that make
/// columns overlap or run backwards do not pass.
pub open spec fn col_walkable(shape: (usize, usize), strides: (isize, isize)) -> bool {
    col_ready(shape, strides) && (shape.0 == 0 || shape.1 <= 1 || strides.1 >= shape.0)
}

/// A row-major kernel could take the operand as it lies: a column-major
/// kernel can take its transpose.
pub open spec fn row_walkable(shape: (usize, usize), strides: (isize, isize)) -> bool {
    col_walkable((shape.1, shape.0), (strides.1, strides.0))
}

/// Whether a column-major kernel can take an operand of this shape and these
/// strides as it lies.
pub fn is_col_walkable(shape: (usize, usize), strides: (isize, isize)) -> (r: bool)
    ensures
        r == col_walkable(shape, strides),
{
    is_col_ready(shape, strides) && (shape.0 == 0 || shape.1 <= 1 || (strides.1 >= 0
        && strides.1 as usize >= shape.0))
}

/// Whether a row-major kernel could take an operand of this shape and these
/// strides as it lies.
pub fn is_row_walkable(shape: (usize, usize), strides: (isize, isize)) -> (r: bool)
    ensures
        r == row_walkable(shape, strides),
{
    is_col_walkable((shape.1, shape.0), (strides.1, strides.0))
}

/// How many of `layouts` are `tag`.
pub open spec fn votes(layouts: Seq<BLASLayout>, tag: BLASLayout) -> nat
    decreases layouts.len(),
{
    if layouts.len() == 0 {
        0
    } else {
        votes(layouts.drop_last(), tag) + if layouts.last() == tag {
            1nat
        } else {
            0nat
        }
    }
}

/// The layout a call is carried out in. A hint that names an order decides.
/// Without one the operands vote, each `RowMajor` or `ColMajor` operand for
/// its own order; column-major needs a majority, and row-major has every
/// other outcome.
pub open spec fn elected(hint: Option<BLASLayout>, layouts: Seq<BLASLayout>) -> BLASLayout {
    if hint == Some(BLASLayout::RowMajor) {
        BLASLayout::RowMajor
    } else if hint == Some(BLASLayout::ColMajor) {
        BLASLayout::ColMajor
    } else if votes(layouts, BLASLayout::ColMajor) > votes(layouts, BLASLayout::RowMajor) {
        BLASLayout::ColMajor
    } else {
        BLASLayout::RowMajor
    }
}

/// Elects the layout of a call from the caller's hint and the layouts of the
/// operands.
pub fn elect_layout(hint: Option<BLASLayout>, layouts: &[BLASLayout]) -> (r: BLASLayout)
    ensures
        r == elected(hint, layouts@),
        r == BLASLayout::RowMajor || r == BLASLayout::ColMajor,
{
    match hint {
        Some(BLASLayout::RowMajor) => {
            return BLASLayout::RowMajor;
        },
        Some(BLASLayout::ColMajor) => {
            return BLASLayout::ColMajor;
        },
        _ => {},
    }
    let mut rows: usize = 0;
    let mut cols: usize = 0;
    let mut at: usize = 0;
    while at < layouts.len()
        invariant
            at <= layouts@.len(),
            rows == votes(layouts@.take(at as int), BLASLayout::RowMajor),
            cols == votes(layouts@.take(at as int), BLASLayout::ColMajor),
            rows <= at,
            cols <= at,
        decreases layouts@.len() - at,
    {
        proof {
            assert(layouts@.take(at + 1).drop_last() == layouts@.take(at as int));
        }
        match layouts[at] {
            BLASLayout::RowMajor => {
                rows = rows + 1;
            },
            BLASLayout::ColMajor => {
                cols = cols + 1;
            },
            _ => {},
        }
        at = at + 1;
    }
    proof {
        assert(layouts@.take(at as int) == layouts@);
    }
    if cols > rows {
        BLASLayout::ColMajor
    } else {
        BLASLayout::RowMajor
    }
}

} // verus!
