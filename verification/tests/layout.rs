use blas_array2::error::{BLASError, BLASErrorKind};
use blas_array2::flags::{BLASDiag, BLASLayout, BLASTranspose, BLASUpLo};
use blas_array2::frame::Frame;
use blas_array2::layout::{classify, elect_layout, is_col_ready, is_col_walkable, is_row_walkable};

#[test]
fn classify_row_vector_is_row_major() {
    assert_eq!(classify((1, 4), (0, 1)), BLASLayout::RowMajor);
}

#[test]
fn classify_column_vector_is_col_major() {
    assert_eq!(classify((4, 1), (1, 0)), BLASLayout::ColMajor);
}

#[test]
fn classify_single_element_is_sequential() {
    assert_eq!(classify((1, 1), (0, 0)), BLASLayout::Sequential);
    assert_eq!(classify((1, 1), (7, -3)), BLASLayout::Sequential);
}

#[test]
fn classify_empty_is_sequential() {
    assert_eq!(classify((0, 5), (5, 1)), BLASLayout::Sequential);
    assert_eq!(classify((5, 0), (10, 2)), BLASLayout::Sequential);
    assert_eq!(classify((0, 0), (0, 0)), BLASLayout::Sequential);
}

#[test]
fn classify_strided_column_is_non_contiguous() {
    assert_eq!(classify((4, 1), (10, 0)), BLASLayout::NonContiguous);
}

#[test]
fn classify_goes_by_strides_in_order() {
    assert_eq!(classify((3, 4), (4, 1)), BLASLayout::RowMajor);
    assert_eq!(classify((3, 4), (1, 3)), BLASLayout::ColMajor);
    assert_eq!(classify((3, 4), (8, 2)), BLASLayout::NonContiguous);
    assert_eq!(classify((3, 4), (-4, 1)), BLASLayout::RowMajor);
    assert_eq!(classify((3, 4), (1, -3)), BLASLayout::ColMajor);
    // Unit stride along both axes: the second axis decides.
    assert_eq!(classify((1, 4), (1, 1)), BLASLayout::RowMajor);
    assert_eq!(classify((4, 1), (1, 1)), BLASLayout::RowMajor);
}

#[test]
fn column_readiness_is_row_readiness_of_the_transpose() {
    assert!(is_col_ready((3, 4), (1, 3)));
    assert!(!is_col_ready((3, 4), (4, 1)));
    assert!(is_col_ready((4, 1), (1, 1)));
    assert!(is_col_ready((1, 1), (9, 9)));
    assert!(is_col_ready((0, 4), (4, 1)));
    assert!(!is_col_ready((3, 4), (8, 2)));
}

#[test]
fn layout_preferences() {
    assert!(BLASLayout::RowMajor.is_cpref());
    assert!(!BLASLayout::RowMajor.is_fpref());
    assert!(BLASLayout::ColMajor.is_fpref());
    assert!(!BLASLayout::ColMajor.is_cpref());
    assert!(BLASLayout::Sequential.is_cpref());
    assert!(BLASLayout::Sequential.is_fpref());
    assert!(!BLASLayout::NonContiguous.is_cpref());
    assert!(!BLASLayout::NonContiguous.is_fpref());
}

#[test]
fn election_follows_the_hint() {
    let all_rows = [BLASLayout::RowMajor, BLASLayout::RowMajor];
    let all_cols = [BLASLayout::ColMajor, BLASLayout::ColMajor];
    assert_eq!(elect_layout(Some(BLASLayout::ColMajor), &all_rows), BLASLayout::ColMajor);
    assert_eq!(elect_layout(Some(BLASLayout::RowMajor), &all_cols), BLASLayout::RowMajor);
}

#[test]
fn election_without_a_hint_is_a_majority_vote() {
    let r = BLASLayout::RowMajor;
    let c = BLASLayout::ColMajor;
    let s = BLASLayout::Sequential;
    let n = BLASLayout::NonContiguous;
    assert_eq!(elect_layout(None, &[c]), c);
    assert_eq!(elect_layout(None, &[r]), r);
    assert_eq!(elect_layout(None, &[c, c, r]), c);
    assert_eq!(elect_layout(None, &[r, c, r]), r);
    assert_eq!(elect_layout(None, &[s, c]), c);
    assert_eq!(elect_layout(None, &[n, n, c]), c);
}

#[test]
fn election_falls_to_row_major_on_a_tie_or_without_votes() {
    let r = BLASLayout::RowMajor;
    let c = BLASLayout::ColMajor;
    assert_eq!(elect_layout(None, &[r, c]), r);
    assert_eq!(elect_layout(None, &[c, r]), r);
    assert_eq!(elect_layout(None, &[]), r);
    assert_eq!(elect_layout(None, &[BLASLayout::Sequential, BLASLayout::NonContiguous]), r);
}

#[test]
fn a_hint_without_an_order_leaves_the_vote_standing() {
    let c = BLASLayout::ColMajor;
    assert_eq!(elect_layout(Some(BLASLayout::Sequential), &[c]), c);
    assert_eq!(elect_layout(Some(BLASLayout::NonContiguous), &[c]), c);
    assert_eq!(elect_layout(Some(BLASLayout::Sequential), &[]), BLASLayout::RowMajor);
}

#[test]
fn transpose_flag_flips() {
    assert_eq!(BLASTranspose::NoTrans.flip(false), BLASTranspose::Trans);
    assert_eq!(BLASTranspose::NoTrans.flip(true), BLASTranspose::ConjTrans);
    assert_eq!(BLASTranspose::Trans.flip(false), BLASTranspose::NoTrans);
    assert_eq!(BLASTranspose::Trans.flip(true), BLASTranspose::NoTrans);
    assert_eq!(BLASTranspose::ConjTrans.flip(false), BLASTranspose::NoTrans);
    assert_eq!(BLASTranspose::ConjTrans.flip(true), BLASTranspose::NoTrans);
}

#[test]
fn triangle_flips() {
    assert_eq!(BLASUpLo::Upper.flip(), BLASUpLo::Lower);
    assert_eq!(BLASUpLo::Lower.flip(), BLASUpLo::Upper);
}

#[test]
fn selector_codes_are_the_kernel_characters() {
    assert_eq!(BLASTranspose::NoTrans.code(), b'N' as libc::c_char);
    assert_eq!(BLASTranspose::Trans.code(), b'T' as libc::c_char);
    assert_eq!(BLASTranspose::ConjTrans.code(), b'C' as libc::c_char);
    assert_eq!(BLASUpLo::Upper.code(), b'U' as libc::c_char);
    assert_eq!(BLASUpLo::Lower.code(), b'L' as libc::c_char);
    assert_eq!(BLASDiag::NonUnit.code(), b'N' as libc::c_char);
    assert_eq!(BLASDiag::Unit.code(), b'U' as libc::c_char);
}

#[test]
fn every_error_has_its_kind_and_its_message() {
    let invalid = [BLASError::Transpose, BLASError::LayoutHint, BLASError::OperandLayout];
    let dims = [BLASError::PackedLength, BLASError::OutputShape];
    let overflow = [
        BLASError::DimN,
        BLASError::DimK,
        BLASError::LeadingDimA,
        BLASError::LeadingDimC,
        BLASError::Increment,
        BLASError::BufferSize,
    ];
    for e in invalid {
        assert_eq!(e.kind(), BLASErrorKind::InvalidParameter);
        assert!(!e.message().is_empty());
    }
    for e in dims {
        assert_eq!(e.kind(), BLASErrorKind::IncompatibleDimensions);
        assert!(!e.message().is_empty());
    }
    for e in overflow {
        assert_eq!(e.kind(), BLASErrorKind::IntegerOverflow);
        assert!(!e.message().is_empty());
    }
    assert_eq!(BLASError::PackedLength.message(), "packed length is not n (n + 1) / 2");
    assert_ne!(BLASError::DimN.message(), BLASError::DimK.message());
}

fn frame(start: usize, shape: (usize, usize), strides: (isize, isize)) -> Frame {
    Frame { start, d0: shape.0, d1: shape.1, s0: strides.0, s1: strides.1 }
}

#[test]
fn a_frame_fits_when_its_corners_do() {
    assert!(frame(0, (2, 3), (3, 1)).check(6));
    assert!(!frame(0, (2, 3), (3, 1)).check(5));
    assert!(!frame(1, (2, 3), (3, 1)).check(6));
    assert!(frame(1, (2, 3), (3, 1)).check(7));
    assert!(frame(0, (2, 3), (1, 2)).check(6));
    assert!(frame(0, (2, 2), (4, 2)).check(7));
    assert!(!frame(0, (2, 2), (4, 2)).check(6));
}

#[test]
fn a_frame_with_negative_steps_fits_from_its_far_end() {
    assert!(frame(5, (2, 3), (-3, -1)).check(6));
    assert!(!frame(4, (2, 3), (-3, -1)).check(6));
    assert!(frame(3, (2, 3), (-3, 1)).check(6));
    assert!(!frame(2, (2, 3), (-3, 1)).check(6));
    assert!(frame(2, (2, 3), (3, -1)).check(6));
}

#[test]
fn an_empty_frame_fits_anywhere() {
    assert!(frame(100, (0, 3), (3, 1)).check(0));
    assert!(frame(100, (3, 0), (isize::MAX, isize::MIN)).check(1));
}

#[test]
fn a_broadcast_frame_fits_a_single_element() {
    assert!(frame(0, (usize::MAX, usize::MAX), (0, 0)).check(1));
    assert!(!frame(0, (usize::MAX, usize::MAX), (0, 0)).check(0));
    assert!(!frame(0, (usize::MAX, 2), (isize::MAX, isize::MAX)).check(usize::MAX));
}

#[test]
fn separation_of_steps() {
    assert!(frame(0, (2, 3), (3, 1)).is_separated());
    assert!(frame(0, (2, 3), (1, 2)).is_separated());
    assert!(frame(0, (2, 3), (-3, 1)).is_separated());
    assert!(!frame(0, (2, 3), (0, 1)).is_separated());
    assert!(!frame(0, (2, 3), (2, 1)).is_separated());
    assert!(!frame(0, (2, 3), (1, 1)).is_separated());
    assert!(frame(0, (1, 3), (0, 1)).is_separated());
    assert!(frame(0, (3, 1), (2, 0)).is_separated());
    assert!(!frame(0, (3, 1), (0, 0)).is_separated());
    assert!(frame(0, (1, 1), (0, 0)).is_separated());
    assert!(frame(0, (0, 9), (0, 0)).is_separated());
}

#[test]
fn standard_order() {
    assert!(frame(0, (2, 3), (3, 1)).is_standard());
    assert!(!frame(0, (2, 3), (4, 1)).is_standard());
    assert!(!frame(0, (2, 3), (1, 2)).is_standard());
    assert!(frame(0, (1, 3), (99, 1)).is_standard());
    assert!(frame(0, (3, 1), (1, 99)).is_standard());
    assert!(!frame(0, (3, 1), (2, 0)).is_standard());
    assert!(frame(0, (0, 3), (7, 7)).is_standard());
    assert!(frame(4, (1, 1), (7, 7)).is_standard());
}

#[test]
fn offsets_are_start_plus_steps() {
    let f = frame(5, (2, 3), (-3, 1));
    assert_eq!(f.index(0, 0, 8), 5);
    assert_eq!(f.index(0, 2, 8), 7);
    assert_eq!(f.index(1, 0, 8), 2);
    assert_eq!(f.index(1, 2, 8), 4);
    assert_eq!(f.swap().index(2, 1, 8), 4);
    assert_eq!(Frame::contiguous(2, 3), frame(0, (2, 3), (3, 1)));
    assert_eq!(Frame::contiguous(0, 3), frame(0, (0, 3), (0, 0)));
    assert_eq!(Frame::contiguous(3, 1), frame(0, (3, 1), (1, 1)));
}

#[test]
fn the_reach_of_a_view() {
    assert_eq!(Frame::reach((2, 3), (3, 1)), Some((0, 6)));
    assert_eq!(Frame::reach((2, 3), (1, 2)), Some((0, 6)));
    assert_eq!(Frame::reach((2, 3), (-3, 1)), Some((3, 6)));
    assert_eq!(Frame::reach((2, 3), (-3, -1)), Some((5, 6)));
    assert_eq!(Frame::reach((2, 3), (8, -2)), Some((4, 13)));
    assert_eq!(Frame::reach((5, 1), (2, 0)), Some((0, 9)));
    assert_eq!(Frame::reach((1, 1), (7, -7)), Some((0, 1)));
    assert_eq!(Frame::reach((9, 9), (0, 0)), Some((0, 1)));
    assert_eq!(Frame::reach((0, 9), (5, 5)), Some((0, 0)));
    assert_eq!(Frame::reach((2, 1), (isize::MAX, 0)), Some((0, 1 << 63)));
    assert_eq!(Frame::reach((3, 1), (isize::MAX, 0)), Some((0, usize::MAX)));
    assert_eq!(Frame::reach((4, 1), (isize::MAX, 0)), None);
    assert_eq!(Frame::reach((3, 3), (isize::MIN, isize::MAX)), None);
    let (below, len) = Frame::reach((2, 3), (-3, 1)).unwrap();
    assert!(frame(below, (2, 3), (-3, 1)).check(len));
    assert!(!frame(below, (2, 3), (-3, 1)).check(len - 1));
}

#[test]
fn what_a_kernel_can_take_has_a_leading_dimension_it_accepts() {
    assert!(is_col_walkable((3, 4), (1, 3)));
    assert!(is_col_walkable((3, 4), (1, 5)));
    assert!(!is_col_walkable((3, 4), (1, 2)));
    assert!(!is_col_walkable((3, 4), (1, 0)));
    assert!(!is_col_walkable((3, 4), (1, -3)));
    assert!(!is_col_walkable((3, 4), (4, 1)));
    assert!(is_col_walkable((3, 1), (1, -9)));
    assert!(!is_col_walkable((1, 4), (7, 1)));
    assert!(is_col_walkable((1, 4), (1, 1)));
    assert!(is_col_walkable((1, 4), (1, 9)));
    assert!(!is_col_walkable((1, 4), (7, 0)));
    assert!(is_col_walkable((1, 1), (0, 0)));
    assert!(is_col_walkable((0, 4), (4, 1)));
    assert!(is_col_walkable((4, 0), (-1, -1)));
    assert!(is_row_walkable((3, 4), (4, 1)));
    assert!(is_row_walkable((3, 4), (6, 1)));
    assert!(!is_row_walkable((3, 4), (3, 1)));
    assert!(!is_row_walkable((3, 4), (1, 3)));
    assert!(is_row_walkable((1, 4), (-9, 1)));
}
