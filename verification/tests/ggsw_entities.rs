use glwe_tensor::as_tensor::{AsRefTensor, IntoTensor};
use glwe_tensor::ggsw::{GgswLevelMatrix, GgswLevelRow};
use glwe_tensor::parameters::{DecompositionLevel, GlweSize, PolynomialSize};

#[test]
fn matrix_shape_accessors() {
    let level_matrix = GgswLevelMatrix::from_container(
        vec![0u8; 10 * 7 * 7],
        PolynomialSize(10),
        GlweSize(7),
        DecompositionLevel(1),
    );
    assert_eq!(level_matrix.polynomial_size(), PolynomialSize(10));
    assert_eq!(level_matrix.glwe_size(), GlweSize(7));
    assert_eq!(level_matrix.decomposition_level(), DecompositionLevel(1));
}

#[test]
fn matrix_row_iteration() {
    let level_matrix = GgswLevelMatrix::from_container(
        vec![0u8; 10 * 7 * 7],
        PolynomialSize(10),
        GlweSize(7),
        DecompositionLevel(1),
    );
    let rows = level_matrix.row_iter();
    assert_eq!(rows.len(), 7);
    for row in &rows {
        assert_eq!(row.glwe_size(), GlweSize(7));
        assert_eq!(row.polynomial_size(), PolynomialSize(10));
        assert_eq!(row.decomposition_level(), DecompositionLevel(1));
    }
}

#[test]
fn matrix_sequential_row_fill() {
    let matrix = GgswLevelMatrix::from_container(
        vec![0u8; 10 * 7 * 7],
        PolynomialSize(10),
        GlweSize(7),
        DecompositionLevel(1),
    );
    let mut rows = matrix.row_iter_mut();
    assert_eq!(rows.len(), 7);
    for row in rows.iter_mut() {
        row.fill_with_element(9);
    }
    let matrix = GgswLevelMatrix::from_rows(
        rows,
        PolynomialSize(10),
        GlweSize(7),
        DecompositionLevel(1),
    );
    let raw = matrix.into_tensor().into_container();
    assert_eq!(raw.len(), 10 * 7 * 7);
    assert!(raw.iter().all(|a| *a == 9));
}

#[test]
fn matrix_parallel_row_fill_matches_sequential() {
    let mut par_matrix = GgswLevelMatrix::from_container(
        vec![0u8; 10 * 7 * 7],
        PolynomialSize(10),
        GlweSize(7),
        DecompositionLevel(1),
    );
    par_matrix.par_fill_rows(9);
    let par_raw = par_matrix.into_tensor().into_container();
    assert!(par_raw.iter().all(|a| *a == 9));

    let seq_matrix = GgswLevelMatrix::from_container(
        vec![0u8; 10 * 7 * 7],
        PolynomialSize(10),
        GlweSize(7),
        DecompositionLevel(1),
    );
    let mut rows = seq_matrix.row_iter_mut();
    for row in rows.iter_mut() {
        row.fill_with_element(9);
    }
    let seq_raw = GgswLevelMatrix::from_rows(
        rows,
        PolynomialSize(10),
        GlweSize(7),
        DecompositionLevel(1),
    )
    .into_tensor()
    .into_container();
    assert_eq!(par_raw, seq_raw);
}

#[test]
fn matrix_rejects_fractional_row() {
    let r = GgswLevelMatrix::checked_from_container(
        vec![0u8; 10 * 7 * 7 - 1],
        PolynomialSize(10),
        GlweSize(7),
        DecompositionLevel(1),
    );
    assert!(r.is_none());
}

#[test]
fn row_shape_accessors() {
    let level_row = GgswLevelRow::from_container(
        vec![0u8; 10 * 7],
        PolynomialSize(10),
        DecompositionLevel(1),
    );
    assert_eq!(level_row.polynomial_size(), PolynomialSize(10));
    assert_eq!(level_row.glwe_size(), GlweSize(7));
    assert_eq!(level_row.decomposition_level(), DecompositionLevel(1));
}

#[test]
fn row_rejects_fractional_polynomial() {
    let r = GgswLevelRow::checked_from_container(
        vec![0u8; 10 * 7 + 3],
        PolynomialSize(10),
        DecompositionLevel(1),
    );
    assert!(r.is_none());
}

#[test]
fn row_into_glwe_preserves_shape_and_content() {
    let data: Vec<u8> = (0..70).collect();
    let level_row = GgswLevelRow::from_container(
        data.clone(),
        PolynomialSize(10),
        DecompositionLevel(1),
    );
    let row_len = level_row.as_tensor().len();
    let glwe = level_row.into_glwe();
    assert_eq!(glwe.polynomial_size(), PolynomialSize(10));
    assert_eq!(glwe.size(), GlweSize(7));
    assert_eq!(glwe.as_tensor().len(), row_len);
    assert_eq!(glwe.into_container(), data);
}
