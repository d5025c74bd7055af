use ray_tracer::matrix::{cofactor_sign, submatrix_index};
use ray_tracer::matrix2::Matrix2;
use ray_tracer::matrix3::Matrix3;
use ray_tracer::matrix4::Matrix4;
use ray_tracer::scalar::ordered_key;

fn key(t: f64) -> i64 {
    ordered_key(t.to_bits())
}

fn keys4(rows: [[f64; 4]; 4]) -> Matrix4<i64> {
    let mut m = Matrix4::zeroes(0);
    for r in 0..4 {
        for c in 0..4 {
            m.set(r, c, key(rows[r][c]));
        }
    }
    m
}

fn approx_equal(a: f64, b: f64) -> bool {
    (a - b).abs() < 1e-5
}

fn rows4(rows: [[i32; 4]; 4]) -> Matrix4<f64> {
    let mut m = Matrix4::zeroes(0.);
    for r in 0..4 {
        for c in 0..4 {
            m.set(r, c, rows[r][c] as f64);
        }
    }
    m
}

fn rows3(rows: [[i32; 3]; 3]) -> Matrix3<f64> {
    let mut m = Matrix3::zeroes(0.);
    for r in 0..3 {
        for c in 0..3 {
            m.set(r, c, rows[r][c] as f64);
        }
    }
    m
}

#[test]
fn matrix4_constructing_and_inspecting_a_4x4_matrix() {
    let m = Matrix4::from_rows([
        [1., 2., 3., 4.],
        [5.5, 6.5, 7.5, 8.5],
        [9., 10., 11., 12.],
        [13.5, 14.5, 15.5, 16.5],
    ]);

    assert!(approx_equal(m.get(0, 0), 1.));
    assert!(approx_equal(m.get(0, 3), 4.));
    assert!(approx_equal(m.get(1, 0), 5.5));
    assert!(approx_equal(m.get(1, 2), 7.5));
    assert!(approx_equal(m.get(2, 2), 11.));
    assert!(approx_equal(m.get(3, 0), 13.5));
    assert!(approx_equal(m.get(3, 2), 15.5));
}

#[test]
fn matrix_equality_with_identical_matrices() {
    let a = rows4([[1, 2, 3, 4], [5, 6, 7, 8], [9, 8, 7, 6], [5, 4, 3, 2]]);
    let b = rows4([[1, 2, 3, 4], [5, 6, 7, 8], [9, 8, 7, 6], [5, 4, 3, 2]]);

    assert_eq!(a, b);
}

#[test]
fn matrix_equality_with_different_matrices() {
    let a = rows4([[1, 2, 3, 4], [5, 6, 7, 8], [9, 8, 7, 6], [5, 4, 3, 2]]);
    let b = rows4([[2, 3, 4, 5], [6, 7, 8, 9], [8, 7, 6, 5], [4, 3, 2, 1]]);

    assert_ne!(a, b);
}

#[test]
fn matrix4_transposing_a_matrix() {
    let a = rows4([[0, 9, 3, 0], [9, 8, 0, 8], [1, 8, 5, 3], [0, 0, 5, 8]]);
    let expected_transpose = rows4([[0, 9, 1, 0], [9, 8, 8, 0], [3, 0, 5, 5], [0, 8, 3, 8]]);

    assert_eq!(a.transpose(), expected_transpose);
}

#[test]
fn matrix4_transposing_the_identity_matrix() {
    let id4 = Matrix4::identity(0., 1.);

    assert_eq!(id4, id4.transpose())
}

#[test]
fn matrix4_a_submatrix_of_a_4x4_matrix_is_a_3x3_matrix() {
    let a = rows4([[-6, 1, 1, 6], [-8, 5, 8, 6], [-1, 0, 8, 2], [-7, 1, -1, 1]]);
    let submatrix = Matrix3::from_rows([[-6., 1., 6.], [-8., 8., 6.], [-7., -1., 1.]]);

    assert_eq!(a.submatrix(2, 1), submatrix);
}

#[test]
fn matrix3_a_3x3_matrix_ought_to_be_representable() {
    let m = rows3([[-3, 5, 0], [1, -2, -7], [0, 1, 1]]);

    assert!(approx_equal(m.get(0, 0), -3.));
    assert!(approx_equal(m.get(1, 1), -2.));
    assert!(approx_equal(m.get(2, 2), 1.));
}

#[test]
fn matrix3_identity_works_in_3x3_matrices() {
    let id3 = Matrix3::identity(0., 1.);

    assert_eq!(id3, Matrix3::from_rows([[1., 0., 0.], [0., 1., 0.], [0., 0., 1.]]));
}

#[test]
fn matrix3_a_submatrix_of_a_3x3_matrix_is_a_2x2_matrix() {
    let a = rows3([[1, 5, 0], [-3, 2, 7], [0, 6, -3]]);

    assert_eq!(a.submatrix(0, 2), Matrix2::from_rows([[-3., 2.], [0., 6.]]));
}

#[test]
fn matrix2_a_2x2_matrix_ought_to_be_representable() {
    let m = Matrix2::from_rows([[-3., 5.], [1., -2.]]);

    assert!(approx_equal(m.get(0, 0), -3.));
    assert!(approx_equal(m.get(0, 1), 5.));
    assert!(approx_equal(m.get(1, 0), 1.));
    assert!(approx_equal(m.get(1, 1), -2.));
}

#[test]
fn matrix2_identity_works_in_2x2_matrices() {
    let id2 = Matrix2::identity(0., 1.);

    assert_eq!(id2, Matrix2::from_rows([[1., 0.], [0., 1.]]));
}

#[test]
fn identity_of_four_rows_has_ones_on_the_diagonal_only() {
    let id4 = Matrix4::identity(0, 1);

    assert_eq!(
        id4,
        Matrix4::from_rows([[1, 0, 0, 0], [0, 1, 0, 0], [0, 0, 1, 0], [0, 0, 0, 1]])
    );
}

#[test]
fn transposing_twice_gives_the_matrix_back() {
    let a = rows4([[0, 9, 3, 0], [9, 8, 0, 8], [1, 8, 5, 3], [0, 0, 5, 8]]);

    assert_eq!(a.transpose().transpose(), a);
    let b = rows3([[1, 5, 0], [-3, 2, 7], [0, 6, -3]]);
    assert_eq!(b.transpose().transpose(), b);
    assert_eq!(b.transpose(), rows3([[1, -3, 0], [5, 2, 6], [0, 7, -3]]));
    let c = Matrix2::from_rows([[1, 2], [3, 4]]);
    assert_eq!(c.transpose(), Matrix2::from_rows([[1, 3], [2, 4]]));
}

#[test]
fn set_changes_one_entry_only() {
    let mut m = Matrix3::zeroes(0u8);
    m.set(1, 2, 7);

    assert_eq!(m, Matrix3::from_rows([[0, 0, 0], [0, 0, 7], [0, 0, 0]]));
}

#[test]
fn deleting_the_first_and_the_last_line_of_a_submatrix() {
    let a = Matrix4::from_rows([[1, 2, 3, 4], [5, 6, 7, 8], [9, 10, 11, 12], [13, 14, 15, 16]]);

    assert_eq!(a.submatrix(0, 0), Matrix3::from_rows([[6, 7, 8], [10, 11, 12], [14, 15, 16]]));
    assert_eq!(a.submatrix(3, 3), Matrix3::from_rows([[1, 2, 3], [5, 6, 7], [9, 10, 11]]));
    assert_eq!(a.submatrix(0, 3), Matrix3::from_rows([[5, 6, 7], [9, 10, 11], [13, 14, 15]]));
}

#[test]
fn the_place_of_an_entry_in_a_submatrix() {
    assert_eq!(submatrix_index(0, 0, 2, 1), Some((0, 0)));
    assert_eq!(submatrix_index(3, 3, 2, 1), Some((2, 2)));
    assert_eq!(submatrix_index(3, 0, 2, 1), Some((2, 0)));
    assert_eq!(submatrix_index(1, 2, 2, 1), Some((1, 1)));
    assert_eq!(submatrix_index(2, 0, 2, 1), None);
    assert_eq!(submatrix_index(0, 1, 2, 1), None);
    assert_eq!(submatrix_index(2, 1, 2, 1), None);
}

#[test]
fn the_sign_of_a_cofactor_alternates() {
    assert_eq!(cofactor_sign(0, 0), 1);
    assert_eq!(cofactor_sign(0, 1), -1);
    assert_eq!(cofactor_sign(1, 0), -1);
    assert_eq!(cofactor_sign(1, 1), 1);
    assert_eq!(cofactor_sign(2, 3), -1);
    assert_eq!(cofactor_sign(3, 3), 1);
}

#[test]
fn matrix_constructing_and_inspecting_a_4x4_matrix() {
    let m = Matrix4::from_rows([
        [1., 2., 3., 4.],
        [5.5, 6.5, 7.5, 8.5],
        [9., 10., 11., 12.],
        [13.5, 14.5, 15.5, 16.5],
    ]);

    assert!(approx_equal(m.get(0, 0), 1.));
    assert!(approx_equal(m.get(0, 3), 4.));
    assert!(approx_equal(m.get(1, 0), 5.5));
    assert!(approx_equal(m.get(1, 2), 7.5));
    assert!(approx_equal(m.get(2, 2), 11.));
    assert!(approx_equal(m.get(3, 0), 13.5));
    assert!(approx_equal(m.get(3, 2), 15.5));
}

#[test]
fn matrix_a_2x2_matrix_ought_to_be_representable() {
    let m = Matrix2::from_rows([[-3., 5.], [1., -2.]]);

    assert!(approx_equal(m.get(0, 0), -3.));
    assert!(approx_equal(m.get(0, 1), 5.));
    assert!(approx_equal(m.get(1, 0), 1.));
    assert!(approx_equal(m.get(1, 1), -2.));
}

#[test]
fn matrix_a_3x3_matrix_ought_to_be_representable() {
    let m = Matrix3::from_rows([[-3., 5., 0.], [1., -2., -7.], [0., 1., 1.]]);

    assert!(approx_equal(m.get(0, 0), -3.));
    assert!(approx_equal(m.get(1, 1), -2.));
    assert!(approx_equal(m.get(2, 2), 1.));
}

#[test]
fn matrix_identity_works_in_2x2_matrices() {
    let id2 = Matrix2::identity(0., 1.);

    assert_eq!(id2, Matrix2::from_rows([[1., 0.], [0., 1.]]));
}

#[test]
fn matrix_identity_works_in_3x3_matrices() {
    let id3 = Matrix3::identity(0., 1.);

    assert_eq!(id3, Matrix3::from_rows([[1., 0., 0.], [0., 1., 0.], [0., 0., 1.]]));
}

#[test]
fn matrix_transposing_a_matrix() {
    let a = rows4([[0, 9, 3, 0], [9, 8, 0, 8], [1, 8, 5, 3], [0, 0, 5, 8]]);
    let expected_transpose = rows4([[0, 9, 1, 0], [9, 8, 8, 0], [3, 0, 5, 5], [0, 8, 3, 8]]);

    assert_eq!(a.transpose(), expected_transpose);
}

#[test]
fn matrix_transposing_the_identity_matrix() {
    let id4 = Matrix4::identity(0., 1.);

    assert_eq!(id4, id4.transpose())
}

#[test]
fn matrix_a_submatrix_of_a_3x3_matrix_is_a_2x2_matrix() {
    let a = rows3([[1, 5, 0], [-3, 2, 7], [0, 6, -3]]);

    assert_eq!(a.submatrix(0, 2), Matrix2::from_rows([[-3., 2.], [0., 6.]]));
}

#[test]
fn matrix_a_submatrix_of_a_4x4_matrix_is_a_3x3_matrix() {
    let a = rows4([[-6, 1, 1, 6], [-8, 5, 8, 6], [-1, 0, 8, 2], [-7, 1, -1, 1]]);
    let submatrix = rows3([[-6, 1, 6], [-8, 8, 6], [-7, -1, 1]]);

    assert_eq!(a.submatrix(2, 1), submatrix);
}

#[test]
fn the_entries_of_a_translation_a_scaling_and_a_shearing() {
    assert_eq!(
        Matrix4::translation(key(5.), key(-3.), key(2.)),
        keys4([[1., 0., 0., 5.], [0., 1., 0., -3.], [0., 0., 1., 2.], [0., 0., 0., 1.]])
    );
    assert_eq!(
        Matrix4::scaling(key(2.), key(3.), key(-4.)),
        keys4([[2., 0., 0., 0.], [0., 3., 0., 0.], [0., 0., -4., 0.], [0., 0., 0., 1.]])
    );
    assert_eq!(
        Matrix4::shearing(key(1.), key(2.), key(3.), key(4.), key(5.), key(6.)),
        keys4([[1., 1., 2., 0.], [3., 1., 4., 0.], [5., 6., 1., 0.], [0., 0., 0., 1.]])
    );
    assert_eq!(Matrix4::translation(key(0.), key(0.), key(0.)), Matrix4::identity(key(0.), key(1.)));
    assert_eq!(Matrix4::scaling(key(1.), key(1.), key(1.)), Matrix4::identity(key(0.), key(1.)));
}
