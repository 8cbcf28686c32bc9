use matrix::element::Element;
use matrix::matrix::{sq_matrix, Matrix};
use matrix::utils::get_integral_square_root;

#[test]
fn new_is_zero_filled() {
    let mat = Matrix::<i64>::new(3, 4);
    assert_eq!(mat.rows, 3);
    assert_eq!(mat.cols, 4);
    for i in 0..3 {
        for j in 0..4 {
            assert_eq!(mat.at(i, j), 0);
        }
    }
}

#[test]
fn new_empty_shapes() {
    let a = Matrix::<i64>::new(0, 0);
    assert_eq!(a.rows, 0);
    assert_eq!(a.cols, 0);
    assert_eq!(a.data.len(), 0);

    let b = Matrix::<i64>::new(0, 5);
    assert_eq!(b.rows, 0);
    assert_eq!(b.cols, 5);
    assert_eq!(b.data.len(), 0);
}

#[test]
fn set_round_trips_and_leaves_other_cells() {
    let mut mat = Matrix::<i64>::from(2, 3, vec![1, 2, 3, 4, 5, 6]);
    mat.set(1, 2, -42);
    assert_eq!(mat.at(1, 2), -42);
    // Every other cell keeps its value.
    assert_eq!(mat.at(0, 0), 1);
    assert_eq!(mat.at(0, 1), 2);
    assert_eq!(mat.at(0, 2), 3);
    assert_eq!(mat.at(1, 0), 4);
    assert_eq!(mat.at(1, 1), 5);
}

#[test]
fn index_is_row_major() {
    let mat = Matrix::<i64>::new(4, 7);
    assert_eq!(mat.index(0, 0), 0);
    assert_eq!(mat.index(0, 6), 6);
    assert_eq!(mat.index(1, 0), 7);
    assert_eq!(mat.index(2, 3), 17);
}

#[test]
fn map_composition() {
    let mat = sq_matrix::<i64>(vec![1, -2, 3, 0, 7, -9, 4, 4, 5]).unwrap();
    let two_steps = mat.map(|x| x + 1).map(|x| x * 3);
    let one_step = mat.map(|x| (x + 1) * 3);
    assert_eq!(two_steps, one_step);
}

#[test]
fn map_with_matches_reference_result() {
    let a = Matrix::<i64>::from(2, 2, vec![5, -3, 8, 0]);
    let b = Matrix::<i64>::from(2, 2, vec![2, 10, -4, 6]);
    let combined = a.map_with_by_ref(&b, |x, y| x * y - 1);
    for i in 0..2 {
        for j in 0..2 {
            assert_eq!(combined.at(i, j), a.at(i, j) * b.at(i, j) - 1);
        }
    }
}

#[test]
fn addition_is_commutative() {
    let a = sq_matrix::<i64>(vec![10, 20, 30, 40]).unwrap();
    let b = sq_matrix::<i64>(vec![1, 2, 3, 4]).unwrap();
    let expected = sq_matrix::<i64>(vec![11, 22, 33, 44]).unwrap();
    assert_eq!(a.add_ref(&b), expected);
    assert_eq!(b.add_ref(&a), expected);
}

#[test]
fn addition_is_associative() {
    let a = sq_matrix::<i64>(vec![1, 2, 3, 4]).unwrap();
    let b = sq_matrix::<i64>(vec![10, 20, 30, 40]).unwrap();
    let c = sq_matrix::<i64>(vec![100, 200, 300, 400]).unwrap();
    let left = a.add_ref(&b).add_ref(&c);
    let right = a.add_ref(&b.add_ref(&c));
    assert_eq!(left, right);
    assert_eq!(left, sq_matrix::<i64>(vec![111, 222, 333, 444]).unwrap());
}

#[test]
fn subtraction_inverts_addition() {
    let a = sq_matrix::<i64>(vec![7, -8, 9, 13]).unwrap();
    let b = sq_matrix::<i64>(vec![5, 5, -5, 2]).unwrap();
    let back = a.add_ref(&b).sub_ref(&b);
    assert_eq!(back, a);
}

#[test]
fn subtraction_is_not_commutative() {
    let a = sq_matrix::<i64>(vec![11, 22, 33, 44]).unwrap();
    let b = sq_matrix::<i64>(vec![1, 2, 3, 4]).unwrap();
    assert_eq!(a.sub_ref(&b), sq_matrix::<i64>(vec![10, 20, 30, 40]).unwrap());
    assert_ne!(a.sub_ref(&b), b.sub_ref(&a));
}

#[test]
fn multiplication_dimension_law() {
    let a = Matrix::<i64>::from(2, 3, vec![3, 4, 5, 1, 6, 8]);
    let b = Matrix::<i64>::from(3, 2, vec![6, 2, 9, 0, 3, 1]);
    let p = a.mul_ref(&b);
    assert_eq!(p.rows, 2);
    assert_eq!(p.cols, 2);
    assert_eq!(p, sq_matrix::<i64>(vec![69, 11, 84, 10]).unwrap());
}

#[test]
fn multiplication_by_identity() {
    let m = Matrix::<i64>::from(2, 3, vec![3, -4, 5, 1, 6, -8]);
    let id3 = sq_matrix::<i64>(vec![1, 0, 0, 0, 1, 0, 0, 0, 1]).unwrap();
    let id2 = sq_matrix::<i64>(vec![1, 0, 0, 1]).unwrap();
    assert_eq!(m.mul_ref(&id3), m);
    assert_eq!(id2.mul_ref(&m), m);
}

#[test]
fn owned_and_ref_operator_forms_agree() {
    let a = sq_matrix::<i64>(vec![2, -7, 11, 0]).unwrap();
    let b = sq_matrix::<i64>(vec![5, 5, -3, 9]).unwrap();
    assert_eq!(a.add_ref(&b), a.clone().add(b.clone()));
    assert_eq!(a.sub_ref(&b), a.clone().sub(b.clone()));
    assert_eq!(a.mul_ref(&b), a.clone().mul(b.clone()));
}

#[test]
fn equality_compares_flat_data_only() {
    // Equality is element-wise equality of the flattened storage: two
    // matrices of transposed shape but identical flat data compare equal.
    let a = Matrix::<i64>::from(2, 3, vec![1, 2, 3, 4, 5, 6]);
    let b = Matrix::<i64>::from(3, 2, vec![1, 2, 3, 4, 5, 6]);
    assert_eq!(a, b);
    let c = Matrix::<i64>::from(2, 3, vec![1, 2, 3, 4, 5, 7]);
    assert_ne!(a, c);
    let shorter = Matrix::<i64>::from(1, 3, vec![1, 2, 3]);
    assert_ne!(a, shorter);
}

#[test]
fn sq_matrix_infers_square_shape() {
    let m = sq_matrix::<i64>(vec![1, 2, 3, 4]).unwrap();
    assert_eq!(m.rows, 2);
    assert_eq!(m.cols, 2);
    assert_eq!(m.at(0, 0), 1);
    assert_eq!(m.at(0, 1), 2);
    assert_eq!(m.at(1, 0), 3);
    assert_eq!(m.at(1, 1), 4);
}

#[test]
fn sq_matrix_rejects_non_square_lengths() {
    assert!(sq_matrix::<i64>(vec![1, 2, 3, 4, 5]).is_none());
    assert!(sq_matrix::<i64>(vec![1, 2]).is_none());
    let empty = sq_matrix::<i64>(vec![]).unwrap();
    assert_eq!(empty.rows, 0);
    assert_eq!(empty.cols, 0);
}

#[test]
fn integral_square_root_values() {
    assert_eq!(get_integral_square_root(0), Some(0));
    assert_eq!(get_integral_square_root(1), Some(1));
    assert_eq!(get_integral_square_root(2), None);
    assert_eq!(get_integral_square_root(4), Some(2));
    assert_eq!(get_integral_square_root(5), None);
    assert_eq!(get_integral_square_root(9), Some(3));
    assert_eq!(get_integral_square_root(144), Some(12));
    assert_eq!(get_integral_square_root(usize::MAX), None);
    let big_root: usize = 4_294_967_295;
    assert_eq!(get_integral_square_root(big_root * big_root), Some(big_root));
}

#[test]
fn works_with_other_element_types() {
    let a = Matrix::<i32>::from(2, 2, vec![1, 2, 3, 4]);
    let b = Matrix::<i32>::from(2, 2, vec![10, 20, 30, 40]);
    let sum = a.add_ref(&b);
    assert_eq!(sum, Matrix::<i32>::from(2, 2, vec![11, 22, 33, 44]));
    let product = a.mul_ref(&b);
    assert_eq!(product, Matrix::<i32>::from(2, 2, vec![70, 100, 150, 220]));
}

#[test]
fn element_operations_on_i64() {
    assert_eq!(<i64 as Element>::zero(), 0);
    assert_eq!(Element::add(3i64, 4), 7);
    assert_eq!(Element::sub(3i64, 4), -1);
    assert_eq!(Element::mul(3i64, 4), 12);
    assert!(3i64.eq_elem(3));
    assert!(!3i64.eq_elem(4));
}
