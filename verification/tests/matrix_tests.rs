use rtrace::fixed::Fixed;
use rtrace::linalg::matrix::{add_mnum, sub_mnum, Matrix, MatrixOpResult, TMatrix};

fn whole(value: i32) -> Fixed {
    Fixed::from_int(value)
}

fn matrix(n: usize, m: usize, values: &[i32]) -> Matrix<Fixed> {
    let filler: Vec<Fixed> = values.iter().map(|value| whole(*value)).collect();
    match Matrix::new_filled(n, m, &filler) {
        Ok(made) => made,
        Err(_) => panic!("the filler does not fit"),
    }
}

fn elements(matrix: &Matrix<Fixed>, count: usize) -> Vec<Result<Fixed, MatrixOpResult>> {
    let n = matrix.get_n();
    (0..count).map(|slot| matrix.get_immut(slot / n, slot % n)).collect()
}

fn square(values: [i32; 4]) -> Vec<Result<Fixed, MatrixOpResult>> {
    values.iter().map(|value| Ok(whole(*value))).collect()
}

fn failure<T>(outcome: Result<T, MatrixOpResult>) -> MatrixOpResult {
    match outcome {
        Ok(_) => MatrixOpResult::Successful,
        Err(error) => error,
    }
}

#[test]
fn helper_functions_add_and_subtract() {
    assert_eq!(add_mnum(whole(2), whole(3)), whole(5));
    assert_eq!(sub_mnum(whole(2), whole(3)), whole(-1));
}

#[test]
fn new_matrix_is_all_zero() {
    let made = match Matrix::<Fixed>::new(2, 3) {
        Ok(made) => made,
        Err(_) => panic!("two by three is a valid size"),
    };
    assert_eq!(made.get_n(), 2);
    assert_eq!(made.get_m(), 3);
    assert_eq!(made.get_immut(0, 0), Ok(whole(0)));
    assert_eq!(made.get_immut(1, 2), Ok(whole(0)));
}

#[test]
fn matrix_without_rows_or_columns_is_refused() {
    assert_eq!(failure(Matrix::<Fixed>::new(0, 3)), MatrixOpResult::InvalidSize);
    assert_eq!(failure(Matrix::<Fixed>::new(3, 0)), MatrixOpResult::InvalidSize);
    assert_eq!(failure(Matrix::<Fixed>::new(usize::MAX, 2)), MatrixOpResult::InvalidSize);
    assert_eq!(failure(Matrix::new_filled(0, 1, &vec![whole(1)])), MatrixOpResult::InvalidSize);
}

#[test]
fn filler_of_the_wrong_length_is_refused() {
    assert_eq!(
        failure(Matrix::new_filled(2, 2, &vec![whole(1), whole(2), whole(3)])),
        MatrixOpResult::SizeMismatch
    );
    assert_eq!(
        failure(Matrix::new_filled(usize::MAX, 2, &vec![whole(1)])),
        MatrixOpResult::SizeMismatch
    );
}

#[test]
fn coordinates_and_slots() {
    let made = matrix(2, 3, &[1, 2, 3, 4, 5, 6]);
    assert_eq!(made.coord_transform(0, 0), Ok(0));
    assert_eq!(made.coord_transform(1, 2), Ok(4));
    assert_eq!(made.coord_transform(2, 0), Err(MatrixOpResult::InvalidIndex));
    assert_eq!(made.coord_transform(0, 3), Err(MatrixOpResult::InvalidIndex));
    assert_eq!(made.index_transform(5), Ok((2, 1)));
    assert_eq!(made.index_transform(0), Ok((0, 0)));
    assert_eq!(made.index_transform(6), Err(MatrixOpResult::InvalidIndex));
}

#[test]
fn elements_are_read_by_row_and_column() {
    let made = matrix(2, 2, &[1, 2, 3, 4]);
    assert_eq!(made.get_immut(0, 0), Ok(whole(1)));
    assert_eq!(made.get_immut(0, 1), Ok(whole(2)));
    assert_eq!(made.get_immut(1, 0), Ok(whole(3)));
    assert_eq!(made.get_immut(1, 1), Ok(whole(4)));
    assert_eq!(made.get_immut(2, 0), Err(MatrixOpResult::InvalidIndex));
    assert_eq!(made.get_immut(0, 2), Err(MatrixOpResult::InvalidIndex));
}

#[test]
fn element_beyond_the_data_cannot_be_reached() {
    let tall = matrix(3, 2, &[1, 2, 3, 4, 5, 6]);
    assert_eq!(tall.get_immut(1, 1), Ok(whole(5)));
    assert_eq!(tall.get_immut(2, 0), Err(MatrixOpResult::InvalidIndex));
    assert_eq!(tall.get_immut(2, 1), Err(MatrixOpResult::InvalidIndex));
}

#[test]
fn elements_are_changed_in_place() {
    let mut made = matrix(2, 2, &[1, 2, 3, 4]);
    match made.get_mut(1, 0) {
        Ok(element) => *element = whole(30),
        Err(_) => panic!("row one and column zero exist"),
    }
    assert_eq!(elements(&made, 4), square([1, 2, 30, 4]));
    assert_eq!(failure(made.get_mut(2, 2)), MatrixOpResult::InvalidIndex);
    assert_eq!(elements(&made, 4), square([1, 2, 30, 4]));
}

#[test]
fn identity_needs_a_square_matrix() {
    let mut made = matrix(2, 2, &[5, 6, 7, 8]);
    assert_eq!(made.load_identity(), Ok(MatrixOpResult::Successful));
    assert_eq!(elements(&made, 4), square([1, 0, 0, 1]));
    let mut wide = matrix(2, 3, &[1, 2, 3, 4, 5, 6]);
    assert_eq!(wide.load_identity(), Err(MatrixOpResult::NotSquareMatrix));
    assert_eq!(wide.get_immut(1, 2), Ok(whole(5)));
}

#[test]
fn sums_and_differences_go_element_by_element() {
    let a = matrix(2, 2, &[1, 2, 3, 4]);
    let b = matrix(2, 2, &[10, 20, 30, 40]);
    match a.add_immut(&b) {
        Ok(sum) => assert_eq!(elements(&sum, 4), square([11, 22, 33, 44])),
        Err(_) => panic!("the sizes agree"),
    }
    match a.sub_immut(&b) {
        Ok(difference) => assert_eq!(elements(&difference, 4), square([-9, -18, -27, -36])),
        Err(_) => panic!("the sizes agree"),
    }
    let mut c = matrix(2, 2, &[1, 2, 3, 4]);
    assert_eq!(c.add_mut(&b), Ok(MatrixOpResult::Successful));
    assert_eq!(elements(&c, 4), square([11, 22, 33, 44]));
    assert_eq!(c.sub_mut(&a), Ok(MatrixOpResult::Successful));
    assert_eq!(elements(&c, 4), square([10, 20, 30, 40]));
    assert_eq!(elements(&a, 4), square([1, 2, 3, 4]));
}

#[test]
fn matrices_of_different_sizes_do_not_add() {
    let a = matrix(2, 2, &[1, 2, 3, 4]);
    let wide = matrix(2, 3, &[1, 2, 3, 4, 5, 6]);
    assert_eq!(failure(a.add_immut(&wide)), MatrixOpResult::SizeMismatch);
    assert_eq!(failure(a.sub_immut(&wide)), MatrixOpResult::SizeMismatch);
    let mut b = matrix(2, 2, &[1, 2, 3, 4]);
    assert_eq!(b.add_mut(&wide), Err(MatrixOpResult::SizeMismatch));
    assert_eq!(b.sub_mut(&wide), Err(MatrixOpResult::SizeMismatch));
    assert_eq!(elements(&b, 4), square([1, 2, 3, 4]));
}

#[test]
fn any_function_goes_element_by_element() {
    let a = matrix(2, 2, &[1, 2, 3, 4]);
    let b = matrix(2, 2, &[5, 6, 7, 8]);
    match a.by_each_element_immut(&b, |left: Fixed, right: Fixed| left.times(right)) {
        Ok(made) => assert_eq!(elements(&made, 4), square([5, 12, 21, 32])),
        Err(_) => panic!("the sizes agree"),
    }
    let mut c = matrix(2, 2, &[1, 2, 3, 4]);
    assert_eq!(
        c.by_each_element_mut(&b, |left: Fixed, right: Fixed| right.minus(left)),
        Ok(MatrixOpResult::Successful)
    );
    assert_eq!(elements(&c, 4), square([4, 4, 4, 4]));
}

#[test]
fn scalar_multiplication() {
    let a = matrix(2, 2, &[1, 2, 3, 4]);
    match a.mul_immut(&whole(3)) {
        Ok(made) => assert_eq!(elements(&made, 4), square([3, 6, 9, 12])),
        Err(_) => panic!("scaling never fails"),
    }
    let mut b = matrix(2, 2, &[1, 2, 3, 4]);
    assert_eq!(b.mul_mut(&whole(-1)), Ok(MatrixOpResult::Successful));
    assert_eq!(elements(&b, 4), square([-1, -2, -3, -4]));
}

#[test]
fn product_of_square_matrices() {
    let a = matrix(2, 2, &[1, 2, 3, 4]);
    let b = matrix(2, 2, &[5, 6, 7, 8]);
    match a.xmul_immut(&b) {
        Ok(made) => {
            assert_eq!(made.get_n(), 2);
            assert_eq!(made.get_m(), 2);
            assert_eq!(elements(&made, 4), square([12, 28, 36, 56]));
        },
        Err(_) => panic!("the sizes agree"),
    }
    let mut c = matrix(2, 2, &[1, 2, 3, 4]);
    assert_eq!(c.xmul_mut(&b), Ok(MatrixOpResult::Successful));
    assert_eq!(elements(&c, 4), square([12, 28, 36, 56]));
}

#[test]
fn product_that_cannot_be_formed() {
    let a = matrix(2, 2, &[1, 2, 3, 4]);
    let big = matrix(3, 3, &[1, 2, 3, 4, 5, 6, 7, 8, 9]);
    assert_eq!(failure(a.xmul_immut(&big)), MatrixOpResult::SizeMismatch);
    let row = matrix(1, 2, &[1, 2]);
    let wide = matrix(2, 3, &[1, 2, 3, 4, 5, 6]);
    assert_eq!(failure(row.xmul_immut(&wide)), MatrixOpResult::InvalidIndex);
    let mut kept = matrix(1, 2, &[1, 2]);
    assert_eq!(kept.xmul_mut(&wide), Err(MatrixOpResult::InvalidIndex));
    assert_eq!(kept.get_immut(0, 1), Ok(whole(2)));
    assert_eq!(kept.get_m(), 2);
}

#[test]
fn transposition() {
    let a = matrix(2, 2, &[1, 2, 3, 4]);
    match a.transpose_immut() {
        Ok(made) => assert_eq!(elements(&made, 4), square([1, 3, 2, 4])),
        Err(_) => panic!("every element can be reached"),
    }
    let row = matrix(1, 3, &[1, 2, 3]);
    match row.transpose_immut() {
        Ok(made) => {
            assert_eq!(made.get_n(), 3);
            assert_eq!(made.get_m(), 1);
            assert_eq!(made.get_immut(0, 0), Ok(whole(1)));
        },
        Err(_) => panic!("every element can be reached"),
    }
    let mut b = matrix(2, 2, &[1, 2, 3, 4]);
    assert_eq!(b.transpose_mut(), Ok(MatrixOpResult::Successful));
    assert_eq!(elements(&b, 4), square([1, 3, 2, 4]));
    let mut tall = matrix(3, 2, &[1, 2, 3, 4, 5, 6]);
    assert_eq!(failure(tall.transpose_immut()), MatrixOpResult::InvalidIndex);
    assert_eq!(tall.transpose_mut(), Err(MatrixOpResult::InvalidIndex));
    assert_eq!(tall.get_n(), 3);
}

#[test]
fn clone_copies_every_element() {
    let a = matrix(2, 2, &[1, 2, 3, 4]);
    let mut b = a.clone();
    assert_eq!(b.mul_mut(&whole(2)), Ok(MatrixOpResult::Successful));
    assert_eq!(elements(&a, 4), square([1, 2, 3, 4]));
    assert_eq!(elements(&b, 4), square([2, 4, 6, 8]));
}
