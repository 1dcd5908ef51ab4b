use gafro_modern::ga_term::Grade;
use gafro_modern::grade_checking::grade_calc;
use gafro_modern::grade_checking::safe_ops;
use gafro_modern::grade_checking::{OperationMatrix, OperationValidator, TypeInspector};
use gafro_modern::grade_indexed::{BivectorType, ScalarType, VectorType};

#[test]
fn test_grade_calculation() {
    assert_eq!(grade_calc::outer_product_grade(1, 1), Grade::Bivector);
    assert_eq!(grade_calc::outer_product_grade(1, 2), Grade::Trivector);
    assert_eq!(grade_calc::inner_product_grade(2, 1), Grade::Vector);
    assert_eq!(grade_calc::inner_product_grade(1, 1), Grade::Scalar);
}

#[test]
fn test_operation_validation() {
    type S = ScalarType<f64>;
    type V = VectorType<f64>;
    type B = BivectorType<f64>;

    assert!(OperationValidator::<S, S>::can_add());
    assert!(!OperationValidator::<S, V>::can_add());
    assert!(OperationValidator::<S, V>::can_multiply());
    assert!(OperationValidator::<V, B>::can_outer_product());
}

#[test]
fn test_safe_operations() {
    let s1 = ScalarType::scalar(2.0);
    let s2 = ScalarType::scalar(3.0);

    let sum = safe_ops::add(s1, s2);
    assert_eq!(sum.value, 5.0);

    let s3 = ScalarType::scalar(4.0);
    let product = safe_ops::scalar_multiply(2.0, s3);
    assert_eq!(product.value, 8.0);
}

#[test]
fn test_type_inspector() {
    type S = ScalarType<f64>;
    type V = VectorType<f64>;

    assert!(TypeInspector::<S>::is_scalar());
    assert!(!TypeInspector::<S>::is_vector());
    assert!(!TypeInspector::<V>::is_scalar());
    assert!(TypeInspector::<V>::is_vector());
}

#[test]
fn test_operation_matrix() {
    type Matrix01 = OperationMatrix<0, 1>;
    type Matrix11 = OperationMatrix<1, 1>;

    assert!(!Matrix01::can_add());
    assert!(Matrix01::can_geometric_product());
    assert!(Matrix11::can_add());
    assert_eq!(Matrix01::outer_product_result(), Grade::Vector);
    assert_eq!(Matrix11::inner_product_result(), Grade::Scalar);
}

fn grade_of(n: u8) -> Grade {
    match n {
        0 => Grade::Scalar,
        1 => Grade::Vector,
        2 => Grade::Bivector,
        3 => Grade::Trivector,
        _ => Grade::Multivector,
    }
}

#[test]
fn product_grade_tables_cover_every_pair() {
    for g1 in 0u8..4 {
        for g2 in 0u8..4 {
            assert_eq!(grade_calc::outer_product_grade(g1, g2), grade_of(g1 + g2));
            let d = if g1 >= g2 { g1 - g2 } else { g2 - g1 };
            assert_eq!(grade_calc::inner_product_grade(g1, g2), grade_of(d));
            assert!(!grade_calc::geometric_product_grades(g1, g2).is_empty());
        }
    }
    assert_eq!(grade_calc::outer_product_grade(2, 2), Grade::Multivector);
    assert_eq!(grade_calc::outer_product_grade(3, 1), Grade::Multivector);
    assert_eq!(grade_calc::inner_product_grade(0, 3), Grade::Trivector);
}

#[test]
fn product_grade_scenarios() {
    assert_eq!(grade_calc::outer_product_grade(1, 2), Grade::Trivector);
    assert_eq!(grade_calc::inner_product_grade(2, 1), Grade::Vector);
    assert_eq!(grade_calc::geometric_product_grades(1, 1), vec![Grade::Scalar, Grade::Bivector]);
}

#[test]
fn geometric_product_table() {
    assert_eq!(grade_calc::geometric_product_grades(0, 0), vec![Grade::Scalar]);
    assert_eq!(grade_calc::geometric_product_grades(0, 3), vec![Grade::Trivector]);
    assert_eq!(grade_calc::geometric_product_grades(2, 0), vec![Grade::Bivector]);
    assert_eq!(grade_calc::geometric_product_grades(1, 2), vec![Grade::Vector, Grade::Trivector]);
    assert_eq!(grade_calc::geometric_product_grades(2, 1), vec![Grade::Vector, Grade::Trivector]);
    assert_eq!(grade_calc::geometric_product_grades(1, 3), vec![Grade::Bivector]);
    assert_eq!(grade_calc::geometric_product_grades(3, 1), vec![Grade::Bivector]);
    assert_eq!(grade_calc::geometric_product_grades(2, 2), vec![Grade::Scalar, Grade::Bivector]);
    assert_eq!(grade_calc::geometric_product_grades(2, 3), vec![Grade::Vector]);
    assert_eq!(grade_calc::geometric_product_grades(3, 2), vec![Grade::Vector]);
    assert_eq!(grade_calc::geometric_product_grades(3, 3), vec![Grade::Scalar, Grade::Bivector]);
    assert_eq!(grade_calc::geometric_product_grades(4, 1), vec![Grade::Multivector]);
    assert_eq!(grade_calc::geometric_product_grades(0, 7), vec![Grade::Multivector]);
}
