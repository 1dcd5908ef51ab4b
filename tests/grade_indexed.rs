use gafro_modern::ga_term::Grade;
use gafro_modern::grade_indexed::{BivectorType, GradeChecker, IsGradeIndexed, ScalarType, TrivectorType, VectorType};

#[test]
fn test_grade_indexed_creation() {
    let scalar: ScalarType<f64> = ScalarType::scalar(3.14);
    assert_eq!(scalar.grade(), Grade::Scalar);
    assert_eq!(scalar.value, 3.14);

    let vector: VectorType<f64> = VectorType::vector(vec![(1, 2.0), (2, 3.0)]);
    assert_eq!(vector.grade(), Grade::Vector);
    assert_eq!(vector.value.len(), 2);
}

#[test]
fn test_grade_indexed_arithmetic() {
    let s1: ScalarType<f64> = ScalarType::scalar(2.0);
    let s2: ScalarType<f64> = ScalarType::scalar(3.0);

    let sum = s1 + s2;
    assert_eq!(sum.value, 5.0);
    assert_eq!(sum.grade(), Grade::Scalar);

    let s3: ScalarType<f64> = ScalarType::scalar(2.0);
    let product = s3 * 3.0;
    assert_eq!(product.value, 6.0);
}

#[test]
fn test_grade_checking() {
    assert!(GradeChecker::<f64>::is_scalar::<0>());
    assert!(!GradeChecker::<f64>::is_scalar::<1>());
    assert!(GradeChecker::<f64>::is_vector::<1>());
    assert!(GradeChecker::<f64>::is_bivector::<2>());
    assert!(GradeChecker::<f64>::is_trivector::<3>());
}

#[test]
fn test_const_grade() {
    assert_eq!(ScalarType::<f64>::grade_const(), 0);
    assert_eq!(VectorType::<f64>::grade_const(), 1);
    assert_eq!(BivectorType::<f64>::grade_const(), 2);
    assert_eq!(TrivectorType::<f64>::grade_const(), 3);
}

#[test]
fn test_grade_indexed_safety() {
    let s1: ScalarType<f64> = ScalarType::scalar(2.0);
    let s2: ScalarType<f64> = ScalarType::scalar(3.0);

    let _sum = s1.clone() + s2;

    assert_eq!(s1.grade(), Grade::Scalar);
    assert_eq!(ScalarType::<f64>::grade_const(), 0);

    let v1: VectorType<f64> = VectorType::vector(vec![(1, 2.0), (2, 3.0)]);
    assert_eq!(v1.grade(), Grade::Vector);
    assert_eq!(VectorType::<f64>::grade_const(), 1);
}

#[test]
fn multivector_predicate_and_accessors() {
    assert!(GradeChecker::<f64>::is_multivector::<4>());
    assert!(!GradeChecker::<f64>::is_multivector::<3>());
    let t: TrivectorType<i64> = TrivectorType::trivector(vec![(1, 2, 3, 7)]);
    assert_eq!(t.grade(), Grade::Trivector);
    assert_eq!(t.as_ref().len(), 1);
    assert_eq!(t.into_inner(), vec![(1, 2, 3, 7)]);
}

#[test]
fn as_mut_writes_through() {
    let mut s: ScalarType<f64> = ScalarType::scalar(1.0);
    *s.as_mut() = 9.0;
    assert_eq!(s.value, 9.0);
    let b: BivectorType<f64> = BivectorType::bivector(vec![(1, 2, 1.0)]);
    assert_eq!(b.grade(), Grade::Bivector);
    let g: gafro_modern::GradeIndexed<i32, 7> = 3.into();
    assert_eq!(g.grade(), Grade::Multivector);
}

#[test]
fn trait_grade_follows_the_const_parameter() {
    let v: VectorType<f64> = VectorType::vector(vec![(1, 1.0)]);
    assert_eq!(IsGradeIndexed::grade(&v), Grade::Vector);
    assert_eq!(<VectorType<f64> as IsGradeIndexed>::GRADE, 1);
}
