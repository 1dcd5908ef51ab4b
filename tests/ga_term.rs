use gafro_modern::ga_term::{BladeTerm, GATerm, Grade, Scalar};

#[test]
fn test_scalar_creation() {
    let scalar = Scalar::new(3.14);
    assert_eq!(scalar.value, 3.14);
    assert_eq!(Scalar::<f64>::grade(), Grade::Scalar);
}

#[test]
fn test_scalar_arithmetic() {
    let s1 = Scalar::new(2.0);
    let s2 = Scalar::new(3.0);

    let sum = s1 + s2;
    assert_eq!(sum.value, 5.0);

    let s3 = Scalar::new(2.0);
    let s4 = Scalar::new(3.0);
    let product = s3 * s4;
    assert_eq!(product.value, 6.0);
}

#[test]
fn test_gaterm_grades() {
    let scalar = GATerm::scalar(1.0);
    assert_eq!(scalar.grade(), Grade::Scalar);

    let vector = GATerm::vector(vec![(1, 2.0), (2, 3.0)]);
    assert_eq!(vector.grade(), Grade::Vector);

    let bivector = GATerm::bivector(vec![(1, 2, 4.0)]);
    assert_eq!(bivector.grade(), Grade::Bivector);

    let trivector = GATerm::trivector(vec![(1, 2, 3, 5.0)]);
    assert_eq!(trivector.grade(), Grade::Trivector);
}

#[test]
fn test_blade_term() {
    let term = BladeTerm::new(vec![1, 2], 3.0);
    assert_eq!(term.grade(), Grade::Bivector);
    assert_eq!(term.coefficient, 3.0);
    assert_eq!(term.indices, vec![1, 2]);
}

#[test]
fn blade_grade_follows_index_count() {
    assert_eq!(BladeTerm::new(vec![], 1.0).grade(), Grade::Scalar);
    assert_eq!(BladeTerm::new(vec![4], 1.0).grade(), Grade::Vector);
    assert_eq!(BladeTerm::new(vec![1, 2, 3], 1.0).grade(), Grade::Trivector);
    assert_eq!(BladeTerm::new(vec![1, 2, 3, 4], 1.0).grade(), Grade::Multivector);
}

#[test]
fn has_grade_compares_with_the_variant() {
    let m = GATerm::multivector(vec![BladeTerm::new(vec![1, 2, 3, 4], 5.0)]);
    assert!(m.has_grade(Grade::Multivector));
    assert!(!m.has_grade(Grade::Trivector));
    assert!(GATerm::scalar(0.0).has_grade(Grade::Scalar));
}
