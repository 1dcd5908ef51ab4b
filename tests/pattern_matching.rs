use std::f64::consts::PI;

use gafro_modern::ga_term::{BladeTerm, GATerm};
use gafro_modern::match_gaterm;
use gafro_modern::pattern_matching::combinators;
use gafro_modern::pattern_matching::operations::{add, scalar_multiply, to_string};
use gafro_modern::pattern_matching::text::render;
use gafro_modern::{visit_gaterm, GATermVisitor, Index, Scalar};

#[test]
fn test_pattern_matching() {
    let scalar = GATerm::scalar(3.14);
    let vector = GATerm::vector(vec![(1, 2.0), (2, 3.0)]);

    let scalar_result = match_gaterm(
        &scalar,
        |s| format!("Got scalar: {}", s.value),
        |_| "Not a scalar".to_string(),
        |_| "Not a scalar".to_string(),
        |_| "Not a scalar".to_string(),
        |_| "Not a scalar".to_string(),
    );

    assert_eq!(scalar_result, "Got scalar: 3.14");

    let vector_result = match_gaterm(
        &vector,
        |_| "Not a vector".to_string(),
        |v| format!("Got vector with {} components", v.len()),
        |_| "Not a vector".to_string(),
        |_| "Not a vector".to_string(),
        |_| "Not a vector".to_string(),
    );

    assert_eq!(vector_result, "Got vector with 2 components");
}

#[test]
fn test_addition() {
    let s1 = GATerm::scalar(2.0);
    let s2 = GATerm::scalar(3.0);
    let sum = add(&s1, &s2).unwrap();

    if let GATerm::Scalar(s) = sum {
        assert_eq!(s.value, 5.0);
    } else {
        panic!("Expected scalar result");
    }

    let v1 = GATerm::vector(vec![(1, 2.0), (2, 3.0)]);
    let v2 = GATerm::vector(vec![(1, 1.0), (3, 4.0)]);
    let vector_sum = add(&v1, &v2).unwrap();

    if let GATerm::Vector(v) = vector_sum {
        assert_eq!(v.len(), 3);
        assert!(v.iter().any(|(idx, coeff)| *idx == 1 && *coeff == 3.0));
    } else {
        panic!("Expected vector result");
    }
}

#[test]
fn test_scalar_multiplication() {
    let vector = GATerm::vector(vec![(1, 2.0), (2, 3.0)]);
    let scaled = scalar_multiply(2.0, &vector);

    if let GATerm::Vector(v) = scaled {
        assert_eq!(v[0].1, 4.0);
        assert_eq!(v[1].1, 6.0);
    } else {
        panic!("Expected vector result");
    }
}

#[test]
fn test_to_string() {
    let scalar = GATerm::scalar(3.14);
    assert_eq!(to_string(&scalar), "Scalar(3.14)");

    let vector = GATerm::vector(vec![(1, 2.0), (2, 3.0)]);
    assert_eq!(to_string(&vector), "Vector(e1:2, e2:3)");
}

#[test]
fn test_combinators() {
    let vector = GATerm::vector(vec![(1, 2.0), (2, 3.0), (3, 4.0)]);

    let doubled = combinators::map(&vector, |x: &f64| x * 2.0);
    if let GATerm::Vector(v) = doubled {
        assert_eq!(v[0].1, 4.0);
        assert_eq!(v[1].1, 6.0);
        assert_eq!(v[2].1, 8.0);
    }

    let filtered = combinators::filter(&vector, |x: &f64| *x > 2.5);
    if let GATerm::Vector(v) = filtered {
        assert_eq!(v.len(), 2);
    }

    let sum = combinators::fold(&vector, 0.0, |acc, x: &f64| acc + x);
    assert_eq!(sum, 9.0);
}

#[test]
fn test_cross_language_compatibility() {
    let s1 = GATerm::scalar(2.0);
    let s2 = GATerm::scalar(3.0);
    let sum = add(&s1, &s2).unwrap();

    if let GATerm::Scalar(s) = sum {
        assert_eq!(s.value, 5.0);
    }

    let v1 = GATerm::vector(vec![(1, 1.0), (2, 2.0), (3, 3.0)]);
    let v2 = GATerm::vector(vec![(1, 10.0), (2, 20.0), (3, 30.0)]);
    let vector_sum = add(&v1, &v2).unwrap();

    if let GATerm::Vector(v) = vector_sum {
        assert_eq!(v[0], (1, 11.0));
        assert_eq!(v[1], (2, 22.0));
        assert_eq!(v[2], (3, 33.0));
    }

    let scaled = scalar_multiply(2.0, &v1);
    if let GATerm::Vector(v) = scaled {
        assert_eq!(v[0], (1, 2.0));
        assert_eq!(v[1], (2, 4.0));
        assert_eq!(v[2], (3, 6.0));
    }
}

#[test]
fn test_mathematical_conventions() {
    const TAU: f64 = 2.0 * PI;

    let full_rotation = GATerm::scalar(TAU);
    let half_rotation = GATerm::scalar(TAU / 2.0);

    if let GATerm::Scalar(s) = full_rotation {
        assert!((s.value - 6.283185307179586).abs() < 1e-10);
    }

    if let GATerm::Scalar(s) = half_rotation {
        assert!((s.value - PI).abs() < 1e-10);
    }
}

#[test]
fn test_pattern_matching_exhaustiveness() {
    let terms = vec![
        GATerm::scalar(1.0),
        GATerm::vector(vec![(1, 2.0)]),
        GATerm::bivector(vec![(1, 2, 3.0)]),
        GATerm::trivector(vec![(1, 2, 3, 4.0)]),
        GATerm::multivector(vec![BladeTerm::new(vec![1, 2, 3, 4], 5.0)]),
    ];

    for term in &terms {
        let description = match_gaterm(
            term,
            |_| "scalar",
            |_| "vector",
            |_| "bivector",
            |_| "trivector",
            |_| "multivector",
        );

        assert!(!description.is_empty());
    }
}

fn vector_entries(t: &GATerm<f64>) -> Vec<(Index, f64)> {
    match t {
        GATerm::Vector(v) => {
            let mut v = v.clone();
            v.sort_by_key(|e| e.0);
            v
        }
        _ => panic!("not a vector"),
    }
}

#[test]
fn vector_sum_merges_shared_keys_and_appends_new_ones() {
    let v1 = GATerm::vector(vec![(1, 2.0), (2, 3.0)]);
    let v2 = GATerm::vector(vec![(1, 1.0), (3, 4.0)]);
    let sum = add(&v1, &v2).unwrap();
    assert_eq!(sum, GATerm::vector(vec![(1, 3.0), (2, 3.0), (3, 4.0)]));
}

#[test]
fn scalar_sum_is_plain_sum() {
    assert_eq!(add(&GATerm::scalar(2.0), &GATerm::scalar(3.0)), Some(GATerm::scalar(5.0)));
}

#[test]
fn mixed_grades_are_rejected() {
    let s = GATerm::scalar(1.0);
    let v = GATerm::vector(vec![(1, 1.0)]);
    let b = GATerm::bivector(vec![(1, 2, 1.0)]);
    let t = GATerm::trivector(vec![(1, 2, 3, 1.0)]);
    let m = GATerm::multivector(vec![BladeTerm::new(vec![1], 1.0)]);
    let all = [&s, &v, &b, &t, &m];
    for (i, x) in all.iter().enumerate() {
        for (j, y) in all.iter().enumerate() {
            assert_eq!(add(x, y).is_none(), i != j);
        }
    }
}

#[test]
fn addition_commutes_up_to_order() {
    let a = GATerm::vector(vec![(1, 2.0), (2, 3.0)]);
    let b = GATerm::vector(vec![(3, 1.0), (1, 1.0)]);
    let ab = add(&a, &b).unwrap();
    let ba = add(&b, &a).unwrap();
    assert_eq!(vector_entries(&ab), vector_entries(&ba));
}

#[test]
fn addition_associates_on_integers() {
    let a = GATerm::bivector(vec![(1, 2, 1i64), (2, 3, 5)]);
    let b = GATerm::bivector(vec![(2, 3, 2i64)]);
    let c = GATerm::bivector(vec![(1, 2, 4i64), (1, 3, 9)]);
    let left = add(&add(&a, &b).unwrap(), &c).unwrap();
    let right = add(&a, &add(&b, &c).unwrap()).unwrap();
    assert_eq!(left, GATerm::bivector(vec![(1, 2, 5), (2, 3, 7), (1, 3, 9)]));
    assert_eq!(right, left);
}

#[test]
fn trivector_and_multivector_sums() {
    let t1 = GATerm::trivector(vec![(1, 2, 3, 1.5)]);
    let t2 = GATerm::trivector(vec![(1, 2, 3, 0.5), (2, 3, 1, 1.0)]);
    assert_eq!(add(&t1, &t2), Some(GATerm::trivector(vec![(1, 2, 3, 2.0), (2, 3, 1, 1.0)])));
    let m1 = GATerm::multivector(vec![BladeTerm::new(vec![1, 2], 1.0), BladeTerm::new(vec![], 2.0)]);
    let m2 = GATerm::multivector(vec![BladeTerm::new(vec![2, 1], 4.0), BladeTerm::new(vec![1, 2], 3.0)]);
    assert_eq!(
        add(&m1, &m2),
        Some(GATerm::multivector(vec![
            BladeTerm::new(vec![1, 2], 4.0),
            BladeTerm::new(vec![], 2.0),
            BladeTerm::new(vec![2, 1], 4.0),
        ]))
    );
}

#[test]
fn scaling_by_one_and_distributing() {
    let x = GATerm::multivector(vec![BladeTerm::new(vec![1, 2, 3, 4], 5i64)]);
    assert_eq!(scalar_multiply(1i64, &x), x);
    let a = GATerm::vector(vec![(1, 2i64), (2, 3)]);
    let b = GATerm::vector(vec![(1, 1i64), (3, 4)]);
    let lhs = scalar_multiply(3i64, &add(&a, &b).unwrap());
    let rhs = add(&scalar_multiply(3i64, &a), &scalar_multiply(3i64, &b)).unwrap();
    assert_eq!(lhs, rhs);
    assert_eq!(lhs, GATerm::vector(vec![(1, 9), (2, 9), (3, 12)]));
}

#[test]
fn to_string_of_every_shape() {
    assert_eq!(to_string(&GATerm::bivector(vec![(1, 2, 4.0), (2, 3, -1.5)])), "Bivector(e1e2:4, e2e3:-1.5)");
    assert_eq!(to_string(&GATerm::trivector(vec![(1, 2, 3, 5.0)])), "Trivector(e1e2e3:5)");
    assert_eq!(
        to_string(&GATerm::multivector(vec![BladeTerm::new(vec![1, 2, 3, 4], 5.0), BladeTerm::new(vec![-12], 1.0)])),
        "Multivector(e1e2e3e4:5, e-12:1)"
    );
    assert_eq!(to_string(&GATerm::<f64>::vector(vec![])), "Vector()");
}

#[test]
fn render_writes_indices_in_decimal() {
    let t = GATerm::vector(vec![(0, "a".to_string()), (2147483647, "b".to_string()), (-2147483648, "c".to_string())]);
    assert_eq!(render(&t), "Vector(e0:a, e2147483647:b, e-2147483648:c)");
    assert_eq!(render(&GATerm::scalar("x".to_string())), "Scalar(x)");
}

#[test]
fn filter_keeps_scalars_and_fold_visits_in_order() {
    let s = GATerm::scalar(1.0);
    assert_eq!(combinators::filter(&s, |x: &f64| *x > 5.0), s);
    let m = GATerm::multivector(vec![BladeTerm::new(vec![1], 1.0), BladeTerm::new(vec![2], 7.0)]);
    assert_eq!(
        combinators::filter(&m, |x: &f64| *x > 5.0),
        GATerm::multivector(vec![BladeTerm::new(vec![2], 7.0)])
    );
    let order = combinators::fold(&GATerm::trivector(vec![(1, 2, 3, 1), (2, 3, 4, 2)]), 0i64, |acc, x: &i64| acc * 10 + x);
    assert_eq!(order, 12);
}

struct Describe;

impl GATermVisitor<f64, usize> for Describe {
    fn visit_scalar(&self, _scalar: &Scalar<f64>) -> usize {
        0
    }
    fn visit_vector(&self, vector: &Vec<(Index, f64)>) -> usize {
        vector.len()
    }
    fn visit_bivector(&self, bivector: &Vec<(Index, Index, f64)>) -> usize {
        10 + bivector.len()
    }
    fn visit_trivector(&self, trivector: &Vec<(Index, Index, Index, f64)>) -> usize {
        20 + trivector.len()
    }
    fn visit_multivector(&self, multivector: &Vec<BladeTerm<f64>>) -> usize {
        30 + multivector.len()
    }
}

#[test]
fn visitor_dispatches_on_shape() {
    assert_eq!(visit_gaterm(&GATerm::scalar(1.0), &Describe), 0);
    assert_eq!(visit_gaterm(&GATerm::bivector(vec![(1, 2, 1.0)]), &Describe), 11);
    assert_eq!(visit_gaterm(&GATerm::multivector(vec![]), &Describe), 30);
}

#[test]
fn sum_of_squares_of_a_three_four_vector() {
    let v = GATerm::vector(vec![(1, 3.0), (2, 4.0)]);
    let squares = combinators::fold(&v, 0.0, |acc: f64, c: &f64| acc + c * c);
    assert_eq!(squares, 25.0);
    assert!((squares.sqrt() - 5.0).abs() < 1e-12);
}
