use specification::IntRule;
use specification::Specification;
use specification::SpecificationCompositions;

#[test]
fn test_simple() {
    let greater_than_5 = IntRule::GreaterThan { value: 5 };

    let res = greater_than_5.is_satisfied_by(&6);
    assert!(res);

    let res = greater_than_5.is_satisfied_by(&3);
    assert!(!res);
}

#[test]
fn test_and() {
    let greater_than_5 = IntRule::GreaterThan { value: 5 };
    let less_than_10 = IntRule::LessThan { value: 10 };

    let res = greater_than_5.clone().and(less_than_10.clone()).is_satisfied_by(&6);
    assert!(res);

    let res = greater_than_5.clone().and(less_than_10.clone()).is_satisfied_by(&3);
    assert!(!res);

    let res = greater_than_5.and(less_than_10).is_satisfied_by(&33);
    assert!(!res);
}

#[test]
fn test_and_or() {
    let greater_than_5 = IntRule::GreaterThan { value: 5 };
    let less_than_10 = IntRule::LessThan { value: 10 };
    let zero = IntRule::Zero;
    let specification = greater_than_5.and(less_than_10).or(zero);

    let res = specification.is_satisfied_by(&6);
    assert!(res);

    let res = specification.is_satisfied_by(&3);
    assert!(!res);

    let res = specification.is_satisfied_by(&33);
    assert!(!res);

    let res = specification.is_satisfied_by(&0);
    assert!(res);
}

#[test]
fn test_reminder_unsatisfied_by() {
    let greater_than_5 = IntRule::GreaterThan { value: 5 };
    let less_than_10 = IntRule::LessThan { value: 10 };
    let specification = greater_than_5.and(less_than_10);

    let res = specification.reminder_unsatisfied_by(&6);
    assert!(res.is_none());

    let res = specification.reminder_unsatisfied_by(&3);
    assert!(matches!(res, Some(SpecificationCompositions::Specification(..))));
}

#[test]
fn test_composite_behaves_as_rule() {
    let greater_than_5 = IntRule::GreaterThan { value: 5 };
    let wrapped = greater_than_5.composite();

    assert!(wrapped.is_satisfied_by(&6) == greater_than_5.is_satisfied_by(&6));
    assert!(wrapped.is_satisfied_by(&5) == greater_than_5.is_satisfied_by(&5));
    assert!(wrapped.is_satisfied_by(&3) == greater_than_5.is_satisfied_by(&3));
}

#[test]
fn test_or_semantics() {
    let greater_than_5 = IntRule::GreaterThan { value: 5 };
    let zero = IntRule::Zero;
    let either = greater_than_5.or(zero);

    assert!(either.is_satisfied_by(&6));
    assert!(either.is_satisfied_by(&0));
    assert!(!either.is_satisfied_by(&3));
}

#[test]
fn test_xor_semantics() {
    let greater_than_5 = IntRule::GreaterThan { value: 5 };
    let less_than_10 = IntRule::LessThan { value: 10 };
    let one_of = greater_than_5.xor(less_than_10);

    // exactly one satisfied
    assert!(one_of.is_satisfied_by(&3));
    assert!(one_of.is_satisfied_by(&33));
    // both satisfied
    assert!(!one_of.is_satisfied_by(&6));

    let greater_than_10 = IntRule::GreaterThan { value: 10 };
    let zero = IntRule::Zero;
    // neither satisfied
    assert!(!greater_than_10.xor(zero).is_satisfied_by(&3));
}

#[test]
fn test_xor_is_exactly_one_not_parity() {
    let greater_than_1 = IntRule::GreaterThan { value: 1 };
    let greater_than_2 = IntRule::GreaterThan { value: 2 };
    let greater_than_3 = IntRule::GreaterThan { value: 3 };
    let one_of = greater_than_1.xor(greater_than_2).xor(greater_than_3);

    // all three satisfied: an odd count, but not exactly one
    assert!(!one_of.is_satisfied_by(&4));
    // exactly one satisfied
    assert!(one_of.is_satisfied_by(&2));
    // none satisfied
    assert!(!one_of.is_satisfied_by(&0));
}

#[test]
fn test_and_flattening() {
    let a = IntRule::GreaterThan { value: 1 };
    let b = IntRule::GreaterThan { value: 2 };
    let c = IntRule::GreaterThan { value: 3 };

    let left = a.and(b).and(c);
    let right = a.and(b.and(c));

    match &left {
        SpecificationCompositions::And(children) => assert_eq!(children.len(), 3),
        _ => panic!("expected an And node"),
    }
    match &right {
        SpecificationCompositions::And(children) => assert_eq!(children.len(), 3),
        _ => panic!("expected an And node"),
    }

    for candidate in [0, 1, 2, 3, 4] {
        assert!(left.is_satisfied_by(&candidate) == right.is_satisfied_by(&candidate));
    }
}

#[test]
fn test_flattening_does_not_cross_kinds() {
    let a = IntRule::GreaterThan { value: 1 };
    let b = IntRule::GreaterThan { value: 2 };
    let c = IntRule::Zero;

    let tree = a.and(b).or(c);
    match &tree {
        SpecificationCompositions::Or(children) => {
            assert_eq!(children.len(), 2);
            assert!(matches!(children[0], SpecificationCompositions::And(..)));
            assert!(matches!(children[1], SpecificationCompositions::Specification(..)));
        },
        _ => panic!("expected an Or node"),
    }
}

#[test]
fn test_double_invert() {
    let zero = IntRule::Zero;
    let twice = zero.invert().invert();

    match &twice {
        SpecificationCompositions::Invert(inner) => {
            assert!(matches!(**inner, SpecificationCompositions::Invert(..)));
        },
        _ => panic!("expected an Invert node"),
    }

    assert!(twice.is_satisfied_by(&0) == zero.is_satisfied_by(&0));
    assert!(twice.is_satisfied_by(&7) == zero.is_satisfied_by(&7));
}

#[test]
fn test_invert_semantics() {
    let zero = IntRule::Zero;
    let not_zero = zero.invert();

    assert!(!not_zero.is_satisfied_by(&0));
    assert!(not_zero.is_satisfied_by(&7));
}

#[test]
fn test_constants() {
    let always: SpecificationCompositions<IntRule> = SpecificationCompositions::True;
    let never: SpecificationCompositions<IntRule> = SpecificationCompositions::False;

    assert!(always.is_satisfied_by(&0));
    assert!(!never.is_satisfied_by(&0));
    assert!(always.reminder_unsatisfied_by(&0).is_none());
    assert!(never.reminder_unsatisfied_by(&0).is_none());
}
