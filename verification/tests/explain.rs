use specification::IntRule;
use specification::Specification;
use specification::SpecificationCompositions;

#[test]
fn test_reminder_is_unwrapped_single_leaf() {
    let greater_than_5 = IntRule::GreaterThan { value: 5 };
    let less_than_10 = IntRule::LessThan { value: 10 };
    let specification = greater_than_5.and(less_than_10);

    // the only failing child is greater_than_5, returned unwrapped
    match specification.reminder_unsatisfied_by(&3) {
        Some(SpecificationCompositions::Specification(rule)) => {
            assert_eq!(rule, IntRule::GreaterThan { value: 5 });
        },
        _ => panic!("expected a single unwrapped leaf"),
    }
}

#[test]
fn test_reminder_keeps_all_failing_children() {
    let greater_than_5 = IntRule::GreaterThan { value: 5 };
    let zero = IntRule::Zero;
    let both = greater_than_5.and(zero);

    // both children fail at 3: the remainder is an And of both leaves
    match both.reminder_unsatisfied_by(&3) {
        Some(SpecificationCompositions::And(children)) => {
            assert_eq!(children.len(), 2);
            assert!(matches!(
                children[0],
                SpecificationCompositions::Specification(IntRule::GreaterThan { value: 5 })
            ));
            assert!(matches!(
                children[1],
                SpecificationCompositions::Specification(IntRule::Zero)
            ));
        },
        _ => panic!("expected an And of two leaves"),
    }
}

#[test]
fn test_reminder_of_or() {
    let greater_than_5 = IntRule::GreaterThan { value: 5 };
    let zero = IntRule::Zero;
    let either = greater_than_5.or(zero);

    // every child is satisfied: nothing to report
    let less_than_10 = IntRule::LessThan { value: 10 };
    assert!(greater_than_5.or(less_than_10).reminder_unsatisfied_by(&6).is_none());

    // the or is satisfied at 6, yet its one unsatisfied child still reports
    match either.reminder_unsatisfied_by(&6) {
        Some(SpecificationCompositions::Specification(rule)) => {
            assert_eq!(rule, IntRule::Zero);
        },
        _ => panic!("expected the zero leaf"),
    }

    // every child fails: the remainder keeps them all
    match either.reminder_unsatisfied_by(&3) {
        Some(SpecificationCompositions::Or(children)) => assert_eq!(children.len(), 2),
        _ => panic!("expected an Or of two leaves"),
    }
}

#[test]
fn test_reminder_recurses_into_composite_children() {
    let greater_than_5 = IntRule::GreaterThan { value: 5 };
    let less_than_10 = IntRule::LessThan { value: 10 };
    let zero = IntRule::Zero;
    let tree = zero.composite().and(greater_than_5.or(less_than_10));

    // at 3, zero fails while the inner or holds: only the zero leaf remains
    match tree.reminder_unsatisfied_by(&3) {
        Some(SpecificationCompositions::Specification(rule)) => {
            assert_eq!(rule, IntRule::Zero);
        },
        _ => panic!("expected the zero leaf"),
    }
}

#[test]
fn test_reminder_sound_on_returned_subtree() {
    let greater_than_5 = IntRule::GreaterThan { value: 5 };
    let less_than_10 = IntRule::LessThan { value: 10 };
    let zero = IntRule::Zero;
    let tree = greater_than_5.and(less_than_10).or(zero);

    for candidate in [-1, 0, 3, 6, 33] {
        if let Some(rem) = tree.reminder_unsatisfied_by(&candidate) {
            // a returned remainder always evaluates false for the same candidate
            assert!(!rem.is_satisfied_by(&candidate));
        }
    }
}

#[test]
fn test_reminder_none_iff_satisfied_on_conjunctions() {
    let greater_than_5 = IntRule::GreaterThan { value: 5 };
    let less_than_10 = IntRule::LessThan { value: 10 };
    let tree = greater_than_5.and(less_than_10);

    for candidate in [-1, 0, 3, 6, 9, 10, 33] {
        let satisfied = tree.is_satisfied_by(&candidate);
        assert_eq!(tree.reminder_unsatisfied_by(&candidate).is_none(), satisfied);
    }
}

#[test]
fn test_reminder_of_invert_delegates_to_child() {
    let greater_than_5 = IntRule::GreaterThan { value: 5 };
    let inverted = greater_than_5.invert();

    // the child is satisfied, so the inverted node, though unsatisfied,
    // reports nothing
    assert!(!inverted.is_satisfied_by(&6));
    assert!(inverted.reminder_unsatisfied_by(&6).is_none());

    // the child is unsatisfied, so its own remainder is handed through,
    // though the inverted node itself is satisfied
    assert!(inverted.is_satisfied_by(&3));
    assert!(matches!(
        inverted.reminder_unsatisfied_by(&3),
        Some(SpecificationCompositions::Specification(..))
    ));
}
