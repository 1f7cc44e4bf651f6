use specification::IntRule;
use specification::Specification;
use specification::SpecificationCompositions;
use specification::yes_or_no;

#[test]
fn test_render_leaf() {
    let greater_than_5 = IntRule::GreaterThan { value: 5 };
    assert_eq!(greater_than_5.composite().render(), "greater than threshold");
}

#[test]
fn test_render_combinators() {
    let greater_than_5 = IntRule::GreaterThan { value: 5 };
    let less_than_10 = IntRule::LessThan { value: 10 };
    let zero = IntRule::Zero;

    let conjunction = greater_than_5.and(less_than_10);
    assert_eq!(conjunction.render(), "(greater than threshold and less than threshold)");

    let tree = greater_than_5.and(less_than_10).or(zero);
    assert_eq!(
        tree.render(),
        "((greater than threshold and less than threshold) or equals zero)"
    );

    let one_of = greater_than_5.xor(zero);
    assert_eq!(one_of.render(), "(greater than threshold xor equals zero)");
}

#[test]
fn test_render_invert_and_constants() {
    let zero = IntRule::Zero;
    assert_eq!(zero.invert().render(), "not equals zero");

    let always: SpecificationCompositions<IntRule> = SpecificationCompositions::True;
    let never: SpecificationCompositions<IntRule> = SpecificationCompositions::False;
    assert_eq!(always.render(), "true");
    assert_eq!(never.render(), "false");
}

#[test]
fn test_yes_or_no() {
    assert_eq!(yes_or_no(true), "Yes");
    assert_eq!(yes_or_no(false), "No");
}
