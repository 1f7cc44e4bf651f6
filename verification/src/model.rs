//! The mathematical model of a composition tree.
//!
//! `CompositionModel` mirrors the executable tree with `Seq` children, so that
//! contracts can construct and compare tree values in ghost code.  All
//! semantic spec functions (satisfaction, combination, inversion) are defined
//! here, over the model.

use vstd::prelude::*;

use crate::composition::Specification;

verus! {

/// The ghost counterpart of a composition tree: a leaf rule, a variadic
/// combinator over a sequence of child models, an inverted child, or one of
/// the two constants.
pub enum CompositionModel<R> {
    Specification(R),
    And(Seq<CompositionModel<R>>),
    Or(Seq<CompositionModel<R>>),
    Xor(Seq<CompositionModel<R>>),
    Invert(Box<CompositionModel<R>>),
    True,
    False,
}

impl<R> CompositionModel<R> {
    /// What this model contributes to an `And` combination: an `And` node
    /// contributes its children, anything else contributes itself.
    pub open spec fn and_operands(self) -> Seq<CompositionModel<R>> {
        match self {
            CompositionModel::And(children) => children,
            _ => seq![self],
        }
    }

    /// What this model contributes to an `Or` combination.
    pub open spec fn or_operands(self) -> Seq<CompositionModel<R>> {
        match self {
            CompositionModel::Or(children) => children,
            _ => seq![self],
        }
    }

    /// What this model contributes to a `Xor` combination.
    pub open spec fn xor_operands(self) -> Seq<CompositionModel<R>> {
        match self {
            CompositionModel::Xor(children) => children,
            _ => seq![self],
        }
    }

    /// The conjunction of two models, flattened one level on each side.
    /// Flattening never crosses operator kinds.
    pub open spec fn spec_and(self, other: Self) -> Self {
        CompositionModel::And(self.and_operands() + other.and_operands())
    }

    /// The disjunction of two models, flattened one level on each side.
    pub open spec fn spec_or(self, other: Self) -> Self {
        CompositionModel::Or(self.or_operands() + other.or_operands())
    }

    /// The exactly-one-of combination of two models, flattened one level on
    /// each side.
    pub open spec fn spec_xor(self, other: Self) -> Self {
        CompositionModel::Xor(self.xor_operands() + other.xor_operands())
    }

    /// The negation of a model.  Double negation is kept as explicit
    /// structure, never simplified away.
    pub open spec fn spec_invert(self) -> Self {
        CompositionModel::Invert(Box::new(self))
    }

    /// Whether `candidate` satisfies this tree: a leaf asks its rule, `And`
    /// requires every child, `Or` at least one child, `Xor` exactly one
    /// child, `Invert` negates its child, and the constants answer
    /// themselves.
    pub open spec fn sat<T>(self, candidate: T) -> bool where R: Specification<T>
        decreases self,
    {
        match self {
            CompositionModel::Specification(r) => r.spec_satisfied_by(&candidate),
            CompositionModel::And(children) => all_sat(children, candidate),
            CompositionModel::Or(children) => any_sat(children, candidate),
            CompositionModel::Xor(children) => count_sat(children, candidate) == 1,
            CompositionModel::Invert(child) => !child.sat(candidate),
            CompositionModel::True => true,
            CompositionModel::False => false,
        }
    }
}

/// Whether every model in `s` is satisfied by `candidate`.
pub open spec fn all_sat<T, R: Specification<T>>(
    s: Seq<CompositionModel<R>>,
    candidate: T,
) -> bool
    decreases s,
{
    s.len() == 0 || (all_sat(s.drop_last(), candidate) && s.last().sat(candidate))
}

/// Whether at least one model in `s` is satisfied by `candidate`.
pub open spec fn any_sat<T, R: Specification<T>>(
    s: Seq<CompositionModel<R>>,
    candidate: T,
) -> bool
    decreases s,
{
    s.len() > 0 && (any_sat(s.drop_last(), candidate) || s.last().sat(candidate))
}

/// `all_sat` asks exactly that each element be satisfied.
pub proof fn lemma_all_sat_is_forall<T, R: Specification<T>>(
    s: Seq<CompositionModel<R>>,
    candidate: T,
)
    ensures
        all_sat(s, candidate) == (forall|i: int|
            0 <= i < s.len() ==> #[trigger] s[i].sat(candidate)),
    decreases s,
{
    if s.len() > 0 {
        lemma_all_sat_is_forall(s.drop_last(), candidate);
        assert(s.last() == s[s.len() - 1]);
        assert(forall|i: int| 0 <= i < s.len() - 1 ==> #[trigger] s.drop_last()[i] == s[i]);
        if all_sat(s, candidate) {
            assert forall|i: int| 0 <= i < s.len() implies #[trigger] s[i].sat(candidate) by {
                if i < s.len() - 1 {
                    assert(s.drop_last()[i].sat(candidate));
                }
            }
        } else if forall|i: int| 0 <= i < s.len() ==> #[trigger] s[i].sat(candidate) {
            assert forall|i: int| 0 <= i < s.drop_last().len() implies #[trigger] s.drop_last()[i]
                .sat(candidate) by {
                assert(s[i].sat(candidate));
            }
            assert(all_sat(s.drop_last(), candidate) && s.last().sat(candidate));
            assert(false);
        }
    }
}

/// `any_sat` asks exactly that some element be satisfied.
pub proof fn lemma_any_sat_is_exists<T, R: Specification<T>>(
    s: Seq<CompositionModel<R>>,
    candidate: T,
)
    ensures
        any_sat(s, candidate) == (exists|i: int|
            0 <= i < s.len() && #[trigger] s[i].sat(candidate)),
    decreases s,
{
    if s.len() > 0 {
        lemma_any_sat_is_exists(s.drop_last(), candidate);
        assert(forall|i: int|
            0 <= i < s.len() - 1 ==> #[trigger] s[i].sat(candidate) == s.drop_last()[i].sat(
                candidate,
            ));
        if any_sat(s, candidate) {
            if s.last().sat(candidate) {
                assert(s[s.len() - 1].sat(candidate));
            } else {
                let i = choose|i: int|
                    0 <= i < s.len() - 1 && #[trigger] s.drop_last()[i].sat(candidate);
                assert(s[i].sat(candidate));
            }
        } else {
            if exists|i: int| 0 <= i < s.len() && #[trigger] s[i].sat(candidate) {
                let i = choose|i: int| 0 <= i < s.len() && #[trigger] s[i].sat(candidate);
                if i < s.len() - 1 {
                    assert(s.drop_last()[i].sat(candidate));
                }
            }
        }
    }
}

/// How many of the models in `s` are satisfied by `candidate`.
pub open spec fn count_sat<T, R: Specification<T>>(
    s: Seq<CompositionModel<R>>,
    candidate: T,
) -> nat
    decreases s,
{
    if s.len() == 0 {
        0
    } else {
        count_sat(s.drop_last(), candidate) + if s.last().sat(candidate) {
            1nat
        } else {
            0nat
        }
    }
}

/// `all_sat` distributes over concatenation.
pub proof fn lemma_all_sat_concat<T, R: Specification<T>>(
    s1: Seq<CompositionModel<R>>,
    s2: Seq<CompositionModel<R>>,
    candidate: T,
)
    ensures
        all_sat(s1 + s2, candidate) == (all_sat(s1, candidate) && all_sat(s2, candidate)),
    decreases s2,
{
    if s2.len() == 0 {
        assert(s1 + s2 =~= s1);
    } else {
        lemma_all_sat_concat(s1, s2.drop_last(), candidate);
        assert((s1 + s2).drop_last() =~= s1 + s2.drop_last());
        assert((s1 + s2).last() == s2.last());
    }
}

/// `any_sat` distributes over concatenation.
pub proof fn lemma_any_sat_concat<T, R: Specification<T>>(
    s1: Seq<CompositionModel<R>>,
    s2: Seq<CompositionModel<R>>,
    candidate: T,
)
    ensures
        any_sat(s1 + s2, candidate) == (any_sat(s1, candidate) || any_sat(s2, candidate)),
    decreases s2,
{
    if s2.len() == 0 {
        assert(s1 + s2 =~= s1);
    } else {
        lemma_any_sat_concat(s1, s2.drop_last(), candidate);
        assert((s1 + s2).drop_last() =~= s1 + s2.drop_last());
        assert((s1 + s2).last() == s2.last());
    }
}

/// `count_sat` adds up over concatenation.
pub proof fn lemma_count_sat_concat<T, R: Specification<T>>(
    s1: Seq<CompositionModel<R>>,
    s2: Seq<CompositionModel<R>>,
    candidate: T,
)
    ensures
        count_sat(s1 + s2, candidate) == count_sat(s1, candidate) + count_sat(s2, candidate),
    decreases s2,
{
    if s2.len() == 0 {
        assert(s1 + s2 =~= s1);
    } else {
        lemma_count_sat_concat(s1, s2.drop_last(), candidate);
        assert((s1 + s2).drop_last() =~= s1 + s2.drop_last());
        assert((s1 + s2).last() == s2.last());
    }
}

/// Over a single model, `all_sat`, `any_sat` and `count_sat` reduce to that
/// model's own satisfaction.
pub proof fn lemma_sat_singleton<T, R: Specification<T>>(m: CompositionModel<R>, candidate: T)
    ensures
        all_sat(seq![m], candidate) == m.sat(candidate),
        any_sat(seq![m], candidate) == m.sat(candidate),
        count_sat(seq![m], candidate) == (if m.sat(candidate) {
            1nat
        } else {
            0nat
        }),
{
    let s = seq![m];
    assert(s.drop_last() =~= Seq::<CompositionModel<R>>::empty());
    assert(s.last() == m);
    assert(all_sat(s, candidate) == (all_sat(s.drop_last(), candidate) && s.last().sat(
        candidate,
    )));
    assert(all_sat(s.drop_last(), candidate));
    assert(any_sat(s, candidate) == (any_sat(s.drop_last(), candidate) || s.last().sat(
        candidate,
    )));
    assert(!any_sat(s.drop_last(), candidate));
    assert(count_sat(s, candidate) == count_sat(s.drop_last(), candidate) + (
    if s.last().sat(candidate) {
        1nat
    } else {
        0nat
    }));
    assert(count_sat(s.drop_last(), candidate) == 0);
}

/// The satisfaction of a model's `And` operands is the satisfaction of the
/// model itself, and likewise for `Or` and `Xor` operands.
pub proof fn lemma_operands_sat<T, R: Specification<T>>(m: CompositionModel<R>, candidate: T)
    ensures
        all_sat(m.and_operands(), candidate) == m.sat(candidate),
        any_sat(m.or_operands(), candidate) == m.sat(candidate),
        count_sat(m.xor_operands(), candidate) == (if m is Xor {
            count_sat(m->Xor_0, candidate)
        } else if m.sat(candidate) {
            1nat
        } else {
            0nat
        }),
{
    if !(m is And) {
        lemma_sat_singleton(m, candidate);
    }
    if !(m is Or) {
        lemma_sat_singleton(m, candidate);
    }
    if !(m is Xor) {
        lemma_sat_singleton(m, candidate);
    }
}

} // verus!
