//! The engine's laws, stated and proved over the model.
//!
//! Each law is a public proof function: its parameters are the trees and
//! candidates it quantifies over, and its conclusion is stated over the same
//! spec functions that the executable functions' contracts use.

use vstd::prelude::*;

use crate::composition::Specification;
use crate::model::CompositionModel;
use crate::model::all_sat;
use crate::model::any_sat;
use crate::model::count_sat;
use crate::model::lemma_all_sat_concat;
use crate::model::lemma_all_sat_is_forall;
use crate::model::lemma_any_sat_concat;
use crate::model::lemma_any_sat_is_exists;
use crate::model::lemma_count_sat_concat;
use crate::model::lemma_operands_sat;
use crate::reminder::collect_reminders;

verus! {

/// Wrapping a rule as a leaf changes nothing: the leaf is satisfied exactly
/// when the rule itself is.
pub proof fn lemma_leaf_sat_is_rule_sat<T, R: Specification<T>>(rule: R, candidate: T)
    ensures
        CompositionModel::Specification(rule).sat(candidate) == rule.spec_satisfied_by(
            &candidate,
        ),
{
}

/// An `and` combination is satisfied exactly when both operands are.
pub proof fn lemma_and_is_conjunction<T, R: Specification<T>>(
    a: CompositionModel<R>,
    b: CompositionModel<R>,
    candidate: T,
)
    ensures
        a.spec_and(b).sat(candidate) == (a.sat(candidate) && b.sat(candidate)),
{
    lemma_all_sat_concat(a.and_operands(), b.and_operands(), candidate);
    lemma_operands_sat(a, candidate);
    lemma_operands_sat(b, candidate);
}

/// An `or` combination is satisfied exactly when at least one operand is.
pub proof fn lemma_or_is_disjunction<T, R: Specification<T>>(
    a: CompositionModel<R>,
    b: CompositionModel<R>,
    candidate: T,
)
    ensures
        a.spec_or(b).sat(candidate) == (a.sat(candidate) || b.sat(candidate)),
{
    lemma_any_sat_concat(a.or_operands(), b.or_operands(), candidate);
    lemma_operands_sat(a, candidate);
    lemma_operands_sat(b, candidate);
}

/// A `xor` combination of operands that are not themselves `Xor` nodes is
/// satisfied exactly when exactly one operand is.  (When an operand is a
/// `Xor` node, its children are flattened into the combination, whose
/// exactly-one-satisfied reading is then taken over the flattened list.)
pub proof fn lemma_xor_is_exactly_one<T, R: Specification<T>>(
    a: CompositionModel<R>,
    b: CompositionModel<R>,
    candidate: T,
)
    requires
        !(a is Xor),
        !(b is Xor),
    ensures
        a.spec_xor(b).sat(candidate) == (a.sat(candidate) != b.sat(candidate)),
{
    lemma_count_sat_concat(a.xor_operands(), b.xor_operands(), candidate);
    lemma_operands_sat(a, candidate);
    lemma_operands_sat(b, candidate);
}

/// Conjoining in either order gives semantically equal trees: flattening
/// associativity for `and`.
pub proof fn lemma_and_flattening_associative<T, R: Specification<T>>(
    a: CompositionModel<R>,
    b: CompositionModel<R>,
    c: CompositionModel<R>,
    candidate: T,
)
    ensures
        a.spec_and(b).spec_and(c).sat(candidate) == a.spec_and(b.spec_and(c)).sat(candidate),
{
    lemma_and_is_conjunction(a, b, candidate);
    lemma_and_is_conjunction(a.spec_and(b), c, candidate);
    lemma_and_is_conjunction(b, c, candidate);
    lemma_and_is_conjunction(a, b.spec_and(c), candidate);
}

/// Double inversion keeps both explicit `Invert` layers, yet is satisfied
/// exactly when the tree underneath is.
pub proof fn lemma_double_invert<T, R: Specification<T>>(a: CompositionModel<R>, candidate: T)
    ensures
        a.spec_invert().spec_invert().sat(candidate) == a.sat(candidate),
        a.spec_invert().spec_invert() == CompositionModel::Invert(Box::new(a.spec_invert())),
{
    let once = a.spec_invert();
    let twice = once.spec_invert();
    assert(once.sat(candidate) == !a.sat(candidate));
    assert(twice.sat(candidate) == !once.sat(candidate));
}

/// Remainder soundness: a returned remainder always evaluates false for the
/// same candidate.
pub proof fn lemma_reminder_sound<T, R: Specification<T>>(n: CompositionModel<R>, candidate: T)
    ensures
        (n.reminder(candidate) matches Some(rem) ==> !rem.sat(candidate)),
    decreases n,
{
    match n {
        CompositionModel::And(children) => {
            lemma_collect_reminders_sound(children, candidate);
            let rems = collect_reminders(children, candidate);
            if rems.len() >= 2 {
                lemma_all_sat_is_forall(rems, candidate);
                assert(!rems[0].sat(candidate));
            }
        },
        CompositionModel::Or(children) => {
            lemma_collect_reminders_sound(children, candidate);
            let rems = collect_reminders(children, candidate);
            if rems.len() >= 2 {
                lemma_any_sat_is_exists(rems, candidate);
            }
        },
        CompositionModel::Xor(children) => {
            lemma_collect_reminders_sound(children, candidate);
            let rems = collect_reminders(children, candidate);
            if rems.len() >= 2 {
                lemma_count_sat_all_unsat(rems, candidate);
            }
        },
        CompositionModel::Invert(child) => {
            lemma_reminder_sound(*child, candidate);
        },
        _ => {},
    }
}

/// Every collected remainder is unsatisfied.
pub proof fn lemma_collect_reminders_sound<T, R: Specification<T>>(
    s: Seq<CompositionModel<R>>,
    candidate: T,
)
    ensures
        forall|i: int|
            0 <= i < collect_reminders(s, candidate).len() ==> !(#[trigger] collect_reminders(
                s,
                candidate,
            )[i].sat(candidate)),
    decreases s,
{
    if s.len() > 0 {
        lemma_collect_reminders_sound(s.drop_last(), candidate);
        lemma_reminder_sound(s.last(), candidate);
        let pre = collect_reminders(s.drop_last(), candidate);
        let whole = collect_reminders(s, candidate);
        assert forall|i: int| 0 <= i < whole.len() implies !(#[trigger] whole[i].sat(
            candidate,
        )) by {
            if i < pre.len() {
                assert(whole[i] == pre[i]);
            }
        }
    }
}

/// A sequence without one satisfied model counts zero satisfied models.
pub proof fn lemma_count_sat_all_unsat<T, R: Specification<T>>(
    s: Seq<CompositionModel<R>>,
    candidate: T,
)
    requires
        forall|i: int| 0 <= i < s.len() ==> !(#[trigger] s[i].sat(candidate)),
    ensures
        count_sat(s, candidate) == 0,
    decreases s,
{
    if s.len() > 0 {
        assert(forall|i: int| 0 <= i < s.len() - 1 ==> #[trigger] s.drop_last()[i] == s[i]);
        lemma_count_sat_all_unsat(s.drop_last(), candidate);
        assert(!s[s.len() - 1].sat(candidate));
        assert(s.last() == s[s.len() - 1]);
        assert(count_sat(s, candidate) == count_sat(s.drop_last(), candidate) + (
        if s.last().sat(candidate) {
            1nat
        } else {
            0nat
        }));
    }
}

impl<R> CompositionModel<R> {
    /// A tree built of leaves and `And` nodes only.
    pub open spec fn conjunctive(self) -> bool
        decreases self,
    {
        match self {
            CompositionModel::Specification(_) => true,
            CompositionModel::And(children) => all_conjunctive(children),
            _ => false,
        }
    }
}

/// Whether every model in `s` is built of leaves and `And` nodes only.
pub open spec fn all_conjunctive<R>(s: Seq<CompositionModel<R>>) -> bool
    decreases s,
{
    s.len() == 0 || (all_conjunctive(s.drop_last()) && s.last().conjunctive())
}

/// Over a tree of leaves and `And` nodes only, the remainder is absent
/// exactly when the tree is satisfied.  (Over other trees only soundness
/// holds: an `Or` may report the remainders of its unsatisfied children
/// even while it is satisfied, an unsatisfied `Invert` or `False` reports
/// nothing, and a `Xor` failing through several satisfied children reports
/// nothing either.)
pub proof fn lemma_reminder_none_iff_sat<T, R: Specification<T>>(
    n: CompositionModel<R>,
    candidate: T,
)
    requires
        n.conjunctive(),
    ensures
        (n.reminder(candidate) is None) == n.sat(candidate),
    decreases n,
{
    match n {
        CompositionModel::And(children) => {
            lemma_collect_empty_iff_all_sat(children, candidate);
        },
        _ => {},
    }
}

/// Over models built of leaves and `And` nodes only, nothing is collected
/// exactly when every model is satisfied.
pub proof fn lemma_collect_empty_iff_all_sat<T, R: Specification<T>>(
    s: Seq<CompositionModel<R>>,
    candidate: T,
)
    requires
        all_conjunctive(s),
    ensures
        (collect_reminders(s, candidate).len() == 0) == all_sat(s, candidate),
    decreases s,
{
    if s.len() > 0 {
        lemma_collect_empty_iff_all_sat(s.drop_last(), candidate);
        lemma_reminder_none_iff_sat(s.last(), candidate);
    }
}

} // verus!
