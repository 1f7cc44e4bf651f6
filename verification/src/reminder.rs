//! Explaining a failed evaluation: the remainder of a tree.
//!
//! The remainder of a dissatisfied tree is the minimal sub-tree of rules
//! responsible for the failure.  Each unsatisfied child contributes its own
//! remainder; a single collected remainder is returned unwrapped, several are
//! wrapped in a node of the parent's kind, and none means there is nothing
//! to report.

use vstd::prelude::*;

use crate::composition::Specification;
use crate::composition::SpecificationCompositions;
use crate::model::CompositionModel;

verus! {

impl<R> CompositionModel<R> {
    /// The remainder of this model for `candidate`: nothing for a satisfied
    /// leaf or a constant, the leaf itself for an unsatisfied leaf, the
    /// child's remainder for `Invert`, and for a combinator the remainders
    /// collected from its unsatisfied children, unwrapped when there is
    /// exactly one.
    pub open spec fn reminder<T>(self, candidate: T) -> Option<CompositionModel<R>> where
        R: Specification<T>
        decreases self,
    {
        match self {
            CompositionModel::Specification(r) => if r.spec_satisfied_by(&candidate) {
                None
            } else {
                Some(self)
            },
            CompositionModel::And(children) => {
                let rems = collect_reminders(children, candidate);
                if rems.len() == 0 {
                    None
                } else if rems.len() == 1 {
                    Some(rems[0])
                } else {
                    Some(CompositionModel::And(rems))
                }
            },
            CompositionModel::Or(children) => {
                let rems = collect_reminders(children, candidate);
                if rems.len() == 0 {
                    None
                } else if rems.len() == 1 {
                    Some(rems[0])
                } else {
                    Some(CompositionModel::Or(rems))
                }
            },
            CompositionModel::Xor(children) => {
                let rems = collect_reminders(children, candidate);
                if rems.len() == 0 {
                    None
                } else if rems.len() == 1 {
                    Some(rems[0])
                } else {
                    Some(CompositionModel::Xor(rems))
                }
            },
            CompositionModel::Invert(child) => child.reminder(candidate),
            CompositionModel::True => None,
            CompositionModel::False => None,
        }
    }
}

/// The remainders contributed by the unsatisfied models in `s`, in order:
/// a model contributes its remainder when it is unsatisfied and has one.
pub open spec fn collect_reminders<T, R: Specification<T>>(
    s: Seq<CompositionModel<R>>,
    candidate: T,
) -> Seq<CompositionModel<R>>
    decreases s,
{
    if s.len() == 0 {
        Seq::empty()
    } else {
        collect_reminders(s.drop_last(), candidate) + (if !s.last().sat(candidate) {
            match s.last().reminder(candidate) {
                Some(rem) => seq![rem],
                None => Seq::empty(),
            }
        } else {
            Seq::<CompositionModel<R>>::empty()
        })
    }
}

impl<R> SpecificationCompositions<R> {
    /// `models` turns a push into a push of the model.
    pub proof fn lemma_models_push(s: Seq<SpecificationCompositions<R>>, x: SpecificationCompositions<R>)
        ensures
            Self::models(s.push(x)) == Self::models(s).push(x.model()),
    {
        assert(s.push(x).drop_last() =~= s);
        assert(s.push(x).last() == x);
    }

    /// The remainder of this tree for `candidate`: nothing if there is
    /// nothing to report, otherwise the minimal sub-tree of rules
    /// responsible for the failed evaluation.  A returned remainder always
    /// evaluates false for the same candidate.
    pub fn reminder_unsatisfied_by<T>(&self, candidate: &T) -> (r: Option<
        SpecificationCompositions<R>,
    >) where R: Specification<T> + Copy
        ensures
            (match r {
                Some(rem) => self@.reminder(*candidate) == Some(rem@),
                None => self@.reminder(*candidate) is None,
            }),
            (r matches Some(rem) ==> !rem@.sat(*candidate)),
        decreases *self,
    {
        proof {
            crate::laws::lemma_reminder_sound(self@, *candidate);
        }
        match self {
            SpecificationCompositions::Specification(f) => {
                if f.is_satisfied_by(candidate) {
                    None
                } else {
                    Some(SpecificationCompositions::Specification(*f))
                }
            },
            SpecificationCompositions::And(children) => {
                let mut unsatisfied = Self::collect_unsatisfied(children, candidate);
                proof {
                    Self::lemma_models_is_map(unsatisfied@);
                }
                if unsatisfied.len() == 0 {
                    None
                } else if unsatisfied.len() == 1 {
                    Some(unsatisfied.remove(0))
                } else {
                    Some(SpecificationCompositions::And(unsatisfied))
                }
            },
            SpecificationCompositions::Or(children) => {
                let mut unsatisfied = Self::collect_unsatisfied(children, candidate);
                proof {
                    Self::lemma_models_is_map(unsatisfied@);
                }
                if unsatisfied.len() == 0 {
                    None
                } else if unsatisfied.len() == 1 {
                    Some(unsatisfied.remove(0))
                } else {
                    Some(SpecificationCompositions::Or(unsatisfied))
                }
            },
            SpecificationCompositions::Xor(children) => {
                let mut unsatisfied = Self::collect_unsatisfied(children, candidate);
                proof {
                    Self::lemma_models_is_map(unsatisfied@);
                }
                if unsatisfied.len() == 0 {
                    None
                } else if unsatisfied.len() == 1 {
                    Some(unsatisfied.remove(0))
                } else {
                    Some(SpecificationCompositions::Xor(unsatisfied))
                }
            },
            SpecificationCompositions::Invert(child) => child.reminder_unsatisfied_by(candidate),
            SpecificationCompositions::True => None,
            SpecificationCompositions::False => None,
        }
    }

    /// Collect the remainders of the unsatisfied trees in `children`.
    fn collect_unsatisfied<T>(
        children: &Vec<SpecificationCompositions<R>>,
        candidate: &T,
    ) -> (r: Vec<SpecificationCompositions<R>>) where R: Specification<T> + Copy
        ensures
            Self::models(r@) == collect_reminders(Self::models(children@), *candidate),
        decreases *children,
    {
        let ghost ms = Self::models(children@);
        proof {
            Self::lemma_models_is_map(children@);
        }
        let mut unsatisfied: Vec<SpecificationCompositions<R>> = Vec::new();
        let mut i: usize = 0;
        while i < children.len()
            invariant
                i <= children@.len(),
                ms == Self::models(children@),
                ms.len() == children@.len(),
                forall|j: int| 0 <= j < children@.len() ==> #[trigger] ms[j]
                    == children@[j].model(),
                Self::models(unsatisfied@) == collect_reminders(
                    ms.subrange(0, i as int),
                    *candidate,
                ),
            decreases children@.len() - i,
        {
            let ghost pre = unsatisfied@;
            if !children[i].evaluate(candidate) {
                if let Some(rem) = children[i].reminder_unsatisfied_by(candidate) {
                    proof {
                        Self::lemma_models_push(pre, rem);
                    }
                    unsatisfied.push(rem);
                }
            }
            proof {
                let sub = ms.subrange(0, (i + 1) as int);
                assert(sub.drop_last() =~= ms.subrange(0, i as int));
                assert(sub.last() == ms[i as int]);
                assert(Self::models(unsatisfied@) =~= collect_reminders(sub, *candidate));
            }
            i = i + 1;
        }
        proof {
            assert(ms.subrange(0, children@.len() as int) =~= ms);
        }
        unsatisfied
    }
}

} // verus!
