//! Evaluating a composition tree against a candidate.

use vstd::prelude::*;

use crate::composition::Specification;
use crate::composition::SpecificationCompositions;
use crate::model::CompositionModel;
use crate::model::count_sat;
use crate::model::lemma_all_sat_is_forall;
use crate::model::lemma_any_sat_is_exists;

verus! {

impl<R> SpecificationCompositions<R> {
    /// Decide whether `candidate` satisfies this tree, by a pure recursive
    /// walk: every child for `And`, at least one for `Or`, exactly one for
    /// `Xor`, the negated child for `Invert`, and the rule itself for a
    /// leaf.
    pub fn evaluate<T>(&self, candidate: &T) -> (r: bool) where R: Specification<T>
        ensures
            r == self@.sat(*candidate),
        decreases *self,
    {
        match self {
            SpecificationCompositions::Specification(f) => f.is_satisfied_by(candidate),
            SpecificationCompositions::And(children) => {
                proof {
                    Self::lemma_models_is_map(children@);
                }
                Self::all_satisfied(children, candidate)
            },
            SpecificationCompositions::Or(children) => {
                proof {
                    Self::lemma_models_is_map(children@);
                }
                Self::any_satisfied(children, candidate)
            },
            SpecificationCompositions::Xor(children) => {
                proof {
                    Self::lemma_models_is_map(children@);
                }
                Self::count_satisfied(children, candidate) == 1
            },
            SpecificationCompositions::Invert(child) => !child.evaluate(candidate),
            SpecificationCompositions::True => true,
            SpecificationCompositions::False => false,
        }
    }

    /// Whether every tree in `children` is satisfied by `candidate`.
    fn all_satisfied<T>(children: &Vec<SpecificationCompositions<R>>, candidate: &T) -> (r:
        bool) where R: Specification<T>
        ensures
            r == CompositionModel::And(Self::models(children@)).sat(*candidate),
        decreases *children,
    {
        let ghost ms = Self::models(children@);
        proof {
            Self::lemma_models_is_map(children@);
        }
        let mut i: usize = 0;
        while i < children.len()
            invariant
                i <= children@.len(),
                ms == Self::models(children@),
                ms.len() == children@.len(),
                forall|j: int| 0 <= j < children@.len() ==> #[trigger] ms[j]
                    == children@[j].model(),
                forall|j: int| 0 <= j < i ==> #[trigger] ms[j].sat(*candidate),
            decreases children@.len() - i,
        {
            if !children[i].evaluate(candidate) {
                proof {
                    lemma_all_sat_is_forall(ms, *candidate);
                    assert(!ms[i as int].sat(*candidate));
                }
                return false;
            }
            i = i + 1;
        }
        proof {
            lemma_all_sat_is_forall(ms, *candidate);
        }
        true
    }

    /// Whether at least one tree in `children` is satisfied by `candidate`.
    fn any_satisfied<T>(children: &Vec<SpecificationCompositions<R>>, candidate: &T) -> (r:
        bool) where R: Specification<T>
        ensures
            r == CompositionModel::Or(Self::models(children@)).sat(*candidate),
        decreases *children,
    {
        let ghost ms = Self::models(children@);
        proof {
            Self::lemma_models_is_map(children@);
        }
        let mut i: usize = 0;
        while i < children.len()
            invariant
                i <= children@.len(),
                ms == Self::models(children@),
                ms.len() == children@.len(),
                forall|j: int| 0 <= j < children@.len() ==> #[trigger] ms[j]
                    == children@[j].model(),
                forall|j: int| 0 <= j < i ==> !(#[trigger] ms[j].sat(*candidate)),
            decreases children@.len() - i,
        {
            if children[i].evaluate(candidate) {
                proof {
                    lemma_any_sat_is_exists(ms, *candidate);
                    assert(ms[i as int].sat(*candidate));
                }
                return true;
            }
            i = i + 1;
        }
        proof {
            lemma_any_sat_is_exists(ms, *candidate);
        }
        false
    }

    /// How many trees in `children` are satisfied by `candidate`.
    fn count_satisfied<T>(children: &Vec<SpecificationCompositions<R>>, candidate: &T) -> (r:
        usize) where R: Specification<T>
        ensures
            r as nat == count_sat(Self::models(children@), *candidate),
        decreases *children,
    {
        let ghost ms = Self::models(children@);
        proof {
            Self::lemma_models_is_map(children@);
        }
        let mut satisfied: usize = 0;
        let mut i: usize = 0;
        while i < children.len()
            invariant
                i <= children@.len(),
                ms == Self::models(children@),
                ms.len() == children@.len(),
                forall|j: int| 0 <= j < children@.len() ==> #[trigger] ms[j]
                    == children@[j].model(),
                satisfied <= i,
                satisfied as nat == count_sat(ms.subrange(0, i as int), *candidate),
            decreases children@.len() - i,
        {
            if children[i].evaluate(candidate) {
                satisfied = satisfied + 1;
            }
            proof {
                let sub = ms.subrange(0, (i + 1) as int);
                assert(sub.drop_last() =~= ms.subrange(0, i as int));
                assert(sub.last() == ms[i as int]);
            }
            i = i + 1;
        }
        proof {
            assert(ms.subrange(0, children@.len() as int) =~= ms);
        }
        satisfied
    }
}

impl<T, R: Specification<T>> Specification<T> for SpecificationCompositions<R> {
    open spec fn spec_satisfied_by(&self, candidate: &T) -> bool {
        self@.sat(*candidate)
    }

    fn is_satisfied_by(&self, candidate: &T) -> (r: bool) {
        self.evaluate(candidate)
    }
}

} // verus!
