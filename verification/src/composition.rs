//! The executable composition tree and its builders.

use vstd::prelude::*;

use crate::model::CompositionModel;

verus! {

/// A descriptive text for a value, used by the renderer for leaf rules.
pub trait Describe: Sized {
    /// The text that `description` returns.
    spec fn spec_description(&self) -> Seq<char>;

    /// A short human-readable description of this value.
    fn description(&self) -> (r: String)
        ensures
            r@ == self.spec_description(),
    ;
}

/// An atomic rule over candidates of type `T`: a pure boolean test.
///
/// `spec_satisfied_by` is the mathematical statement of the test and
/// `is_satisfied_by` is its executable form; an implementation must prove
/// that the two agree.
pub trait Specification<T>: Describe + Sized {
    /// What it means for `candidate` to satisfy this rule.
    spec fn spec_satisfied_by(&self, candidate: &T) -> bool;

    /// Decide whether `candidate` satisfies this rule.
    fn is_satisfied_by(&self, candidate: &T) -> (r: bool)
        ensures
            r == self.spec_satisfied_by(candidate),
    ;

    /// Conjoin this bare rule with another rule or with a tree.
    fn and<O: IntoComposite<Self>>(self, other: O) -> (r: SpecificationCompositions<Self>)
        ensures
            r@ == CompositionModel::Specification(self).spec_and(other.promoted()),
    {
        self.composite().and(other)
    }

    /// Disjoin this bare rule with another rule or with a tree.
    fn or<O: IntoComposite<Self>>(self, other: O) -> (r: SpecificationCompositions<Self>)
        ensures
            r@ == CompositionModel::Specification(self).spec_or(other.promoted()),
    {
        self.composite().or(other)
    }

    /// Combine this bare rule with another rule or with a tree into an
    /// exactly-one-of node.
    fn xor<O: IntoComposite<Self>>(self, other: O) -> (r: SpecificationCompositions<Self>)
        ensures
            r@ == CompositionModel::Specification(self).spec_xor(other.promoted()),
    {
        self.composite().xor(other)
    }

    /// Negate a bare rule.
    fn invert(self) -> (r: SpecificationCompositions<Self>)
        ensures
            r@ == CompositionModel::Specification(self).spec_invert(),
    {
        self.composite().invert()
    }

    /// Lift a bare rule into a leaf node, so that it can be reused as a tree
    /// value.
    fn composite(self) -> (r: SpecificationCompositions<Self>)
        ensures
            r@ == CompositionModel::Specification(self),
    {
        SpecificationCompositions::Specification(self)
    }
}

/// An immutable tree of composed rules: a leaf rule, a variadic combinator
/// (`And`, `Or`, `Xor`) over at least two children when built through the
/// builders, an inverted child, or one of the two constants.
#[derive(Debug)]
pub enum SpecificationCompositions<R> {
    Specification(R),
    And(Vec<SpecificationCompositions<R>>),
    Or(Vec<SpecificationCompositions<R>>),
    Xor(Vec<SpecificationCompositions<R>>),
    Invert(Box<SpecificationCompositions<R>>),
    True,
    False,
}

impl<R> SpecificationCompositions<R> {
    /// The ghost model of this tree.
    pub open spec fn model(self) -> CompositionModel<R>
        decreases self,
    {
        match self {
            SpecificationCompositions::Specification(r) => CompositionModel::Specification(r),
            SpecificationCompositions::And(children) => CompositionModel::And(
                Self::models(children@),
            ),
            SpecificationCompositions::Or(children) => CompositionModel::Or(
                Self::models(children@),
            ),
            SpecificationCompositions::Xor(children) => CompositionModel::Xor(
                Self::models(children@),
            ),
            SpecificationCompositions::Invert(child) => CompositionModel::Invert(
                Box::new((*child).model()),
            ),
            SpecificationCompositions::True => CompositionModel::True,
            SpecificationCompositions::False => CompositionModel::False,
        }
    }

    /// The ghost models of a sequence of trees, element by element.
    pub open spec fn models(s: Seq<SpecificationCompositions<R>>) -> Seq<CompositionModel<R>>
        decreases s,
    {
        if s.len() == 0 {
            Seq::empty()
        } else {
            Self::models(s.drop_last()).push(s.last().model())
        }
    }

    /// `models` maps the sequence element by element.
    pub proof fn lemma_models_is_map(s: Seq<SpecificationCompositions<R>>)
        ensures
            Self::models(s).len() == s.len(),
            forall|i: int| 0 <= i < s.len() ==> #[trigger] Self::models(s)[i] == s[i].model(),
        decreases s,
    {
        if s.len() > 0 {
            Self::lemma_models_is_map(s.drop_last());
        }
    }

    /// `models` distributes over concatenation.
    pub proof fn lemma_models_concat(a: Seq<SpecificationCompositions<R>>, b: Seq<SpecificationCompositions<R>>)
        ensures
            Self::models(a + b) == Self::models(a) + Self::models(b),
    {
        Self::lemma_models_is_map(a);
        Self::lemma_models_is_map(b);
        Self::lemma_models_is_map(a + b);
        assert(Self::models(a + b) =~= Self::models(a) + Self::models(b));
    }

    /// The model sequence of a single tree.
    pub proof fn lemma_models_singleton(x: SpecificationCompositions<R>)
        ensures
            Self::models(seq![x]) == seq![x.model()],
    {
        Self::lemma_models_is_map(seq![x]);
        assert(Self::models(seq![x]) =~= seq![x.model()]);
    }

    /// Conjoin this tree with `other`, flattening one level of `And` on each
    /// side, so that `And` lists never nest through the builders.
    pub fn and<O: IntoComposite<R>>(self, other: O) -> (r: Self)
        ensures
            r@ == self@.spec_and(other.promoted()),
    {
        let other = other.into_composite();
        match self {
            SpecificationCompositions::And(mut children) => match other {
                SpecificationCompositions::And(mut other_children) => {
                    proof {
                        Self::lemma_models_concat(children@, other_children@);
                    }
                    children.append(&mut other_children);
                    SpecificationCompositions::And(children)
                },
                o => {
                    proof {
                        Self::lemma_models_concat(children@, seq![o]);
                        Self::lemma_models_singleton(o);
                        assert(children@.push(o) =~= children@ + seq![o]);
                    }
                    children.push(o);
                    SpecificationCompositions::And(children)
                },
            },
            s => match other {
                SpecificationCompositions::And(mut other_children) => {
                    proof {
                        Self::lemma_models_concat(seq![s], other_children@);
                        Self::lemma_models_singleton(s);
                    }
                    let mut children = vec![s];
                    proof {
                        assert(children@ =~= seq![s]);
                    }
                    children.append(&mut other_children);
                    SpecificationCompositions::And(children)
                },
                o => {
                    proof {
                        Self::lemma_models_concat(seq![s], seq![o]);
                        Self::lemma_models_singleton(s);
                        Self::lemma_models_singleton(o);
                        assert(seq![s] + seq![o] =~= seq![s, o]);
                        assert(seq![s.model()] + seq![o.model()] =~= seq![s.model(), o.model()]);
                    }
                    let children = vec![s, o];
                    proof {
                        assert(children@ =~= seq![s, o]);
                    }
                    SpecificationCompositions::And(children)
                },
            },
        }
    }

    /// Disjoin this tree with `other`, flattening one level of `Or` on each
    /// side.
    pub fn or<O: IntoComposite<R>>(self, other: O) -> (r: Self)
        ensures
            r@ == self@.spec_or(other.promoted()),
    {
        let other = other.into_composite();
        match self {
            SpecificationCompositions::Or(mut children) => match other {
                SpecificationCompositions::Or(mut other_children) => {
                    proof {
                        Self::lemma_models_concat(children@, other_children@);
                    }
                    children.append(&mut other_children);
                    SpecificationCompositions::Or(children)
                },
                o => {
                    proof {
                        Self::lemma_models_concat(children@, seq![o]);
                        Self::lemma_models_singleton(o);
                        assert(children@.push(o) =~= children@ + seq![o]);
                    }
                    children.push(o);
                    SpecificationCompositions::Or(children)
                },
            },
            s => match other {
                SpecificationCompositions::Or(mut other_children) => {
                    proof {
                        Self::lemma_models_concat(seq![s], other_children@);
                        Self::lemma_models_singleton(s);
                    }
                    let mut children = vec![s];
                    proof {
                        assert(children@ =~= seq![s]);
                    }
                    children.append(&mut other_children);
                    SpecificationCompositions::Or(children)
                },
                o => {
                    proof {
                        Self::lemma_models_concat(seq![s], seq![o]);
                        Self::lemma_models_singleton(s);
                        Self::lemma_models_singleton(o);
                        assert(seq![s] + seq![o] =~= seq![s, o]);
                        assert(seq![s.model()] + seq![o.model()] =~= seq![s.model(), o.model()]);
                    }
                    let children = vec![s, o];
                    proof {
                        assert(children@ =~= seq![s, o]);
                    }
                    SpecificationCompositions::Or(children)
                },
            },
        }
    }

    /// Combine this tree with `other` into an exactly-one-of node,
    /// flattening one level of `Xor` on each side.
    pub fn xor<O: IntoComposite<R>>(self, other: O) -> (r: Self)
        ensures
            r@ == self@.spec_xor(other.promoted()),
    {
        let other = other.into_composite();
        match self {
            SpecificationCompositions::Xor(mut children) => match other {
                SpecificationCompositions::Xor(mut other_children) => {
                    proof {
                        Self::lemma_models_concat(children@, other_children@);
                    }
                    children.append(&mut other_children);
                    SpecificationCompositions::Xor(children)
                },
                o => {
                    proof {
                        Self::lemma_models_concat(children@, seq![o]);
                        Self::lemma_models_singleton(o);
                        assert(children@.push(o) =~= children@ + seq![o]);
                    }
                    children.push(o);
                    SpecificationCompositions::Xor(children)
                },
            },
            s => match other {
                SpecificationCompositions::Xor(mut other_children) => {
                    proof {
                        Self::lemma_models_concat(seq![s], other_children@);
                        Self::lemma_models_singleton(s);
                    }
                    let mut children = vec![s];
                    proof {
                        assert(children@ =~= seq![s]);
                    }
                    children.append(&mut other_children);
                    SpecificationCompositions::Xor(children)
                },
                o => {
                    proof {
                        Self::lemma_models_concat(seq![s], seq![o]);
                        Self::lemma_models_singleton(s);
                        Self::lemma_models_singleton(o);
                        assert(seq![s] + seq![o] =~= seq![s, o]);
                        assert(seq![s.model()] + seq![o.model()] =~= seq![s.model(), o.model()]);
                    }
                    let children = vec![s, o];
                    proof {
                        assert(children@ =~= seq![s, o]);
                    }
                    SpecificationCompositions::Xor(children)
                },
            },
        }
    }

    /// Wrap this tree in a single `Invert` node.  Double inversion is kept
    /// as explicit structure, never simplified away.
    pub fn invert(self) -> (r: Self)
        ensures
            r@ == self@.spec_invert(),
    {
        SpecificationCompositions::Invert(Box::new(self))
    }

    /// A tree is already a composite: hand it back unchanged.
    pub fn composite(self) -> (r: Self)
        ensures
            r == self,
    {
        self
    }
}

impl<R> View for SpecificationCompositions<R> {
    type V = CompositionModel<R>;

    open spec fn view(&self) -> CompositionModel<R> {
        self.model()
    }
}

/// A value that can stand on either side of a combinator call: a bare rule is
/// promoted to a leaf node, and a tree is used as it is.
pub trait IntoComposite<R>: Sized {
    /// The model of the node this value is promoted to.
    spec fn promoted(self) -> CompositionModel<R>;

    /// Promote this value to a tree node.
    fn into_composite(self) -> (r: SpecificationCompositions<R>)
        ensures
            r@ == self.promoted(),
    ;
}

impl<R> IntoComposite<R> for R {
    open spec fn promoted(self) -> CompositionModel<R> {
        CompositionModel::Specification(self)
    }

    fn into_composite(self) -> (r: SpecificationCompositions<R>) {
        SpecificationCompositions::Specification(self)
    }
}

impl<R> IntoComposite<R> for SpecificationCompositions<R> {
    open spec fn promoted(self) -> CompositionModel<R> {
        self.model()
    }

    fn into_composite(self) -> (r: SpecificationCompositions<R>) {
        self
    }
}

} // verus!
