//! Rendering a composition tree as a parenthesized infix string.
//!
//! A leaf renders as its rule's own description, a combinator renders as
//! `(child1 <op> child2 <op> ...)` with the connective word between each pair
//! of children, `Invert` renders as `not <child>`, and the constants render
//! as the words `true` and `false`.  The text is for diagnostics only and is
//! never parsed back.

use vstd::prelude::*;
use vstd::string::StringExecFns;

use crate::composition::Describe;
use crate::composition::SpecificationCompositions;
use crate::model::CompositionModel;

verus! {

impl<R: Describe> CompositionModel<R> {
    /// The text a model renders to.
    pub open spec fn rendered(self) -> Seq<char>
        decreases self,
    {
        match self {
            CompositionModel::Specification(r) => r.spec_description(),
            CompositionModel::And(children) => "("@ + Self::rendered_list(children, " and "@)
                + ")"@,
            CompositionModel::Or(children) => "("@ + Self::rendered_list(children, " or "@)
                + ")"@,
            CompositionModel::Xor(children) => "("@ + Self::rendered_list(children, " xor "@)
                + ")"@,
            CompositionModel::Invert(child) => "not "@ + child.rendered(),
            CompositionModel::True => "true"@,
            CompositionModel::False => "false"@,
        }
    }

    /// The texts of the models in `s`, joined by `separator`.
    pub open spec fn rendered_list(s: Seq<CompositionModel<R>>, separator: Seq<char>) -> Seq<char>
        decreases s,
    {
        if s.len() == 0 {
            Seq::empty()
        } else {
            Self::rendered_list(s.drop_last(), separator) + (if s.len() == 1 {
                Seq::<char>::empty()
            } else {
                separator
            }) + s.last().rendered()
        }
    }
}

impl<R: Describe> SpecificationCompositions<R> {
    /// Render this tree as a parenthesized infix string.
    pub fn render(&self) -> (r: String)
        ensures
            r@ == self@.rendered(),
        decreases *self,
    {
        match self {
            SpecificationCompositions::Specification(f) => f.description(),
            SpecificationCompositions::And(children) => Self::render_children(children, " and "),
            SpecificationCompositions::Or(children) => Self::render_children(children, " or "),
            SpecificationCompositions::Xor(children) => Self::render_children(children, " xor "),
            SpecificationCompositions::Invert(child) => {
                let mut out = "not ".to_owned();
                let child_text = child.render();
                out.append(child_text.as_str());
                out
            },
            SpecificationCompositions::True => "true".to_owned(),
            SpecificationCompositions::False => "false".to_owned(),
        }
    }

    /// Render a child list between parentheses, with `separator` between
    /// each pair of children.
    fn render_children(children: &Vec<SpecificationCompositions<R>>, separator: &str) -> (r:
        String)
        ensures
            r@ == "("@ + CompositionModel::rendered_list(
                Self::models(children@),
                separator@,
            ) + ")"@,
        decreases *children,
    {
        let ghost ms = Self::models(children@);
        proof {
            Self::lemma_models_is_map(children@);
        }
        let mut out = "(".to_owned();
        let mut i: usize = 0;
        while i < children.len()
            invariant
                i <= children@.len(),
                ms == Self::models(children@),
                ms.len() == children@.len(),
                forall|j: int| 0 <= j < children@.len() ==> #[trigger] ms[j]
                    == children@[j].model(),
                out@ == "("@ + CompositionModel::rendered_list(
                    ms.subrange(0, i as int),
                    separator@,
                ),
            decreases children@.len() - i,
        {
            if i != 0 {
                out.append(separator);
            }
            let child_text = children[i].render();
            out.append(child_text.as_str());
            proof {
                let sub = ms.subrange(0, (i + 1) as int);
                assert(sub.drop_last() =~= ms.subrange(0, i as int));
                assert(sub.last() == ms[i as int]);
                assert(out@ =~= "("@ + CompositionModel::rendered_list(sub, separator@));
            }
            i = i + 1;
        }
        proof {
            assert(ms.subrange(0, children@.len() as int) =~= ms);
        }
        out.append(")");
        out
    }
}

impl<R: Describe> Describe for SpecificationCompositions<R> {
    open spec fn spec_description(&self) -> Seq<char> {
        self@.rendered()
    }

    fn description(&self) -> (r: String) {
        self.render()
    }
}

} // verus!
