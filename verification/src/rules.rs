//! Simple integer rules, used by examples and tests to exercise the engine.

use vstd::prelude::*;

use crate::composition::Describe;
use crate::composition::Specification;

verus! {

/// An atomic yes/no test over an `i32` candidate.
#[derive(Debug, Clone, Copy, PartialEq, Eq, Structural)]
pub enum IntRule {
    GreaterThan { value: i32 },
    LessThan { value: i32 },
    Zero,
}

impl Describe for IntRule {
    open spec fn spec_description(&self) -> Seq<char> {
        match *self {
            IntRule::GreaterThan { .. } => "greater than threshold"@,
            IntRule::LessThan { .. } => "less than threshold"@,
            IntRule::Zero => "equals zero"@,
        }
    }

    fn description(&self) -> (r: String) {
        match self {
            IntRule::GreaterThan { .. } => "greater than threshold".to_owned(),
            IntRule::LessThan { .. } => "less than threshold".to_owned(),
            IntRule::Zero => "equals zero".to_owned(),
        }
    }
}

impl Specification<i32> for IntRule {
    open spec fn spec_satisfied_by(&self, candidate: &i32) -> bool {
        match *self {
            IntRule::GreaterThan { value } => *candidate > value,
            IntRule::LessThan { value } => *candidate < value,
            IntRule::Zero => *candidate == 0,
        }
    }

    fn is_satisfied_by(&self, candidate: &i32) -> (r: bool) {
        match self {
            IntRule::GreaterThan { value } => *candidate > *value,
            IntRule::LessThan { value } => *candidate < *value,
            IntRule::Zero => *candidate == 0,
        }
    }
}

} // verus!
