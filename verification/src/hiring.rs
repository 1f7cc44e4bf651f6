//! A hiring-criteria example: atomic rules over a job-candidate record.
//!
//! This module is a consumer of the engine, not part of its core: it defines
//! the candidate record and the atomic rules that the illustrative
//! "good for interview" composition is built from.

use vstd::prelude::*;

use crate::composition::Describe;
use crate::composition::Specification;

verus! {

/// A programming language a candidate may have worked with.
#[derive(Debug, Clone, Copy, PartialEq, Eq, Structural)]
pub enum Language {
    Rust,
    CPlusPlus,
    Python,
    Go,
}

/// The record a hiring rule is evaluated against.
#[derive(Debug, Clone)]
pub struct JobCandidate {
    pub years_of_experience: i64,
    pub github_contributions: i64,
    pub languages_worked_with: Vec<Language>,
    pub desired_salary: i64,
    pub science_degree: bool,
}

/// An atomic yes/no test over a `JobCandidate`.
#[derive(Debug, Clone, Copy, PartialEq, Eq, Structural)]
pub enum HiringRule {
    MinimumYearsOfExperience { min_years: i64 },
    MinimumGithubContributions { min_contributions: i64 },
    WorkedWithLanguage { language: Language },
    MaxDesiredSalary { max_salary: i64 },
    HasScienceDegree,
}

impl Describe for HiringRule {
    open spec fn spec_description(&self) -> Seq<char> {
        match *self {
            HiringRule::MinimumYearsOfExperience { .. } => "minimum years of experience"@,
            HiringRule::MinimumGithubContributions { .. } => "minimum github contributions"@,
            HiringRule::WorkedWithLanguage { .. } => "worked with language"@,
            HiringRule::MaxDesiredSalary { .. } => "maximum desired salary"@,
            HiringRule::HasScienceDegree => "has science degree"@,
        }
    }

    fn description(&self) -> (r: String) {
        match self {
            HiringRule::MinimumYearsOfExperience { .. } => "minimum years of experience".to_owned(),
            HiringRule::MinimumGithubContributions { .. } => "minimum github contributions"
                .to_owned(),
            HiringRule::WorkedWithLanguage { .. } => "worked with language".to_owned(),
            HiringRule::MaxDesiredSalary { .. } => "maximum desired salary".to_owned(),
            HiringRule::HasScienceDegree => "has science degree".to_owned(),
        }
    }
}

/// Whether `languages` holds `language`.
fn contains_language(languages: &Vec<Language>, language: Language) -> (r: bool)
    ensures
        r == languages@.contains(language),
{
    let mut i: usize = 0;
    while i < languages.len()
        invariant
            i <= languages@.len(),
            forall|j: int| 0 <= j < i ==> languages@[j] != language,
        decreases languages@.len() - i,
    {
        if languages[i] == language {
            return true;
        }
        i = i + 1;
    }
    false
}

impl Specification<JobCandidate> for HiringRule {
    open spec fn spec_satisfied_by(&self, candidate: &JobCandidate) -> bool {
        match *self {
            HiringRule::MinimumYearsOfExperience { min_years } => candidate.years_of_experience
                >= min_years,
            HiringRule::MinimumGithubContributions { min_contributions } => candidate
                .github_contributions >= min_contributions,
            HiringRule::WorkedWithLanguage { language } => candidate
                .languages_worked_with@.contains(language),
            HiringRule::MaxDesiredSalary { max_salary } => candidate.desired_salary <= max_salary,
            HiringRule::HasScienceDegree => candidate.science_degree,
        }
    }

    fn is_satisfied_by(&self, candidate: &JobCandidate) -> (r: bool) {
        match self {
            HiringRule::MinimumYearsOfExperience { min_years } => candidate.years_of_experience
                >= *min_years,
            HiringRule::MinimumGithubContributions { min_contributions } => candidate
                .github_contributions >= *min_contributions,
            HiringRule::WorkedWithLanguage { language } => contains_language(
                &candidate.languages_worked_with,
                *language,
            ),
            HiringRule::MaxDesiredSalary { max_salary } => candidate.desired_salary
                <= *max_salary,
            HiringRule::HasScienceDegree => candidate.science_degree,
        }
    }
}

/// The word a yes/no answer prints as.
pub fn yes_or_no(b: bool) -> (r: &'static str)
    ensures
        r@ == (if b {
            "Yes"@
        } else {
            "No"@
        }),
{
    if b {
        "Yes"
    } else {
        "No"
    }
}

} // verus!
