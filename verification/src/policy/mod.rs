//! Policies: rules on flat configuration maps and their evaluation.

pub mod evaluator;
pub mod loader;
pub mod models;
pub mod parser;
pub mod patterns;

use vstd::prelude::*;
use crate::policy::evaluator::evaluate_policy;
use crate::policy::evaluator::policy_report;
use crate::policy::loader::lemma_valid_policy;
use crate::policy::loader::policy_fault;
use crate::policy::loader::policy_valid;
use crate::policy::loader::validate_policy;
use crate::policy::loader::PolicyError;
use crate::policy::models::PolicyFile;
use crate::policy::models::PolicyReport;
use crate::policy::models::SourceFile;

verus! {

/// Checks a list of files against a policy. The flag tells whether the
/// policy found a violation. A policy that cannot be used is refused
/// before any file is looked at.
pub fn check_policy(files: &Vec<SourceFile>, policy: &PolicyFile, checked_at: &str) -> (r: Result<
    (PolicyReport, bool),
    PolicyError,
>)
    ensures
        match r {
            Ok((report, has_violations)) => {
                &&& policy_valid(*policy)
                &&& report@ == policy_report(files@, *policy, checked_at@)
                &&& has_violations == (report@.total_violations > 0)
            },
            Err(e) => policy_fault(*policy) == Some(e@),
        },
{
    match validate_policy(policy) {
        Ok(_) => {
            proof {
                lemma_valid_policy(*policy);
            }
            let report = evaluate_policy(files, policy, checked_at);
            let has_violations = report.total_violations > 0;
            Ok((report, has_violations))
        },
        Err(e) => Err(e),
    }
}

} // verus!
