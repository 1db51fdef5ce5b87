//! The search for secrets in configuration files.

pub mod detector;
pub mod patterns;

use vstd::prelude::*;
use crate::models::SecretReport;
use crate::policy::models::SourceFile;
use crate::secrets::detector::scan_directory;
use crate::secrets::detector::secret_report;

verus! {

/// The report of the search for secrets in a list of files.
pub fn get_report(files: &Vec<SourceFile>, scanned_at: &str) -> (report: SecretReport)
    ensures
        report@ == secret_report(files@, scanned_at@),
{
    scan_directory(files, scanned_at)
}

/// Searches a list of files for secrets. The flag tells whether any was
/// found.
pub fn scan_for_secrets(files: &Vec<SourceFile>, scanned_at: &str) -> (r: (SecretReport, bool))
    ensures
        r.0@ == secret_report(files@, scanned_at@),
        r.1 == (r.0@.total_findings > 0),
{
    let report = get_report(files, scanned_at);
    let has_secrets = report.total_findings > 0;
    (report, has_secrets)
}

} // verus!
