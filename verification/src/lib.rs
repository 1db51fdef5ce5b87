//! Key-level auditing of structured configuration files: flattening of
//! nested documents, diffing of flat maps, policy rules, and the reports
//! built from them over a commit history.

pub mod diff;
pub mod flat;
pub mod git;
pub mod keys;
pub mod models;
pub mod policy;
pub mod report;
pub mod scan;
pub mod secrets;
pub mod text;
pub mod utils;
