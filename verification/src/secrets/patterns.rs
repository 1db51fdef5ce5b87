//! The patterns that secrets are known by.

use vstd::prelude::*;
use crate::models::SecretType;
use crate::models::Severity;

verus! {

/// A pattern for one kind of secret: its name, its regular expression,
/// and what a match of it is taken for.
#[derive(Debug, Clone, Copy)]
pub struct SecretPattern {
    pub name: &'static str,
    pub regex: &'static str,
    pub secret_type: SecretType,
    pub severity: Severity,
}

/// The patterns, in the order in which a line is held against them.
pub open spec fn pattern_table() -> Seq<SecretPattern> {
    seq![
        SecretPattern {
            name: "AWS Access Key ID",
            regex: r"(?i)(A3T[A-Z0-9]|AKIA|AGPA|AIDA|AROA|AIPA|ANPA|ANVA|ASIA)[A-Z0-9]{16}",
            secret_type: SecretType::AwsAccessKey,
            severity: Severity::Critical,
        },
        SecretPattern {
            name: "AWS Secret Access Key",
            regex: r"(?i)aws[_-]?secret[_-]?access[_-]?key['\x22]?\s*[:=]\s*['\x22]?([A-Za-z0-9/+=]{40})['\x22]?",
            secret_type: SecretType::AwsSecretKey,
            severity: Severity::Critical,
        },
        SecretPattern {
            name: "GCP Service Account Key",
            regex: r#""type"\s*:\s*"service_account""#,
            secret_type: SecretType::GcpServiceAccount,
            severity: Severity::Critical,
        },
        SecretPattern {
            name: "RSA/EC Private Key",
            regex: r"-----BEGIN (RSA |EC |OPENSSH )?PRIVATE KEY-----",
            secret_type: SecretType::PrivateKey,
            severity: Severity::Critical,
        },
        SecretPattern {
            name: "GitHub Token",
            regex: r"gh[pousr]_[A-Za-z0-9_]{36,255}",
            secret_type: SecretType::GithubToken,
            severity: Severity::Critical,
        },
        SecretPattern {
            name: "Database Connection String",
            regex: r"(?i)(postgres|mysql|mongodb|redis)://[^:]+:[^@]+@",
            secret_type: SecretType::DatabaseUrl,
            severity: Severity::Critical,
        },
        SecretPattern {
            name: "Generic Password",
            regex: r"(?i)(password|passwd|pwd)['\x22]?\s*[:=]\s*['\x22]?([^'\x22>\s]{8,})['\x22]?",
            secret_type: SecretType::GenericPassword,
            severity: Severity::Critical,
        },
        SecretPattern {
            name: "Generic API Key",
            regex: r"(?i)(api[_-]?key|apikey|api[_-]?secret)['\x22]?\s*[:=]\s*['\x22]?([A-Za-z0-9_-]{20,})['\x22]?",
            secret_type: SecretType::GenericApiKey,
            severity: Severity::High,
        },
        SecretPattern {
            name: "JWT Token",
            regex: r"eyJ[A-Za-z0-9_-]{10,}\.[A-Za-z0-9_-]{10,}\.[A-Za-z0-9_-]{10,}",
            secret_type: SecretType::JwtToken,
            severity: Severity::High,
        },
    ]
}

/// The patterns, in the order in which a line is held against them.
pub fn secret_patterns() -> (table: Vec<SecretPattern>)
    ensures
        table@ == pattern_table(),
{
    vec![
        SecretPattern {
            name: "AWS Access Key ID",
            regex: r"(?i)(A3T[A-Z0-9]|AKIA|AGPA|AIDA|AROA|AIPA|ANPA|ANVA|ASIA)[A-Z0-9]{16}",
            secret_type: SecretType::AwsAccessKey,
            severity: Severity::Critical,
        },
        SecretPattern {
            name: "AWS Secret Access Key",
            regex: r"(?i)aws[_-]?secret[_-]?access[_-]?key['\x22]?\s*[:=]\s*['\x22]?([A-Za-z0-9/+=]{40})['\x22]?",
            secret_type: SecretType::AwsSecretKey,
            severity: Severity::Critical,
        },
        SecretPattern {
            name: "GCP Service Account Key",
            regex: r#""type"\s*:\s*"service_account""#,
            secret_type: SecretType::GcpServiceAccount,
            severity: Severity::Critical,
        },
        SecretPattern {
            name: "RSA/EC Private Key",
            regex: r"-----BEGIN (RSA |EC |OPENSSH )?PRIVATE KEY-----",
            secret_type: SecretType::PrivateKey,
            severity: Severity::Critical,
        },
        SecretPattern {
            name: "GitHub Token",
            regex: r"gh[pousr]_[A-Za-z0-9_]{36,255}",
            secret_type: SecretType::GithubToken,
            severity: Severity::Critical,
        },
        SecretPattern {
            name: "Database Connection String",
            regex: r"(?i)(postgres|mysql|mongodb|redis)://[^:]+:[^@]+@",
            secret_type: SecretType::DatabaseUrl,
            severity: Severity::Critical,
        },
        SecretPattern {
            name: "Generic Password",
            regex: r"(?i)(password|passwd|pwd)['\x22]?\s*[:=]\s*['\x22]?([^'\x22>\s]{8,})['\x22]?",
            secret_type: SecretType::GenericPassword,
            severity: Severity::Critical,
        },
        SecretPattern {
            name: "Generic API Key",
            regex: r"(?i)(api[_-]?key|apikey|api[_-]?secret)['\x22]?\s*[:=]\s*['\x22]?([A-Za-z0-9_-]{20,})['\x22]?",
            secret_type: SecretType::GenericApiKey,
            severity: Severity::High,
        },
        SecretPattern {
            name: "JWT Token",
            regex: r"eyJ[A-Za-z0-9_-]{10,}\.[A-Za-z0-9_-]{10,}\.[A-Za-z0-9_-]{10,}",
            secret_type: SecretType::JwtToken,
            severity: Severity::High,
        },
    ]
}

} // verus!
