//! The result model: severities and the check record every probe emits.

use vstd::prelude::*;

verus! {

/// Severity of one finding. `Fail` and `Error` are the failing severities;
/// the others are non-failing.
#[derive(Debug, Clone, Copy, PartialEq, Eq, Structural)]
pub enum CheckStatus {
    Pass,
    Fail,
    Warning,
    Info,
    Error,
}

impl CheckStatus {
    /// True exactly for the failing severities.
    pub open spec fn spec_is_failure(self) -> bool {
        self is Fail || self is Error
    }

    /// True exactly for the failing severities.
    pub fn is_failure(&self) -> (r: bool)
        ensures
            r == self.spec_is_failure(),
    {
        match self {
            CheckStatus::Fail | CheckStatus::Error => true,
            _ => false,
        }
    }

    /// One-character marker used at the front of a rendered result line.
    pub fn to_icon(&self) -> (r: String)
        ensures
            r@ == self.spec_icon(),
    {
        match self {
            CheckStatus::Pass => String::from_str("✓"),
            CheckStatus::Fail => String::from_str("✗"),
            CheckStatus::Warning => String::from_str("⚠"),
            CheckStatus::Info => String::from_str("ℹ"),
            CheckStatus::Error => String::from_str("!"),
        }
    }

    pub open spec fn spec_icon(self) -> Seq<char> {
        match self {
            CheckStatus::Pass => "✓"@,
            CheckStatus::Fail => "✗"@,
            CheckStatus::Warning => "⚠"@,
            CheckStatus::Info => "ℹ"@,
            CheckStatus::Error => "!"@,
        }
    }

    /// Short textual tag for the severity.
    pub fn to_text(&self) -> (r: String)
        ensures
            r@ == self.spec_text(),
    {
        match self {
            CheckStatus::Pass => String::from_str("PASS"),
            CheckStatus::Fail => String::from_str("FAIL"),
            CheckStatus::Warning => String::from_str("WARN"),
            CheckStatus::Info => String::from_str("INFO"),
            CheckStatus::Error => String::from_str("ERROR"),
        }
    }

    pub open spec fn spec_text(self) -> Seq<char> {
        match self {
            CheckStatus::Pass => "PASS"@,
            CheckStatus::Fail => "FAIL"@,
            CheckStatus::Warning => "WARN"@,
            CheckStatus::Info => "INFO"@,
            CheckStatus::Error => "ERROR"@,
        }
    }
}

/// Mathematical model of a [`CheckResult`]: the same record with every string
/// seen as its character sequence.
pub struct CheckView {
    pub name: Seq<char>,
    pub status: CheckStatus,
    pub message: Seq<char>,
    pub details: Option<Seq<char>>,
}

/// One named, severity-tagged finding with a short message and optional
/// longer details. Created once by a probe and never mutated.
#[derive(Debug, Clone)]
pub struct CheckResult {
    pub name: String,
    pub status: CheckStatus,
    pub message: String,
    pub details: Option<String>,
}

impl View for CheckResult {
    type V = CheckView;

    open spec fn view(&self) -> CheckView {
        CheckView {
            name: self.name@,
            status: self.status,
            message: self.message@,
            details: match self.details {
                Some(d) => Some(d@),
                None => None,
            },
        }
    }
}

/// The views of a sequence of check results.
pub open spec fn views(s: Seq<CheckResult>) -> Seq<CheckView> {
    s.map_values(|c: CheckResult| c@)
}


/// The fatal tier of errors: conditions that make a whole probe run
/// meaningless. Everything else is absorbed into a Warning/Info/Error
/// result instead.
#[derive(Debug, Clone, Copy, PartialEq, Eq, Structural)]
pub enum ProbeError {
    /// The kernel identity (release string) could not be read.
    KernelIdentity,
    /// The process-exposed module list could not be read.
    Modules,
    /// The process capability sets could not be read.
    Capabilities,
    /// The locked-memory resource limit could not be read.
    ResourceLimit,
    /// The load-average table could not be read.
    LoadAverage,
}

impl ProbeError {
    /// A short line for the operator; the fatal tier prints one such line.
    pub fn message(&self) -> (r: String)
        ensures
            r@ == self.spec_message(),
    {
        match self {
            ProbeError::KernelIdentity => String::from_str("Failed to read kernel release"),
            ProbeError::Modules => String::from_str("Failed to read /proc/modules"),
            ProbeError::Capabilities => String::from_str("Failed to read process capabilities"),
            ProbeError::ResourceLimit => String::from_str(
                "Failed to read locked-memory resource limit",
            ),
            ProbeError::LoadAverage => String::from_str("Failed to read /proc/loadavg"),
        }
    }

    pub open spec fn spec_message(self) -> Seq<char> {
        match self {
            ProbeError::KernelIdentity => "Failed to read kernel release"@,
            ProbeError::Modules => "Failed to read /proc/modules"@,
            ProbeError::Capabilities => "Failed to read process capabilities"@,
            ProbeError::ResourceLimit => "Failed to read locked-memory resource limit"@,
            ProbeError::LoadAverage => "Failed to read /proc/loadavg"@,
        }
    }
}

} // verus!
