//! How serious a diagnostic is.

use core::cmp::Ordering;
use vstd::prelude::*;
use vstd::string::*;

verus! {

/// A severity level for diagnostic messages.
///
/// Bugs are the most severe, then errors, warnings, notes and help
/// messages, in this order.
#[derive(Copy, Clone, PartialEq, Hash, Debug)]
pub enum Severity {
    /// An unexpected bug.
    Bug,
    /// An error.
    Error,
    /// A warning.
    Warning,
    /// A note.
    Note,
    /// A help message.
    Help,
}

impl Severity {
    /// The rank of the severity: the higher, the more severe.
    pub open spec fn rank(self) -> u8 {
        match self {
            Severity::Bug => 5,
            Severity::Error => 4,
            Severity::Warning => 3,
            Severity::Note => 2,
            Severity::Help => 1,
        }
    }

    /// The words that explain the severity.
    pub open spec fn text(self) -> Seq<char> {
        match self {
            Severity::Bug => "error: internal compiler error"@,
            Severity::Error => "error"@,
            Severity::Warning => "warning"@,
            Severity::Note => "note"@,
            Severity::Help => "help"@,
        }
    }

    /// The name of the section that a diagnostic of this severity is
    /// rendered in.
    pub open spec fn section(self) -> Seq<char> {
        match self {
            Severity::Bug => "bug"@,
            Severity::Error => "error"@,
            Severity::Warning => "warning"@,
            Severity::Help => "help"@,
            Severity::Note => "note"@,
        }
    }

    /// Bugs rank highest, then errors, and so on.
    fn to_cmp_int(self) -> (r: u8)
        ensures
            r == self.rank(),
    {
        match self {
            Severity::Bug => 5,
            Severity::Error => 4,
            Severity::Warning => 3,
            Severity::Note => 2,
            Severity::Help => 1,
        }
    }

    /// A string that explains this diagnostic severity.
    pub fn to_str(self) -> (r: &'static str)
        ensures
            r@ == self.text(),
    {
        match self {
            Severity::Bug => "error: internal compiler error",
            Severity::Error => "error",
            Severity::Warning => "warning",
            Severity::Note => "note",
            Severity::Help => "help",
        }
    }

    /// A string that explains this diagnostic severity, owned.
    pub fn to_string(&self) -> (r: String)
        ensures
            r@ == self.text(),
    {
        String::from_str(self.to_str())
    }

    /// The name of the section that a diagnostic of this severity is
    /// rendered in.
    pub fn section_name(self) -> (r: &'static str)
        ensures
            r@ == self.section(),
    {
        match self {
            Severity::Bug => "bug",
            Severity::Error => "error",
            Severity::Warning => "warning",
            Severity::Help => "help",
            Severity::Note => "note",
        }
    }
}

impl PartialOrd for Severity {
    fn partial_cmp(&self, other: &Severity) -> (r: Option<Ordering>) {
        let left = self.to_cmp_int();
        let right = other.to_cmp_int();
        if left < right {
            Some(Ordering::Less)
        } else if left > right {
            Some(Ordering::Greater)
        } else {
            Some(Ordering::Equal)
        }
    }
}

impl vstd::std_specs::cmp::PartialOrdSpecImpl for Severity {
    open spec fn obeys_partial_cmp_spec() -> bool {
        true
    }

    /// Severities are ordered by rank.
    open spec fn partial_cmp_spec(&self, other: &Severity) -> Option<Ordering> {
        if self.rank() < other.rank() {
            Some(Ordering::Less)
        } else if self.rank() > other.rank() {
            Some(Ordering::Greater)
        } else {
            Some(Ordering::Equal)
        }
    }
}

} // verus!
