//! Diagnostics emitted while a dependency table is reconciled.
//!
//! The wording of each line is part of the observable contract: callers may
//! match on it for user feedback.

use vstd::prelude::*;

verus! {

/// One status or warning line.
#[derive(Debug, PartialEq, Eq)]
pub enum Diagnostic {
    /// A dependency entry was rewritten; `location` is the package directory
    /// relative to the workspace root.
    Updating { name: String, location: String },
    /// Collapsing skipped an entry because the concrete version does not
    /// satisfy the workspace's requirement.
    VersionMismatch { name: String },
    /// Collapsing skipped an entry because only one side supplied a usable
    /// version.
    NoVersionSkip { name: String },
    /// Collapsing skipped an entry because the two `path` fields do not
    /// denote the same location.
    PathMismatch { name: String },
    /// Inlining found an inherited entry whose name the workspace does not
    /// declare.
    NotInWorkspace { name: String },
}

/// The mathematical value of a [`Diagnostic`].
pub enum DiagnosticV {
    Updating { name: Seq<char>, location: Seq<char> },
    VersionMismatch { name: Seq<char> },
    NoVersionSkip { name: Seq<char> },
    PathMismatch { name: Seq<char> },
    NotInWorkspace { name: Seq<char> },
}

impl View for Diagnostic {
    type V = DiagnosticV;

    open spec fn view(&self) -> DiagnosticV {
        match self {
            Diagnostic::Updating { name, location } => DiagnosticV::Updating {
                name: name@,
                location: location@,
            },
            Diagnostic::VersionMismatch { name } => DiagnosticV::VersionMismatch { name: name@ },
            Diagnostic::NoVersionSkip { name } => DiagnosticV::NoVersionSkip { name: name@ },
            Diagnostic::PathMismatch { name } => DiagnosticV::PathMismatch { name: name@ },
            Diagnostic::NotInWorkspace { name } => DiagnosticV::NotInWorkspace { name: name@ },
        }
    }
}

impl DeepView for Diagnostic {
    type V = DiagnosticV;

    open spec fn deep_view(&self) -> DiagnosticV {
        self@
    }
}

/// The text of a diagnostic line.
pub open spec fn spec_render(d: DiagnosticV) -> Seq<char> {
    match d {
        DiagnosticV::Updating { name, location } => "Updating \""@ + name + "\" in "@ + location,
        DiagnosticV::VersionMismatch { name } => "Skipping dependency \""@ + name
            + "\": version mismatch"@,
        DiagnosticV::NoVersionSkip { name } => "Skipping dependency \""@ + name
            + "\": no version in workspace/crate"@,
        DiagnosticV::PathMismatch { name } => "Skipping dependency \""@ + name
            + "\": path mismatch"@,
        DiagnosticV::NotInWorkspace { name } => "No \""@ + name + "\" in workspace"@,
    }
}

/// Whether the line is a warning (everything except an `Updating` status).
pub open spec fn spec_is_warning(d: DiagnosticV) -> bool {
    !(d is Updating)
}

impl Diagnostic {
    /// The text of the line.
    pub fn render(&self) -> (r: String)
        ensures
            r@ == spec_render(self@),
    {
        match self {
            Diagnostic::Updating { name, location } => {
                let mut out = String::from_str("Updating \"");
                out.append(name.as_str());
                out.append("\" in ");
                out.append(location.as_str());
                out
            },
            Diagnostic::VersionMismatch { name } => {
                let mut out = String::from_str("Skipping dependency \"");
                out.append(name.as_str());
                out.append("\": version mismatch");
                out
            },
            Diagnostic::NoVersionSkip { name } => {
                let mut out = String::from_str("Skipping dependency \"");
                out.append(name.as_str());
                out.append("\": no version in workspace/crate");
                out
            },
            Diagnostic::PathMismatch { name } => {
                let mut out = String::from_str("Skipping dependency \"");
                out.append(name.as_str());
                out.append("\": path mismatch");
                out
            },
            Diagnostic::NotInWorkspace { name } => {
                let mut out = String::from_str("No \"");
                out.append(name.as_str());
                out.append("\" in workspace");
                out
            },
        }
    }

    /// Whether the line is a warning rather than a status notice.
    pub fn is_warning(&self) -> (r: bool)
        ensures
            r == spec_is_warning(self@),
    {
        match self {
            Diagnostic::Updating { .. } => false,
            _ => true,
        }
    }
}

} // verus!
