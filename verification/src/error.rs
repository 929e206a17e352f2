//! The failures that the engine reports, each with the text it is shown as.

use vstd::prelude::*;
use crate::text::{join, join_strings, views};

verus! {

#[derive(Debug, Clone, PartialEq, Eq)]
pub enum EngineError {
    /// No candidate for the staging area exists and is empty.
    StagingUnavailable { candidates: Vec<String> },
    /// Every way of mounting onto `destination` failed.
    AssemblyFailed { destination: String },
    /// `id` is not a well-formed module identifier.
    InvalidModuleId { id: String },
    /// The pattern for module identifiers could not be compiled.
    PatternRejected,
    /// The security label of `path` could not be read.
    LabelUnreadable { path: String },
    /// The security label of `path` could not be changed.
    LabelUnwritable { path: String },
    /// `path` could not be made, or is not a directory.
    NotADirectory { path: String },
    /// The configuration file could not be read.
    ConfigUnreadable,
    /// The enforcement setting of the deny list could not be read.
    EnforcementUnreadable,
}

impl EngineError {
    /// The text of the failure.
    pub open spec fn text(&self) -> Seq<char> {
        match self {
            EngineError::StagingUnavailable { candidates } => "no tmpfs found in candidates: "@ + join(
                views(candidates@),
                ", "@,
            ),
            EngineError::AssemblyFailed { destination } => "mount overlayfs for root "@ + destination@
                + " failed"@,
            EngineError::InvalidModuleId { id } => "Invalid module ID: '"@ + id@
                + "'. Must match /^[a-zA-Z][a-zA-Z0-9._-]+$/"@,
            EngineError::PatternRejected => "module ID pattern rejected"@,
            EngineError::LabelUnreadable { path } => "Failed to get SELinux context for "@ + path@,
            EngineError::LabelUnwritable { path } => "Failed to change SELinux context for "@ + path@,
            EngineError::NotADirectory { path } => path@ + " is not a regular directory"@,
            EngineError::ConfigUnreadable => "failed to read config file"@,
            EngineError::EnforcementUnreadable => "failed to read the deny list enforcement"@,
        }
    }

    pub fn message(&self) -> (out: String)
        ensures
            out@ == self.text(),
    {
        match self {
            EngineError::StagingUnavailable { candidates } => {
                String::from_str("no tmpfs found in candidates: ").concat(
                    join_strings(candidates, ", ").as_str(),
                )
            },
            EngineError::AssemblyFailed { destination } => {
                String::from_str("mount overlayfs for root ").concat(destination.as_str()).concat(
                    " failed",
                )
            },
            EngineError::InvalidModuleId { id } => {
                String::from_str("Invalid module ID: '").concat(id.as_str()).concat(
                    "'. Must match /^[a-zA-Z][a-zA-Z0-9._-]+$/",
                )
            },
            EngineError::PatternRejected => String::from_str("module ID pattern rejected"),
            EngineError::LabelUnreadable { path } => {
                String::from_str("Failed to get SELinux context for ").concat(path.as_str())
            },
            EngineError::LabelUnwritable { path } => {
                String::from_str("Failed to change SELinux context for ").concat(path.as_str())
            },
            EngineError::NotADirectory { path } => {
                String::from_str(path.as_str()).concat(" is not a regular directory")
            },
            EngineError::ConfigUnreadable => String::from_str("failed to read config file"),
            EngineError::EnforcementUnreadable => {
                String::from_str("failed to read the deny list enforcement")
            },
        }
    }
}

} // verus!
