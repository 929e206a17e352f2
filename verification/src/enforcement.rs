//! The check that stands before every direct request to hide a mount: an
//! installed enforcement module, with its deny list enforced on a staging
//! area that it watches, cancels the hiding for the rest of the run.

use vstd::prelude::*;
use crate::defs::{DEBUG_RAMDISK, ENFORCEMENT_MODULE};
use crate::error::EngineError;
use crate::registry::UnmountRegistry;
use crate::text::same_text;

verus! {

/// What `str::trim` returns for `s`: the text without its leading and
/// trailing whitespace.
pub uninterp spec fn trimmed(s: Seq<char>) -> Seq<char>;

/// `str::trim`. The result depends on the text alone and has a name.
#[verifier::external_body]
fn trim<'a>(s: &'a str) -> (r: &'a str)
    ensures
        r@ == trimmed(s@),
{
    s.trim()
}

/// An entry of the modules directory with what a look at it found.
#[derive(Debug, Clone, PartialEq, Eq)]
pub struct ModuleEntry {
    /// The name of the entry in the modules directory.
    pub name: String,
    pub is_dir: bool,
    /// The entry holds a module description.
    pub has_prop: bool,
    pub disabled: bool,
    pub removed: bool,
    pub skip_mount: bool,
}

impl ModuleEntry {
    /// The entry is an installed module that takes part in mounting.
    pub open spec fn active(&self) -> bool {
        self.is_dir && self.has_prop && !self.disabled && !self.removed && !self.skip_mount
    }

    /// The entry is the enforcement module, installed and taking part.
    pub open spec fn enforces(&self) -> bool {
        self.active() && self.name@ == ENFORCEMENT_MODULE@
    }
}

impl ModuleEntry {
    /// Is the entry an installed module that takes part in mounting?
    pub fn is_active(&self) -> (r: bool)
        ensures
            r == self.active(),
    {
        self.is_dir && self.has_prop && !(self.disabled || self.removed) && !self.skip_mount
    }
}

/// The enforcement module is among `modules`.
pub open spec fn enforcement_installed(modules: Seq<ModuleEntry>) -> bool {
    exists|i: int| 0 <= i < modules.len() && (#[trigger] modules[i]).enforces()
}

/// Enforcement cancels the hiding: the setting, trimmed, is anything but
/// `0`, and the staging area, trimmed, is the one that the module watches.
pub open spec fn cancels(enforce: Seq<char>, tmpfs: Option<Seq<char>>) -> bool {
    enforce != "0"@ && tmpfs == Some(DEBUG_RAMDISK@)
}

/// The text of an optional string.
pub open spec fn text_of(o: Option<&str>) -> Option<Seq<char>> {
    match o {
        Some(t) => Some(t@),
        None => None,
    }
}

/// Whether a mount may be handed on for hiding: yes or no, or `None` where
/// the enforcement setting is needed and could not be read. `enforce` and
/// `tmpfs` are the setting and the staging area as read, not yet trimmed.
pub open spec fn hiding_allowed(
    disabled: bool,
    modules: Seq<ModuleEntry>,
    enforce: Option<Seq<char>>,
    tmpfs: Option<Seq<char>>,
) -> Option<bool> {
    if disabled {
        Some(false)
    } else if !enforcement_installed(modules) {
        Some(true)
    } else {
        match enforce {
            Some(e) => Some(
                !cancels(
                    trimmed(e),
                    match tmpfs {
                        Some(t) => Some(trimmed(t)),
                        None => None,
                    },
                ),
            ),
            None => None,
        }
    }
}

/// Is the enforcement module among `modules`?
pub fn has_enforcement_module(modules: &Vec<ModuleEntry>) -> (r: bool)
    ensures
        r == enforcement_installed(modules@),
{
    let mut i: usize = 0;
    while i < modules.len()
        invariant
            0 <= i <= modules.len(),
            forall|j: int| 0 <= j < i ==> !(#[trigger] modules@[j]).enforces(),
        decreases modules.len() - i,
    {
        if modules[i].is_active() && same_text(modules[i].name.as_str(), ENFORCEMENT_MODULE) {
            return true;
        }
        i += 1;
    }
    false
}

/// Does enforcement cancel the hiding, given the setting and the staging
/// area, both trimmed?
pub fn cancels_hiding(enforce: &str, tmpfs: Option<&str>) -> (r: bool)
    ensures
        r == cancels(enforce@, text_of(tmpfs)),
{
    if same_text(enforce, "0") {
        return false;
    }
    match tmpfs {
        Some(t) => same_text(t, DEBUG_RAMDISK),
        None => false,
    }
}

/// Decides whether a mount may be handed to the kernel for hiding now.
///
/// A disabled registry answers no. Without the enforcement module among
/// `modules` the answer is yes. With it, the enforcement setting decides
/// (`enforce`, `None` where it could not be read, which is a failure): where
/// it cancels the hiding on the staging area `tmpfs`, the registry is
/// disabled and the answer is no, now and from then on. The list of the
/// registry is never touched.
pub fn send_unmountable(
    registry: &mut UnmountRegistry,
    modules: &Vec<ModuleEntry>,
    enforce: Option<&str>,
    tmpfs: Option<&str>,
) -> (r: Result<bool, EngineError>)
    ensures
        final(registry)@.entries == old(registry)@.entries,
        match hiding_allowed(old(registry)@.disabled, modules@, text_of(enforce), text_of(tmpfs)) {
            Some(allowed) => r == Ok::<bool, EngineError>(allowed) && final(registry)@.disabled
                == !allowed,
            None => !final(registry)@.disabled && r matches Err(
                EngineError::EnforcementUnreadable,
            ),
        },
{
    if registry.is_disabled() {
        return Ok(false);
    }
    if !has_enforcement_module(modules) {
        return Ok(true);
    }
    let setting = match enforce {
        Some(e) => trim(e),
        None => {
            return Err(EngineError::EnforcementUnreadable);
        },
    };
    let area = match tmpfs {
        Some(t) => Some(trim(t)),
        None => None,
    };
    if cancels_hiding(setting, area) {
        registry.disable();
        return Ok(false);
    }
    Ok(true)
}

} // verus!
