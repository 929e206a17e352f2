//! The list of mounts that this engine made and that a cooperating kernel
//! facility is asked to hide, with its one-way switch.
//!
//! The registry is an explicit value owned by the orchestration session. It
//! is `Active` until it is disabled and never becomes active again: no
//! operation clears the switch.

use vstd::prelude::*;
use crate::text::views;

verus! {

/// What a registry holds: the switch and the registered destinations, oldest
/// first.
pub struct RegistryModel {
    pub disabled: bool,
    pub entries: Seq<Seq<char>>,
}

#[derive(Debug)]
pub struct UnmountRegistry {
    disabled: bool,
    entries: Vec<String>,
}

impl View for UnmountRegistry {
    type V = RegistryModel;

    closed spec fn view(&self) -> RegistryModel {
        RegistryModel { disabled: self.disabled, entries: views(self.entries@) }
    }
}

/// The registry after one registration attempt for `path`, made while the
/// disqualifying marker was present (`marker_present`) or absent.
pub open spec fn after_register(
    before: RegistryModel,
    path: Seq<char>,
    marker_present: bool,
) -> RegistryModel {
    if before.disabled {
        before
    } else if marker_present {
        RegistryModel { disabled: true, entries: before.entries }
    } else {
        RegistryModel { disabled: false, entries: before.entries.push(path) }
    }
}

/// The registry after the registration attempts `calls`, made in order; each
/// call is a path and whether the marker was present then.
pub open spec fn after_registers(
    before: RegistryModel,
    calls: Seq<(Seq<char>, bool)>,
) -> RegistryModel
    decreases calls.len(),
{
    if calls.len() == 0 {
        before
    } else {
        after_register(after_registers(before, calls.drop_last()), calls.last().0, calls.last().1)
    }
}

impl UnmountRegistry {
    /// An active registry with nothing registered.
    pub fn new() -> (r: UnmountRegistry)
        ensures
            !r@.disabled,
            r@.entries == Seq::<Seq<char>>::empty(),
    {
        let r = UnmountRegistry { disabled: false, entries: Vec::new() };
        r
    }

    pub fn is_disabled(&self) -> (b: bool)
        ensures
            b == self@.disabled,
    {
        self.disabled
    }

    /// How many destinations are registered.
    pub fn len(&self) -> (n: usize)
        ensures
            n == self@.entries.len(),
    {
        self.entries.len()
    }

    /// Throws the switch. The registered destinations stay.
    pub fn disable(&mut self)
        ensures
            final(self)@.disabled,
            final(self)@.entries == old(self)@.entries,
    {
        self.disabled = true;
    }

    /// One registration attempt. A disabled registry ignores it. An active
    /// one that finds the marker present becomes disabled and registers
    /// nothing; otherwise `path` is appended.
    pub fn register(&mut self, path: &str, marker_present: bool)
        ensures
            final(self)@ == after_register(old(self)@, path@, marker_present),
    {
        if self.disabled {
            return ;
        }
        if marker_present {
            self.disabled = true;
            return ;
        }
        self.entries.push(String::from_str(path));
        proof {
            assert(views(self.entries@) =~= views(old(self).entries@).push(path@));
        }
    }

    /// Hands the registered destinations over, oldest first, and leaves the
    /// list empty. The switch is not touched.
    pub fn drain_for_signaling(&mut self) -> (out: Vec<String>)
        ensures
            views(out@) == old(self)@.entries,
            final(self)@.entries == Seq::<Seq<char>>::empty(),
            final(self)@.disabled == old(self)@.disabled,
    {
        let mut out: Vec<String> = Vec::new();
        std::mem::swap(&mut out, &mut self.entries);
        out
    }
}

/// Registers `target` as a mount to hide, where the kernel facility is there
/// (`supported`); without it nothing happens.
pub fn send_unmountable(
    registry: &mut UnmountRegistry,
    target: &str,
    supported: bool,
    marker_present: bool,
)
    ensures
        final(registry)@ == if supported {
            after_register(old(registry)@, target@, marker_present)
        } else {
            old(registry)@
        },
{
    if !supported {
        return ;
    }
    registry.register(target, marker_present);
}

/// The switch is one-way: whatever is attempted afterwards, a disabled
/// registry stays disabled and its list stays as it was.
pub proof fn lemma_registry_latch(before: RegistryModel, calls: Seq<(Seq<char>, bool)>)
    requires
        before.disabled,
    ensures
        after_registers(before, calls) == before,
    decreases calls.len(),
{
    if calls.len() > 0 {
        lemma_registry_latch(before, calls.drop_last());
    }
}

/// Once an attempt has seen the marker, no later attempt adds an entry: the
/// list after any further attempts is the list as it was before the marker
/// was seen.
pub proof fn lemma_marker_latches(
    before: RegistryModel,
    path: Seq<char>,
    later: Seq<(Seq<char>, bool)>,
)
    ensures
        after_registers(after_register(before, path, true), later).disabled,
        after_registers(after_register(before, path, true), later).entries == before.entries,
{
    lemma_registry_latch(after_register(before, path, true), later);
}

/// Attempts never remove an entry and never re-activate the registry.
pub proof fn lemma_register_monotone(before: RegistryModel, calls: Seq<(Seq<char>, bool)>)
    ensures
        before.disabled ==> after_registers(before, calls).disabled,
        before.entries.is_prefix_of(after_registers(before, calls).entries),
    decreases calls.len(),
{
    if calls.len() > 0 {
        lemma_register_monotone(before, calls.drop_last());
    }
}

} // verus!
