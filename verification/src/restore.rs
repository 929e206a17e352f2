//! The child mount restorer and the plan for a whole partition.
//!
//! An overlay on a partition's root shadows every mount that the kernel had
//! below it. Each of them is restored: bound back unchanged where no module
//! touches it, overlaid again where modules add to it, and left alone where
//! that would put a directory over something that is none.

use vstd::prelude::*;
use crate::error::EngineError;
use crate::inspect::mounts_under;
use crate::order::strictly_ascending;
use crate::overlay::{
    assembled,
    bind_mount,
    bind_plan,
    mount_overlayfs,
    overlay_plan,
    usable,
    StagedDir,
};
use crate::paths::{
    child_path,
    joined,
    nested_under,
    relative_of,
    relative_path,
    stock_of,
    stock_path,
};
use crate::plan::{request_views, MountPlan, MountRequest, PlanModel, Progress, RequestModel};
use crate::text::views;

verus! {

/// What a look at a path found, links followed.
#[derive(Clone, Copy, PartialEq, Eq, Structural, Debug)]
pub enum EntryKind {
    /// Nothing is there.
    Absent,
    Directory,
    /// Something that is no directory: a file, a device node.
    Other,
}

/// A module root with what it holds at the relative path in question.
#[derive(Debug, Clone, PartialEq, Eq)]
pub struct ModuleProbe {
    pub root: String,
    pub kind: EntryKind,
}

/// The views of a list of probes: root and kind, probe by probe.
pub open spec fn probe_views(v: Seq<ModuleProbe>) -> Seq<(Seq<char>, EntryKind)> {
    Seq::new(v.len(), |i: int| (v[i].root@, v[i].kind))
}

/// Why a nested mount point is left as it is.
#[derive(Clone, Copy, PartialEq, Eq, Structural, Debug)]
pub enum SkipReason {
    /// The stock path is gone: the overlay's own content took it away.
    StockMissing,
    /// Modules add to the path, but the stock path is no directory.
    StockNotDirectory,
    /// A module holds something at the path that is no directory.
    NonDirectoryConflict,
}

/// What is done about one nested mount point.
#[derive(Debug, Clone, PartialEq, Eq)]
pub enum ChildPlan {
    /// Nothing: the mount point is left untouched.
    Skip(SkipReason),
    /// The requests of the plan are tried in order.
    Mount(MountPlan),
}

pub enum ChildPlanModel {
    Skip(SkipReason),
    Mount(PlanModel),
}

impl View for ChildPlan {
    type V = ChildPlanModel;

    open spec fn view(&self) -> ChildPlanModel {
        match self {
            ChildPlan::Skip(reason) => ChildPlanModel::Skip(*reason),
            ChildPlan::Mount(plan) => ChildPlanModel::Mount(plan@),
        }
    }
}

/// Some module root holds something at the path.
pub open spec fn touched(probes: Seq<(Seq<char>, EntryKind)>) -> bool {
    exists|i: int| 0 <= i < probes.len() && (#[trigger] probes[i]).1 != EntryKind::Absent
}

/// Some module root holds something at the path that is no directory.
pub open spec fn conflicted(probes: Seq<(Seq<char>, EntryKind)>) -> bool {
    exists|i: int| 0 <= i < probes.len() && (#[trigger] probes[i]).1 == EntryKind::Other
}

/// The module layers for the path `relative`: below each module root that
/// holds a directory there, that directory; in the order of the roots.
pub open spec fn child_layers(
    probes: Seq<(Seq<char>, EntryKind)>,
    relative: Seq<char>,
) -> Seq<Seq<char>>
    decreases probes.len(),
{
    if probes.len() == 0 {
        Seq::empty()
    } else {
        let front = child_layers(probes.drop_last(), relative);
        if probes.last().1 == EntryKind::Directory {
            front.push(joined(probes.last().0, relative))
        } else {
            front
        }
    }
}

/// The plan that overlays the module layers over the stock directory and
/// falls back to a plain bind mount of the stock directory.
pub open spec fn overlay_or_bind(
    layers: Seq<Seq<char>>,
    stock_root: Seq<char>,
    mount_point: Seq<char>,
    hide: bool,
) -> PlanModel {
    let overlay = assembled(layers, stock_root, None, None, mount_point);
    PlanModel {
        requests: seq![
            overlay.modern(),
            overlay.legacy(),
            RequestModel::Bind { from: stock_root, to: mount_point },
        ],
        destination: mount_point,
        hide,
    }
}

/// What is done about the nested mount point `mount_point`, whose stock
/// content is at `stock_root`, given what the module roots hold at its
/// relative path.
pub open spec fn restoration(
    mount_point: Seq<char>,
    relative: Seq<char>,
    probes: Seq<(Seq<char>, EntryKind)>,
    stock_root: Seq<char>,
    stock_is_dir: bool,
    hide: bool,
) -> ChildPlanModel {
    if !touched(probes) {
        ChildPlanModel::Mount(bind_plan(stock_root, mount_point, hide))
    } else if !stock_is_dir {
        ChildPlanModel::Skip(SkipReason::StockNotDirectory)
    } else if conflicted(probes) {
        ChildPlanModel::Skip(SkipReason::NonDirectoryConflict)
    } else {
        ChildPlanModel::Mount(
            overlay_or_bind(child_layers(probes, relative), stock_root, mount_point, hide),
        )
    }
}

/// What the probe at position `i` adds to the probes before it.
proof fn lemma_one_more_probe(probes: Seq<(Seq<char>, EntryKind)>, i: int)
    requires
        0 <= i < probes.len(),
    ensures
        probes.take(i + 1).drop_last() == probes.take(i),
        probes.take(i + 1).last() == probes[i],
        touched(probes.take(i + 1)) <==> touched(probes.take(i)) || probes[i].1
            != EntryKind::Absent,
        conflicted(probes.take(i + 1)) <==> conflicted(probes.take(i)) || probes[i].1
            == EntryKind::Other,
{
    let seen = probes.take(i);
    let next = probes.take(i + 1);
    assert(next[i] == probes[i]);
    assert forall|j: int| 0 <= j < i implies #[trigger] next[j] == seen[j] by {}
    if touched(next) {
        let j = choose|j: int| 0 <= j < next.len() && (#[trigger] next[j]).1 != EntryKind::Absent;
        assert(j < i ==> seen[j] == next[j]);
    }
    if conflicted(next) {
        let j = choose|j: int| 0 <= j < next.len() && (#[trigger] next[j]).1 == EntryKind::Other;
        assert(j < i ==> seen[j] == next[j]);
    }
    if touched(seen) {
        let j = choose|j: int| 0 <= j < seen.len() && (#[trigger] seen[j]).1 != EntryKind::Absent;
        assert(next[j] == seen[j]);
    }
    if conflicted(seen) {
        let j = choose|j: int| 0 <= j < seen.len() && (#[trigger] seen[j]).1 == EntryKind::Other;
        assert(next[j] == seen[j]);
    }
}

/// Decides what is done about one nested mount point.
///
///  - No module root holds anything at `relative`: the stock content is
///    bound back onto the mount point.
///  - Otherwise, the stock path is no directory: nothing is done.
///  - Otherwise, some module root holds a non-directory there: nothing is
///    done, so that no directory comes to lie over a special file.
///  - Otherwise the directories that the module roots hold there are
///    overlaid over the stock directory, in the order of the roots and the
///    modern way first, with the plain bind mount as the last fallback.
pub fn mount_overlay_child(
    mount_point: &str,
    relative: &str,
    modules: &Vec<ModuleProbe>,
    stock_root: &str,
    stock_is_dir: bool,
    disable_umount: bool,
) -> (plan: ChildPlan)
    ensures
        plan@ == restoration(
            mount_point@,
            relative@,
            probe_views(modules@),
            stock_root@,
            stock_is_dir,
            !disable_umount,
        ),
{
    let ghost probes = probe_views(modules@);
    let mut has_modification = false;
    let mut i: usize = 0;
    while i < modules.len()
        invariant
            0 <= i <= modules.len(),
            probes == probe_views(modules@),
            has_modification == touched(probes.take(i as int)),
        decreases modules.len() - i,
    {
        proof {
            lemma_one_more_probe(probes, i as int);
        }
        if modules[i].kind != EntryKind::Absent {
            has_modification = true;
        }
        i += 1;
    }
    proof {
        assert(probes.take(i as int) == probes);
    }
    if !has_modification {
        return ChildPlan::Mount(bind_mount(stock_root, mount_point, disable_umount));
    }
    if !stock_is_dir {
        return ChildPlan::Skip(SkipReason::StockNotDirectory);
    }
    let mut lower_dirs: Vec<String> = Vec::new();
    let mut k: usize = 0;
    while k < modules.len()
        invariant
            0 <= k <= modules.len(),
            probes == probe_views(modules@),
            touched(probes),
            stock_is_dir,
            !conflicted(probes.take(k as int)),
            views(lower_dirs@) == child_layers(probes.take(k as int), relative@),
        decreases modules.len() - k,
    {
        proof {
            lemma_one_more_probe(probes, k as int);
        }
        match modules[k].kind {
            EntryKind::Directory => {
                lower_dirs.push(child_path(modules[k].root.as_str(), relative));
            },
            EntryKind::Other => {
                return ChildPlan::Skip(SkipReason::NonDirectoryConflict);
            },
            EntryKind::Absent => {},
        }
        k += 1;
    }
    proof {
        assert(probes.take(k as int) == probes);
    }
    let mut plan = mount_overlayfs(&lower_dirs, stock_root, None, None, mount_point, disable_umount);
    let ghost overlay = assembled(views(lower_dirs@), stock_root@, None, None, mount_point@);
    proof {
        assert(plan@.requests == seq![overlay.modern(), overlay.legacy()]);
    }
    plan.requests.push(
        MountRequest::Bind { from: String::from_str(stock_root), to: String::from_str(mount_point) },
    );
    proof {
        assert(request_views(plan.requests@) =~= seq![
            overlay.modern(),
            overlay.legacy(),
            RequestModel::Bind { from: stock_root@, to: mount_point@ },
        ]);
    }
    ChildPlan::Mount(plan)
}

/// How the restoration of a nested mount point ended.
#[derive(Clone, Copy, PartialEq, Eq, Structural, Debug)]
pub enum ChildOutcome {
    /// The mount point was left as it was.
    Skipped(SkipReason),
    /// The first choice of the plan is mounted.
    Restored,
    /// The overlay failed and the stock content is bound back instead.
    Degraded,
    /// Nothing could be mounted, or the plan has not ended.
    Unrestored,
}

/// How a restoration ended whose plan is `plan` and has come to `progress`.
pub open spec fn outcome_of(plan: ChildPlanModel, progress: Progress) -> ChildOutcome {
    match plan {
        ChildPlanModel::Skip(reason) => ChildOutcome::Skipped(reason),
        ChildPlanModel::Mount(p) => match progress {
            Progress::Mounted(i) => if 0 < i < p.requests.len() && p.requests[i as int] is Bind {
                ChildOutcome::Degraded
            } else {
                ChildOutcome::Restored
            },
            _ => ChildOutcome::Unrestored,
        },
    }
}

impl ChildPlan {
    /// Tells how the restoration ended, from where its plan ended. A bind
    /// mount that was not the plan's first choice is a degraded restoration.
    pub fn outcome(&self, progress: Progress) -> (r: ChildOutcome)
        ensures
            r == outcome_of(self@, progress),
    {
        match self {
            ChildPlan::Skip(reason) => ChildOutcome::Skipped(*reason),
            ChildPlan::Mount(plan) => match progress {
                Progress::Mounted(i) => {
                    if 0 < i && i < plan.requests.len() {
                        match &plan.requests[i] {
                            MountRequest::Bind { .. } => ChildOutcome::Degraded,
                            _ => ChildOutcome::Restored,
                        }
                    } else {
                        ChildOutcome::Restored
                    }
                },
                _ => ChildOutcome::Unrestored,
            },
        }
    }
}

/// A nested mount point with the paths that belong to it.
#[derive(Debug, Clone, PartialEq, Eq)]
pub struct ChildTarget {
    pub mount_point: String,
    /// The mount point relative to the partition's root.
    pub relative: String,
    /// Where the stock content is found from the partition's root directory.
    pub stock_path: String,
}

/// The mount points of a list of targets, target by target.
pub open spec fn mount_points(v: Seq<ChildTarget>) -> Seq<Seq<char>> {
    Seq::new(v.len(), |i: int| v[i].mount_point@)
}

impl ChildTarget {
    /// The target for `mount_point` under the partition root `root`.
    pub fn new(mount_point: &str, root: &str) -> (t: ChildTarget)
        ensures
            t.mount_point@ == mount_point@,
            t.relative@ == relative_of(mount_point@, root@),
            t.stock_path@ == stock_of(t.relative@),
    {
        let relative = relative_path(mount_point, root);
        let stock = stock_path(relative.as_str());
        ChildTarget { mount_point: String::from_str(mount_point), relative, stock_path: stock }
    }

    /// Decides what is done about this mount point, given what was found at
    /// its stock path (`stock`) and in the module roots. A mount point whose
    /// stock path is gone is skipped outright; for the others see
    /// `mount_overlay_child`.
    pub fn restore(
        &self,
        stock: EntryKind,
        modules: &Vec<ModuleProbe>,
        disable_umount: bool,
    ) -> (plan: ChildPlan)
        ensures
            plan@ == if stock == EntryKind::Absent {
                ChildPlanModel::Skip(SkipReason::StockMissing)
            } else {
                restoration(
                    self.mount_point@,
                    self.relative@,
                    probe_views(modules@),
                    self.stock_path@,
                    stock == EntryKind::Directory,
                    !disable_umount,
                )
            },
    {
        if stock == EntryKind::Absent {
            return ChildPlan::Skip(SkipReason::StockMissing);
        }
        mount_overlay_child(
            self.mount_point.as_str(),
            self.relative.as_str(),
            modules,
            self.stock_path.as_str(),
            stock == EntryKind::Directory,
            disable_umount,
        )
    }
}

/// The work for one partition: the overlay on its root, then the nested
/// mount points to restore, in this order.
#[derive(Debug, Clone, PartialEq, Eq)]
pub struct PartitionPlan {
    pub root: MountPlan,
    pub children: Vec<ChildTarget>,
}

/// Plans the overlay of a partition. The module roots are overlaid over the
/// partition's root at that same root, and every mount point of
/// `mount_table` that lies strictly below the root is listed for
/// restoration, each once, in ascending order.
pub fn mount_overlay(
    target_root: &str,
    module_roots: &Vec<String>,
    workdir: Option<StagedDir>,
    upperdir: Option<StagedDir>,
    mount_table: &Vec<String>,
    disable_umount: bool,
) -> (plan: PartitionPlan)
    ensures
        plan.root@ == overlay_plan(
            assembled(
                views(module_roots@),
                target_root@,
                usable(upperdir),
                usable(workdir),
                target_root@,
            ),
            !disable_umount,
        ),
        strictly_ascending(mount_points(plan.children@)),
        forall|m: Seq<char>|
            #![trigger mount_points(plan.children@).contains(m)]
            #![trigger views(mount_table@).contains(m)]
            mount_points(plan.children@).contains(m) <==> views(mount_table@).contains(m)
                && nested_under(m, target_root@),
        forall|i: int|
            0 <= i < plan.children@.len() ==> (#[trigger] plan.children@[i]).relative@
                == relative_of(plan.children@[i].mount_point@, target_root@)
                && plan.children@[i].stock_path@ == stock_of(plan.children@[i].relative@),
{
    let mount_seq = mounts_under(target_root, mount_table);
    let root = mount_overlayfs(
        module_roots,
        target_root,
        upperdir,
        workdir,
        target_root,
        disable_umount,
    );
    let mut children: Vec<ChildTarget> = Vec::new();
    let mut i: usize = 0;
    while i < mount_seq.len()
        invariant
            0 <= i <= mount_seq.len(),
            children@.len() == i,
            forall|j: int|
                0 <= j < i ==> (#[trigger] children@[j]).mount_point@ == mount_seq@[j]@
                    && children@[j].relative@ == relative_of(mount_seq@[j]@, target_root@)
                    && children@[j].stock_path@ == stock_of(children@[j].relative@),
        decreases mount_seq.len() - i,
    {
        children.push(ChildTarget::new(mount_seq[i].as_str(), target_root));
        i += 1;
    }
    proof {
        assert(mount_points(children@) =~= views(mount_seq@));
    }
    PartitionPlan { root, children }
}

/// Where the work for a partition stands.
#[derive(Clone, Copy, PartialEq, Eq, Structural, Debug)]
pub enum PartitionStep {
    /// The overlay on the root is due.
    Root,
    /// The nested mount point with this index is due.
    Child(usize),
    /// The root is overlaid and every nested mount point was gone through.
    Done,
    /// The overlay on the root failed; nothing else was touched.
    Aborted,
}

/// Where the work for a partition with `n` nested mount points stands after
/// the step `step` succeeded (`ok`) or did not.
pub open spec fn stepped(n: nat, step: PartitionStep, ok: bool) -> PartitionStep {
    match step {
        PartitionStep::Root => if !ok {
            PartitionStep::Aborted
        } else if n > 0 {
            PartitionStep::Child(0)
        } else {
            PartitionStep::Done
        },
        PartitionStep::Child(i) => if i + 1 < n {
            PartitionStep::Child((i + 1) as usize)
        } else {
            PartitionStep::Done
        },
        _ => step,
    }
}

/// Where the work stands after the root was overlaid and the outcomes
/// `reports` came in for the nested mount points, one after another.
pub open spec fn after_children(n: nat, reports: Seq<bool>) -> PartitionStep
    decreases reports.len(),
{
    if reports.len() == 0 {
        stepped(n, PartitionStep::Root, true)
    } else {
        stepped(n, after_children(n, reports.drop_last()), reports.last())
    }
}

impl PartitionPlan {
    /// The work begins with the overlay on the root.
    pub fn begin(&self) -> (step: PartitionStep)
        ensures
            step == PartitionStep::Root,
    {
        PartitionStep::Root
    }

    /// Takes in how the current step went. A failed root overlay ends the
    /// work; after a successful one the nested mount points follow in their
    /// order, each once, whether the one before was restored or not.
    pub fn next(&self, step: PartitionStep, succeeded: bool) -> (r: PartitionStep)
        ensures
            r == stepped(self.children@.len(), step, succeeded),
    {
        match step {
            PartitionStep::Root => {
                if !succeeded {
                    PartitionStep::Aborted
                } else if self.children.len() > 0 {
                    PartitionStep::Child(0)
                } else {
                    PartitionStep::Done
                }
            },
            PartitionStep::Child(i) => {
                if i < self.children.len() && i + 1 < self.children.len() {
                    PartitionStep::Child(i + 1)
                } else {
                    PartitionStep::Done
                }
            },
            _ => step,
        }
    }

    /// The nested mount point that is due, if one is.
    pub fn due(&self, step: PartitionStep) -> (r: Option<&ChildTarget>)
        ensures
            match step {
                PartitionStep::Child(i) if i < self.children@.len() => r == Some(
                    &self.children@[i as int],
                ),
                _ => r is None,
            },
    {
        match step {
            PartitionStep::Child(i) => {
                if i < self.children.len() {
                    Some(&self.children[i])
                } else {
                    None
                }
            },
            _ => None,
        }
    }

    /// The result for the partition once the work has ended: a failure only
    /// where the overlay on the root failed.
    pub fn result(&self, step: PartitionStep) -> (r: Option<Result<(), EngineError>>)
        ensures
            match step {
                PartitionStep::Done => r == Some(Ok::<(), EngineError>(())),
                PartitionStep::Aborted => (r matches Some(
                    Err(EngineError::AssemblyFailed { destination }),
                ) && destination@ == self.root.destination@),
                _ => r is None,
            },
    {
        match step {
            PartitionStep::Done => Some(Ok(())),
            PartitionStep::Aborted => Some(
                Err(EngineError::AssemblyFailed { destination: self.root.destination.clone() }),
            ),
            _ => None,
        }
    }
}

/// What happens to nested mount points never fails the partition: once the
/// root is overlaid, the nested mount points come up one per report and in
/// their order, and after the last report the work is done, whatever the
/// reports were.
pub proof fn lemma_children_never_escalate(n: nat, reports: Seq<bool>)
    requires
        n <= usize::MAX,
    ensures
        after_children(n, reports) == if reports.len() < n {
            PartitionStep::Child(reports.len() as usize)
        } else {
            PartitionStep::Done
        },
    decreases reports.len(),
{
    if reports.len() > 0 {
        lemma_children_never_escalate(n, reports.drop_last());
    }
}

/// A nested mount point that no module touches is bound back, never
/// overlaid: whatever the module roots, the paths and the hiding are, the
/// plan is the single bind mount of the stock content onto the mount point.
/// The decision depends on these inputs alone, so it is the same at every
/// call and in every order of calls.
pub proof fn lemma_untouched_child_is_bound(
    mount_point: Seq<char>,
    relative: Seq<char>,
    probes: Seq<(Seq<char>, EntryKind)>,
    stock_root: Seq<char>,
    stock_is_dir: bool,
    hide: bool,
)
    requires
        forall|i: int| 0 <= i < probes.len() ==> (#[trigger] probes[i]).1 == EntryKind::Absent,
    ensures
        restoration(mount_point, relative, probes, stock_root, stock_is_dir, hide)
            == ChildPlanModel::Mount(
            PlanModel {
                requests: seq![RequestModel::Bind { from: stock_root, to: mount_point }],
                destination: mount_point,
                hide,
            },
        ),
{
}

/// Where the stock path is a directory and a module root holds a
/// non-directory at the same relative path, the mount point is left as the
/// kernel had it: nothing is overlaid and nothing is bound.
pub proof fn lemma_conflict_leaves_mount(
    mount_point: Seq<char>,
    relative: Seq<char>,
    probes: Seq<(Seq<char>, EntryKind)>,
    stock_root: Seq<char>,
    hide: bool,
    i: int,
)
    requires
        0 <= i < probes.len(),
        probes[i].1 == EntryKind::Other,
    ensures
        restoration(mount_point, relative, probes, stock_root, true, hide)
            == ChildPlanModel::Skip(SkipReason::NonDirectoryConflict),
{
}

/// An overlay for a nested mount point has at least one module layer: where
/// the decision is to overlay, some module root holds a directory at the
/// relative path.
pub proof fn lemma_overlay_has_module_layer(
    probes: Seq<(Seq<char>, EntryKind)>,
    relative: Seq<char>,
)
    requires
        touched(probes),
        !conflicted(probes),
    ensures
        child_layers(probes, relative).len() > 0,
    decreases probes.len(),
{
    if probes.last().1 != EntryKind::Directory {
        let front = probes.drop_last();
        assert(front == probes.take(probes.len() - 1));
        lemma_one_more_probe(probes, probes.len() - 1);
        assert(probes.take(probes.len() as int) == probes);
        lemma_overlay_has_module_layer(front, relative);
    }
}

} // verus!
