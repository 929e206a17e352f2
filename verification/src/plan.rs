//! Mount requests and the fallback chain that runs them.
//!
//! The engine never mounts anything itself. It hands out requests, is told
//! how each one went, and decides what comes next: a plan lists the requests
//! for one destination in the order of preference, the first that succeeds
//! ends the plan, and the plan fails only when every request has failed.

use vstd::prelude::*;
use crate::error::EngineError;
use crate::registry::{after_register, UnmountRegistry};

verus! {

/// One mount operation for the caller to perform.
#[derive(Debug, Clone, PartialEq, Eq)]
pub enum MountRequest {
    /// A detached overlay instance, configured with `options` in this order,
    /// created, and moved onto `destination`.
    ModernOverlay { options: Vec<(String, String)>, destination: String },
    /// The classic single call: an overlay from `source` on `destination`
    /// with the option string `data` and no flags.
    LegacyOverlay { source: String, destination: String, data: String },
    /// A recursive, detached clone of the tree at `from`, moved onto `to`.
    Bind { from: String, to: String },
}

pub enum RequestModel {
    ModernOverlay { options: Seq<(Seq<char>, Seq<char>)>, destination: Seq<char> },
    LegacyOverlay { source: Seq<char>, destination: Seq<char>, data: Seq<char> },
    Bind { from: Seq<char>, to: Seq<char> },
}

/// The views of a list of key and value pairs, pair by pair.
pub open spec fn option_views(v: Seq<(String, String)>) -> Seq<(Seq<char>, Seq<char>)> {
    Seq::new(v.len(), |i: int| (v[i].0@, v[i].1@))
}

impl View for MountRequest {
    type V = RequestModel;

    open spec fn view(&self) -> RequestModel {
        match self {
            MountRequest::ModernOverlay { options, destination } => RequestModel::ModernOverlay {
                options: option_views(options@),
                destination: destination@,
            },
            MountRequest::LegacyOverlay { source, destination, data } => {
                RequestModel::LegacyOverlay {
                    source: source@,
                    destination: destination@,
                    data: data@,
                }
            },
            MountRequest::Bind { from, to } => RequestModel::Bind { from: from@, to: to@ },
        }
    }
}

impl RequestModel {
    /// Where the request mounts.
    pub open spec fn target(self) -> Seq<char> {
        match self {
            RequestModel::ModernOverlay { destination, .. } => destination,
            RequestModel::LegacyOverlay { destination, .. } => destination,
            RequestModel::Bind { to, .. } => to,
        }
    }
}

/// The views of a list of requests, request by request.
pub open spec fn request_views(v: Seq<MountRequest>) -> Seq<RequestModel> {
    Seq::new(v.len(), |i: int| v[i]@)
}

/// How far a plan has come.
#[derive(Clone, Copy, PartialEq, Eq, Structural, Debug)]
pub enum Progress {
    /// The request with this index is to be performed next.
    Trying(usize),
    /// The request with this index succeeded; nothing is left to do.
    Mounted(usize),
    /// Every request failed.
    Failed,
}

/// Where a plan of `n` requests begins.
pub open spec fn started(n: nat) -> Progress {
    if n > 0 {
        Progress::Trying(0)
    } else {
        Progress::Failed
    }
}

/// Where a plan of `n` requests stands after the request that `p` names
/// succeeded (`ok`) or failed.
pub open spec fn advanced(n: nat, p: Progress, ok: bool) -> Progress {
    match p {
        Progress::Trying(i) => if i >= n {
            Progress::Failed
        } else if ok {
            Progress::Mounted(i)
        } else if i + 1 < n {
            Progress::Trying((i + 1) as usize)
        } else {
            Progress::Failed
        },
        _ => p,
    }
}

/// Where a plan of `n` requests stands after the outcomes `outcomes` were
/// reported one after another, from the start.
pub open spec fn ran(n: nat, outcomes: Seq<bool>) -> Progress
    decreases outcomes.len(),
{
    if outcomes.len() == 0 {
        started(n)
    } else {
        advanced(n, ran(n, outcomes.drop_last()), outcomes.last())
    }
}

/// Requests to try in order for one destination.
#[derive(Debug, Clone, PartialEq, Eq)]
pub struct MountPlan {
    pub requests: Vec<MountRequest>,
    pub destination: String,
    /// Whether the destination is registered for hiding once it is mounted.
    pub hide: bool,
}

pub struct PlanModel {
    pub requests: Seq<RequestModel>,
    pub destination: Seq<char>,
    pub hide: bool,
}

impl View for MountPlan {
    type V = PlanModel;

    open spec fn view(&self) -> PlanModel {
        PlanModel {
            requests: request_views(self.requests@),
            destination: self.destination@,
            hide: self.hide,
        }
    }
}

impl MountPlan {
    /// The first request is tried first; a plan without requests has failed.
    pub fn start(&self) -> (p: Progress)
        ensures
            p == started(self@.requests.len()),
    {
        if self.requests.len() > 0 {
            Progress::Trying(0)
        } else {
            Progress::Failed
        }
    }

    /// The request to perform now, if the plan is still running.
    pub fn current(&self, progress: Progress) -> (r: Option<&MountRequest>)
        ensures
            match progress {
                Progress::Trying(i) if i < self@.requests.len() => r matches Some(q) && q@
                    == self@.requests[i as int],
                _ => r is None,
            },
    {
        match progress {
            Progress::Trying(i) => {
                if i < self.requests.len() {
                    Some(&self.requests[i])
                } else {
                    None
                }
            },
            _ => None,
        }
    }

    /// Takes in how the current request went. Success ends the plan; after a
    /// failure the next request is due, and after the last failure the plan
    /// has failed. A plan that has ended stays as it is.
    pub fn advance(&self, progress: Progress, succeeded: bool) -> (p: Progress)
        ensures
            p == advanced(self@.requests.len(), progress, succeeded),
    {
        match progress {
            Progress::Trying(i) => {
                if i >= self.requests.len() {
                    Progress::Failed
                } else if succeeded {
                    Progress::Mounted(i)
                } else if i + 1 < self.requests.len() {
                    Progress::Trying(i + 1)
                } else {
                    Progress::Failed
                }
            },
            _ => progress,
        }
    }

    /// Closes the plan. After a success the destination is registered for
    /// hiding unless the plan says otherwise, and the result is `Ok` whatever
    /// the registry did with it. Without a success nothing is registered and
    /// the result is `AssemblyFailed`.
    pub fn finish(
        &self,
        progress: Progress,
        registry: &mut UnmountRegistry,
        marker_present: bool,
    ) -> (r: Result<(), EngineError>)
        ensures
            progress is Mounted ==> r is Ok && final(registry)@ == if self.hide {
                after_register(old(registry)@, self.destination@, marker_present)
            } else {
                old(registry)@
            },
            !(progress is Mounted) ==> final(registry)@ == old(registry)@ && (r matches Err(
                EngineError::AssemblyFailed { destination },
            ) && destination@ == self.destination@),
    {
        match progress {
            Progress::Mounted(_) => {
                if self.hide {
                    registry.register(self.destination.as_str(), marker_present);
                }
                Ok(())
            },
            _ => Err(EngineError::AssemblyFailed { destination: self.destination.clone() }),
        }
    }
}

/// A plan ends at the first request that succeeds: with failures reported for
/// the requests before `k` and a success for request `k`, request `k` is the
/// one that mounted, whatever is reported afterwards.
pub proof fn lemma_first_success_wins(n: nat, outcomes: Seq<bool>, k: int)
    requires
        0 <= k < n,
        k < outcomes.len(),
        n <= usize::MAX,
        outcomes[k],
        forall|j: int| 0 <= j < k ==> !outcomes[j],
    ensures
        ran(n, outcomes) == Progress::Mounted(k as usize),
    decreases outcomes.len(),
{
    if outcomes.len() == k + 1 {
        lemma_failures_so_far(n, outcomes.drop_last());
    } else {
        lemma_first_success_wins(n, outcomes.drop_last(), k);
    }
}

/// While every reported outcome is a failure, the plan tries its requests in
/// order, one per report, and has failed once all are used up.
pub proof fn lemma_failures_so_far(n: nat, outcomes: Seq<bool>)
    requires
        n <= usize::MAX,
        forall|j: int| 0 <= j < outcomes.len() ==> !outcomes[j],
    ensures
        ran(n, outcomes) == if outcomes.len() < n {
            Progress::Trying(outcomes.len() as usize)
        } else {
            Progress::Failed
        },
    decreases outcomes.len(),
{
    if outcomes.len() > 0 {
        lemma_failures_so_far(n, outcomes.drop_last());
    }
}

} // verus!
