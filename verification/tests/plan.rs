use hybrid_mount::error::EngineError;
use hybrid_mount::overlay::{bind_mount, mount_overlayfs};
use hybrid_mount::plan::{MountPlan, MountRequest, Progress};
use hybrid_mount::registry::UnmountRegistry;

fn overlay_plan(disable_umount: bool) -> MountPlan {
    mount_overlayfs(&vec!["/mods/a".to_string()], "/system", None, None, "/system", disable_umount)
}

/// Runs a plan against a backend that answers the requests with `outcomes`,
/// and gives the requests that were performed and where the plan ended.
fn run(plan: &MountPlan, outcomes: &[bool]) -> (Vec<MountRequest>, Progress) {
    let mut performed = Vec::new();
    let mut progress = plan.start();
    let mut answers = outcomes.iter();
    while let Some(request) = plan.current(progress) {
        performed.push(request.clone());
        let ok = *answers.next().expect("the backend ran out of answers");
        progress = plan.advance(progress, ok);
    }
    (performed, progress)
}

#[test]
fn the_modern_request_is_tried_first_and_ends_the_plan() {
    let plan = overlay_plan(false);
    let (performed, progress) = run(&plan, &[true]);
    assert_eq!(performed, vec![plan.requests[0].clone()]);
    assert_eq!(progress, Progress::Mounted(0));
}

#[test]
fn the_classic_request_follows_a_failed_modern_one() {
    let plan = overlay_plan(false);
    let (performed, progress) = run(&plan, &[false, true]);
    assert_eq!(performed, plan.requests);
    assert_eq!(progress, Progress::Mounted(1));
}

#[test]
fn the_plan_fails_when_both_requests_fail() {
    let plan = overlay_plan(false);
    let (performed, progress) = run(&plan, &[false, false]);
    assert_eq!(performed.len(), 2);
    assert_eq!(progress, Progress::Failed);
    let mut registry = UnmountRegistry::new();
    let result = plan.finish(progress, &mut registry, false);
    assert_eq!(result, Err(EngineError::AssemblyFailed { destination: "/system".to_string() }));
    assert_eq!(registry.len(), 0);
    assert_eq!(result.unwrap_err().message(), "mount overlayfs for root /system failed");
}

#[test]
fn a_mounted_destination_is_registered() {
    let plan = overlay_plan(false);
    let mut registry = UnmountRegistry::new();
    assert_eq!(plan.finish(Progress::Mounted(1), &mut registry, false), Ok(()));
    assert_eq!(registry.drain_for_signaling(), vec!["/system".to_string()]);
}

#[test]
fn a_mounted_destination_is_not_registered_when_hiding_is_off() {
    let plan = overlay_plan(true);
    let mut registry = UnmountRegistry::new();
    assert_eq!(plan.finish(Progress::Mounted(0), &mut registry, false), Ok(()));
    assert_eq!(registry.len(), 0);
    assert!(!registry.is_disabled());
}

#[test]
fn a_registration_that_meets_the_marker_does_not_fail_the_mount() {
    let plan = overlay_plan(false);
    let mut registry = UnmountRegistry::new();
    assert_eq!(plan.finish(Progress::Mounted(0), &mut registry, true), Ok(()));
    assert_eq!(registry.len(), 0);
    assert!(registry.is_disabled());
}

#[test]
fn an_unfinished_plan_does_not_count_as_mounted() {
    let plan = overlay_plan(false);
    let mut registry = UnmountRegistry::new();
    let result = plan.finish(Progress::Trying(0), &mut registry, false);
    assert_eq!(result, Err(EngineError::AssemblyFailed { destination: "/system".to_string() }));
    assert_eq!(registry.len(), 0);
}

#[test]
fn an_ended_plan_stays_as_it_is() {
    let plan = overlay_plan(false);
    assert_eq!(plan.advance(Progress::Mounted(0), false), Progress::Mounted(0));
    assert_eq!(plan.advance(Progress::Failed, true), Progress::Failed);
    assert_eq!(plan.current(Progress::Mounted(0)), None);
    assert_eq!(plan.current(Progress::Failed), None);
}

#[test]
fn a_position_beyond_the_plan_is_a_failure() {
    let plan = overlay_plan(false);
    assert_eq!(plan.current(Progress::Trying(2)), None);
    assert_eq!(plan.advance(Progress::Trying(2), true), Progress::Failed);
}

#[test]
fn a_plan_without_requests_has_failed() {
    let plan = MountPlan { requests: Vec::new(), destination: "/x".to_string(), hide: true };
    assert_eq!(plan.start(), Progress::Failed);
}

#[test]
fn a_bind_plan_has_no_fallback() {
    let plan = bind_mount("./vendor", "/system/vendor", false);
    assert_eq!(run(&plan, &[false]).1, Progress::Failed);
    assert_eq!(run(&plan, &[true]).1, Progress::Mounted(0));
}
