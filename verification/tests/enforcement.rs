use hybrid_mount::enforcement::{cancels_hiding, has_enforcement_module, send_unmountable, ModuleEntry};
use hybrid_mount::error::EngineError;
use hybrid_mount::registry::UnmountRegistry;

fn module(name: &str) -> ModuleEntry {
    ModuleEntry {
        name: name.to_string(),
        is_dir: true,
        has_prop: true,
        disabled: false,
        removed: false,
        skip_mount: false,
    }
}

fn installed() -> Vec<ModuleEntry> {
    vec![module("meta-hybrid"), module("zygisksu"), module("other")]
}

#[test]
fn the_enforcement_module_is_found_by_its_name() {
    assert!(has_enforcement_module(&installed()));
    assert!(!has_enforcement_module(&vec![module("meta-hybrid"), module("zygisksu2")]));
    assert!(!has_enforcement_module(&Vec::new()));
}

#[test]
fn an_enforcement_module_that_takes_no_part_does_not_count() {
    let variants = [
        ModuleEntry { is_dir: false, ..module("zygisksu") },
        ModuleEntry { has_prop: false, ..module("zygisksu") },
        ModuleEntry { disabled: true, ..module("zygisksu") },
        ModuleEntry { removed: true, ..module("zygisksu") },
        ModuleEntry { skip_mount: true, ..module("zygisksu") },
    ];
    for entry in variants {
        assert!(!has_enforcement_module(&vec![module("a"), entry]));
    }
}

#[test]
fn enforcement_cancels_on_the_watched_staging_area_only() {
    assert!(cancels_hiding("1", Some("/debug_ramdisk")));
    assert!(cancels_hiding("", Some("/debug_ramdisk")));
    assert!(!cancels_hiding("0", Some("/debug_ramdisk")));
    assert!(!cancels_hiding("1", Some("/mnt/vendor")));
    assert!(!cancels_hiding("1", None));
}

#[test]
fn without_the_enforcement_module_the_mount_is_handed_on() {
    let mut registry = UnmountRegistry::new();
    let modules = vec![module("meta-hybrid")];
    assert_eq!(send_unmountable(&mut registry, &modules, None, Some("/debug_ramdisk")), Ok(true));
    assert_eq!(send_unmountable(&mut registry, &modules, Some("1"), Some("/debug_ramdisk")), Ok(true));
    assert!(!registry.is_disabled());
}

#[test]
fn an_enforced_deny_list_cancels_the_hiding_for_good() {
    let mut registry = UnmountRegistry::new();
    registry.register("/system", false);
    let result = send_unmountable(&mut registry, &installed(), Some(" 1\n"), Some("/debug_ramdisk\n"));
    assert_eq!(result, Ok(false));
    assert!(registry.is_disabled());
    assert_eq!(registry.len(), 1);
    // Later requests are refused whatever the modules and the setting are.
    assert_eq!(send_unmountable(&mut registry, &Vec::new(), Some("0"), None), Ok(false));
    assert_eq!(send_unmountable(&mut registry, &installed(), None, None), Ok(false));
    registry.register("/vendor", false);
    assert_eq!(registry.len(), 1);
}

#[test]
fn a_deny_list_that_is_not_enforced_lets_the_mount_be_hidden() {
    let mut registry = UnmountRegistry::new();
    assert_eq!(
        send_unmountable(&mut registry, &installed(), Some("0\n"), Some("/debug_ramdisk")),
        Ok(true)
    );
    assert_eq!(send_unmountable(&mut registry, &installed(), Some("1"), Some("/mnt")), Ok(true));
    assert_eq!(send_unmountable(&mut registry, &installed(), Some("1"), None), Ok(true));
    assert!(!registry.is_disabled());
}

#[test]
fn an_unreadable_setting_is_a_failure() {
    let mut registry = UnmountRegistry::new();
    let result = send_unmountable(&mut registry, &installed(), None, Some("/debug_ramdisk"));
    assert_eq!(result, Err(EngineError::EnforcementUnreadable));
    assert!(!registry.is_disabled());
    assert_eq!(
        result.unwrap_err().message(),
        "failed to read the deny list enforcement"
    );
}

#[test]
fn a_module_takes_part_unless_something_stands_against_it() {
    assert!(module("a").is_active());
    assert!(!ModuleEntry { is_dir: false, ..module("a") }.is_active());
    assert!(!ModuleEntry { has_prop: false, ..module("a") }.is_active());
    assert!(!ModuleEntry { disabled: true, ..module("a") }.is_active());
    assert!(!ModuleEntry { removed: true, ..module("a") }.is_active());
    assert!(!ModuleEntry { skip_mount: true, ..module("a") }.is_active());
}
