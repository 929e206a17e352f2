//! Names and paths that the engine agrees on with the kernel and the device.

use vstd::prelude::*;

verus! {

/// The directory that holds the engine's configuration and logs.
pub const BASE_DIR: &'static str = "/data/adb/meta-hybrid/";

/// The directory of the engine's run-time state.
pub const RUN_DIR: &'static str = "/data/adb/meta-hybrid/run/";

/// Where module content is mounted when no staging area decides otherwise.
pub const FALLBACK_CONTENT_DIR: &'static str = "/data/adb/meta-hybrid/img_mnt/";

/// The state file that the user interface reads.
pub const STATE_FILE: &'static str = "/data/adb/meta-hybrid/run/daemon_state.json";

/// The log file that the user interface reads.
pub const DAEMON_LOG_FILE: &'static str = "/data/adb/meta-hybrid/daemon.log";

/// The directory for the writable side of overlays.
pub const SYSTEM_RW_DIR: &'static str = "/data/adb/meta-hybrid/rw";

/// The description of the engine's own module.
pub const MODULE_PROP_FILE: &'static str = "/data/adb/modules/meta-hybrid/module.prop";

/// The partitions that are always overlaid.
pub const BUILTIN_PARTITIONS: [&'static str; 6] = [
    "system",
    "vendor",
    "product",
    "system_ext",
    "odm",
    "oem",
];

/// The source name that every overlay mount of this engine carries.
pub const OVERLAY_SOURCE: &'static str = "KSU";

/// The file system type of an overlay mount.
pub const OVERLAY_FS: &'static str = "overlay";

/// The extended attribute that holds a file's security label.
pub const SELINUX_XATTR: &'static str = "security.selinux";

/// Marker files in a module's directory.
pub const DISABLE_FILE_NAME: &'static str = "disable";

pub const REMOVE_FILE_NAME: &'static str = "remove";

pub const SKIP_MOUNT_FILE_NAME: &'static str = "skip_mount";

/// The file that proves a directory to be a module.
pub const MODULE_PROP_FILE_NAME: &'static str = "module.prop";

/// The module whose deny list enforcement cancels the hiding of mounts.
pub const ENFORCEMENT_MODULE: &'static str = "zygisksu";

/// The staging area under which that cancellation applies.
pub const DEBUG_RAMDISK: &'static str = "/debug_ramdisk";

/// The directory under which random staging paths are made.
pub const TMP_PARENT: &'static str = "/mnt";

/// What a well-formed module identifier matches: a letter, then one or more
/// letters, digits, dots, underscores or hyphens.
pub const MODULE_ID_PATTERN: &'static str = "^[a-zA-Z][a-zA-Z0-9._-]+$";

/// The mount source that a configuration names where it names none.
pub const DEFAULT_MOUNT_SOURCE: &'static str = "KSU";

} // verus!
