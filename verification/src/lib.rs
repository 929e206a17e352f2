//! The overlay mount engine of a module manager for rooted devices.
//!
//! Module directories are composed, partition by partition, into one view
//! that is mounted over the real partition, and every mount that the kernel
//! had below the partition's root is restored on top of it. The engine
//! decides; it never touches the disk or the mount table itself. Callers look
//! at the system, hand over what they found as plain values, perform the
//! mount requests that come back and report how each went.
//!
//!  - `overlay`: the layers of one overlay and the requests that mount it.
//!  - `plan`: a chain of requests with fallback, and how it is run.
//!  - `inspect`, `order`, `paths`: which mount points lie under a root, and
//!    in which order they are restored.
//!  - `restore`: what is done about each of them, and the work for a whole
//!    partition.
//!  - `registry`, `enforcement`: the mounts to hide, and when hiding stops.
//!  - `utils`, `selinux`, `config`, `error`, `defs`, `text`: what the above
//!    stand on.

pub mod config;
pub mod defs;
pub mod enforcement;
pub mod error;
pub mod inspect;
pub mod order;
pub mod overlay;
pub mod paths;
pub mod plan;
pub mod registry;
pub mod restore;
pub mod selinux;
pub mod text;
pub mod utils;
