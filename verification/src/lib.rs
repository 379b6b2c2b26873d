//! Decision logic of a self-update pipeline for a multi-binary toolchain:
//! version comparison over embedded date tokens, download-manifest and URL
//! construction, aggregate progress accounting, the outcome of the download
//! batch raced against an interrupt, and the per-item install plan, including
//! recognising when the destination is the running executable itself. All
//! network and file work stays with the caller; these functions turn plain
//! values into decisions, with contracts proved by Verus.

use vstd::prelude::*;

pub mod dates;
pub mod manifest;
pub mod paths;
pub mod pipeline;
pub mod progress;
pub mod strutil;
pub mod version;

verus! {

/// Command-line options for the upgrade operation.
pub struct UpgradeSubcommand {
    /// Skip the remote version check and upgrade unconditionally.
    pub force: bool,
}

} // verus!
