//! The reboot-required sentinel: purely advisory, never blocking.

use vstd::prelude::*;

verus! {

/// Relies on `std::path::Path::exists` for the sentinel file the host
/// creates when a reboot is needed. The answer depends on the disk, so
/// nothing is promised of it; the flag is advisory only.
#[verifier::external_body]
pub fn is_reboot_required() -> bool {
    std::path::Path::new("/var/run/reboot-required").exists()
}

} // verus!
