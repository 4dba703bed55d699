//! Global hotkeys: parsing, the per-platform key tables and the hotkey
//! registries.
pub mod dispatch;
pub mod keys;
pub mod linux;
pub mod macos;
pub mod parts;
pub mod windows;

use std::sync::atomic::AtomicBool;
use std::sync::Arc;
use vstd::prelude::*;

verus! {

/// Calls `Arc::clone` on a running flag. Claimed: std documents that the
/// clone points to the same allocation, so it is the same flag.
#[verifier::external_body]
pub(crate) fn share_flag(flag: &Arc<AtomicBool>) -> (r: Arc<AtomicBool>)
    ensures
        r == *flag,
{
    flag.clone()
}

} // verus!
