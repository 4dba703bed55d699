//! The `status` command's reading of `bw status`.
use crate::text::{contains, str_contains};
use vstd::prelude::*;

verus! {

/// How `status` describes Bitwarden, from the output of `bw status`.
pub open spec fn bitwarden_state_text(stdout: Seq<char>) -> Seq<char> {
    if contains(stdout, "\"unlocked\""@) {
        "unlocked"@
    } else if contains(stdout, "\"locked\""@) {
        "locked (run: keyflow unlock)"@
    } else {
        "not logged in"@
    }
}

/// Describe Bitwarden's state from the output of `bw status`.
pub fn bitwarden_state(stdout: &str) -> (r: String)
    ensures
        r@ == bitwarden_state_text(stdout@),
{
    if str_contains(stdout, "\"unlocked\"") {
        "unlocked".to_owned()
    } else if str_contains(stdout, "\"locked\"") {
        "locked (run: keyflow unlock)".to_owned()
    } else {
        "not logged in".to_owned()
    }
}

} // verus!
