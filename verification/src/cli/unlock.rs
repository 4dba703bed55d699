//! The `unlock` command's decisions.
use crate::text::{chars_of, contains, str_contains, trim, trim_chars, trim_str};
use vstd::prelude::*;

verus! {

/// `bw status` reports an unlocked vault.
pub fn is_unlocked(status_stdout: &str) -> (r: bool)
    ensures
        r == contains(status_stdout@, "\"unlocked\""@),
{
    str_contains(status_stdout, "\"unlocked\"")
}

/// The answer to "Refresh session? [y/N]" is yes: `y` or `Y`, white space
/// aside.
pub fn confirms_refresh(answer: &str) -> (r: bool)
    ensures
        r == (trim(answer@) == seq!['y'] || trim(answer@) == seq!['Y']),
{
    let a = chars_of(answer);
    let t = trim_chars(a.as_slice());
    if t.len() != 1 {
        return false;
    }
    assert(t@ == seq![t@[0]]);
    t[0] == 'y' || t[0] == 'Y'
}

/// The session that `bw unlock --raw` printed: its output without
/// surrounding white space, when that is not empty.
pub fn session_from_output(stdout: &str) -> (r: Option<String>)
    ensures
        trim(stdout@).len() == 0 ==> r is None,
        trim(stdout@).len() > 0 ==> (r matches Some(s) && s@ == trim(stdout@)),
{
    let s = trim_str(stdout);
    if s.as_str().is_empty() {
        None
    } else {
        Some(s)
    }
}

} // verus!
