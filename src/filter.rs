use vstd::prelude::*;
use crate::text::{chars_of, starts_with, starts_with_at};

verus! {

/// Names that fish manages itself; a script must not set them.
/// `PWD` is among them, but it is propagated as a change of directory.
pub open spec fn shell_managed(n: Seq<char>) -> bool {
    ||| n == "PWD"@
    ||| n == "SHLVL"@
    ||| n == "history"@
    ||| n == "pipestatus"@
    ||| n == "status"@
    ||| n == "version"@
    ||| n == "FISH_VERSION"@
    ||| n == "fish_pid"@
    ||| n == "hostname"@
    ||| n == "_"@
    ||| n == "fish_private_mode"@
}

/// Names that the capture itself leaves behind.
pub open spec fn capture_noise(n: Seq<char>) -> bool {
    n == "PS1"@ || n == "XPC_SERVICE_NAME"@
}

/// A variable that is left out of additions and updates: managed by fish,
/// capture noise, a bash function exported through the environment, or a
/// name of internal bookkeeping (`%` first). `PWD` never is.
pub open spec fn is_suppressed(n: Seq<char>) -> bool {
    &&& n != "PWD"@
    &&& {
        ||| shell_managed(n)
        ||| capture_noise(n)
        ||| starts_with(n, "BASH_FUNC"@)
        ||| starts_with(n, "%"@)
    }
}

fn is_word(v: &Vec<char>, w: &str) -> (r: bool)
    ensures
        r == (v@ == w@),
{
    if v.len() != w.unicode_len() {
        return false;
    }
    let r = starts_with_at(v, 0, v.len(), w);
    assert(v@.subrange(0, v.len() as int) =~= v@);
    r
}

/// Whether changes to the variable `name` are kept out of the script.
pub fn ignored(name: &str) -> (r: bool)
    ensures
        r == is_suppressed(name@),
{
    let v = chars_of(name);
    if is_word(&v, "PWD") {
        return false;
    }
    let managed = is_word(&v, "PWD") || is_word(&v, "SHLVL") || is_word(&v, "history")
        || is_word(&v, "pipestatus") || is_word(&v, "status") || is_word(&v, "version")
        || is_word(&v, "FISH_VERSION") || is_word(&v, "fish_pid") || is_word(&v, "hostname")
        || is_word(&v, "_") || is_word(&v, "fish_private_mode");
    let noise = is_word(&v, "PS1") || is_word(&v, "XPC_SERVICE_NAME");
    assert(v@.subrange(0, v.len() as int) =~= v@);
    managed || noise || starts_with_at(&v, 0, v.len(), "BASH_FUNC") || starts_with_at(
        &v,
        0,
        v.len(),
        "%",
    )
}

/// Every name that fish manages, but `PWD`, and every name of capture
/// noise is suppressed; `PWD` is not.
pub proof fn lemma_suppression_set(n: Seq<char>)
    ensures
        shell_managed(n) && n != "PWD"@ ==> is_suppressed(n),
        capture_noise(n) ==> is_suppressed(n),
        !is_suppressed("PWD"@),
        shell_managed("PWD"@),
{
    reveal_strlit("PWD");
    reveal_strlit("PS1");
    reveal_strlit("XPC_SERVICE_NAME");
    assert("PS1"@[1] != "PWD"@[1]);
    assert("PS1"@ != "PWD"@);
    assert("XPC_SERVICE_NAME"@.len() != "PWD"@.len());
}

} // verus!
