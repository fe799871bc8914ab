//! Interactivity.
use vstd::prelude::*;

verus! {

/// Whether interactive prompts should run. A prompt is only shown when the user did not pass
/// `--yes` *and* stdin is a real terminal: piping or redirecting input must never block on a
/// widget, mirroring how `npm`/`cargo` degrade to non-interactive behavior.
pub fn is_interactive(yes: bool, terminal: bool) -> (r: bool)
    ensures
        r == (!yes && terminal),
{
    !yes && terminal
}

/// Questions are asked on a terminal alone, and never where everything was agreed to.
pub proof fn questions_are_asked_on_a_terminal(yes: bool, terminal: bool, r: bool)
    requires
        call_ensures(is_interactive, (yes, terminal), r),
    ensures
        yes ==> !r,
        !terminal ==> !r,
        terminal && !yes ==> r,
{
}

} // verus!
