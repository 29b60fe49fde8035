use vstd::prelude::*;

verus! {

/// What the scaffold command does for a target path.
#[derive(Clone, Copy, PartialEq, Eq, Structural, Debug)]
pub enum ScaffoldAction {
    /// Write the scaffold script to the path.
    WriteScaffold,
    /// Leave the existing file untouched.
    KeepExisting,
}

/// The scaffold script written for a fresh project: a state table, one
/// selection entry whose callback writes into the state, and the scripted
/// `update` and `awake` hooks.
pub fn scaffold_source() -> (r: &'static str) {
    "\nmp_state = {}\nmp_selection =\n{\n    {\n        text = \"hello\",\n        callback = function()\n            mp_state.str = \"hello maple\"\n        end,\n    }\n}\nfunction update(delta, time_since_start)\n    mp_state.delta = delta\n    mp_state.time_since_start = time_since_start\n    mp_state.fps = math.floor(1 / delta)\nend\n\nfunction awake()\n    print(\"awake\")\nend\n"
}

/// Decides the scaffold command: a path that already holds a file gets no
/// write at all, and either way the command succeeds. The caller performs
/// the one filesystem write the decision asks for.
pub fn scaffold_action(already_exists: bool) -> (r: ScaffoldAction)
    ensures
        already_exists ==> r == ScaffoldAction::KeepExisting,
        !already_exists ==> r == ScaffoldAction::WriteScaffold,
{
    if already_exists {
        ScaffoldAction::KeepExisting
    } else {
        ScaffoldAction::WriteScaffold
    }
}

} // verus!
