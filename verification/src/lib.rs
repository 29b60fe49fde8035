pub mod engine;
pub mod errors;
pub mod led;
pub mod lua;
pub mod project;
pub mod scaffold;
pub mod selection;
pub mod signal;
pub mod text;
pub mod value;

use crate::errors::MpError;
use crate::lua::MpLua;
use vstd::prelude::*;
use vstd::string::StringExecFns;

verus! {

/// Starts a session against an entry script: builds the bridge, loads the
/// script, and runs the scripted session start. The caller reads the entry
/// file and hands its text over, then drives the tick loop on the bridge
/// this returns. A failure here is fatal to the session.
pub fn run(input_path: &str, source: &str) -> (r: Result<MpLua, MpError>)
    ensures
        r matches Ok(m) ==> m.well_formed() && crate::lua::selections_rebuilt(m.selections)
            && m.pending_signals@ =~= Seq::<i64>::empty(),
        r matches Err(e) ==> (e is Load || e is Script || e is Schema),
{
    let mut bridge = match MpLua::new(String::from_str(input_path), source) {
        Ok(b) => b,
        Err(e) => {
            return Err(e);
        },
    };
    match bridge.awake() {
        Ok(()) => {},
        Err(e) => {
            return Err(e);
        },
    }
    Ok(bridge)
}

} // verus!
