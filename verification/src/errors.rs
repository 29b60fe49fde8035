use vstd::prelude::*;
use vstd::string::StringExecFns;

verus! {

/// The bridge's error taxonomy. Every per-tick step is isolated: a failure in
/// one model's rebuild leaves the other models and the prior snapshot intact.
#[derive(Debug)]
pub enum MpError {
    /// The entry script failed to parse or execute at load time; fatal to
    /// session start.
    Load(String),
    /// A required scripted field is absent or mis-typed while building a
    /// model; aborts that model's rebuild for the current tick.
    Schema(String),
    /// The state table could not be projected for display this tick.
    Projection(String),
    /// An invocation target index does not exist in the active selection
    /// model.
    SelectionIndex,
    /// A selection callback raised while being invoked.
    Callback(String),
    /// The script engine reported an error while running a chunk.
    Script(String),
}

/// The diagnostic line for an error, as the host's log channel prints it.
pub open spec fn spec_describe(e: MpError) -> Seq<char> {
    match e {
        MpError::Load(m) => "[LoadError]"@ + m@,
        MpError::Schema(m) => "[SchemaError]"@ + m@,
        MpError::Projection(m) => "[ProjectionError]"@ + m@,
        MpError::SelectionIndex => "[SelectionIndexError]"@,
        MpError::Callback(m) => "[CallbackError]"@ + m@,
        MpError::Script(m) => "[LuaError]"@ + m@,
    }
}

impl MpError {
    /// Renders the error as one diagnostic line.
    pub fn describe(&self) -> (r: String)
        ensures
            r@ == spec_describe(*self),
    {
        match self {
            MpError::Load(m) => {
                let mut s = String::from_str("[LoadError]");
                s.append(m.as_str());
                s
            },
            MpError::Schema(m) => {
                let mut s = String::from_str("[SchemaError]");
                s.append(m.as_str());
                s
            },
            MpError::Projection(m) => {
                let mut s = String::from_str("[ProjectionError]");
                s.append(m.as_str());
                s
            },
            MpError::SelectionIndex => String::from_str("[SelectionIndexError]"),
            MpError::Callback(m) => {
                let mut s = String::from_str("[CallbackError]");
                s.append(m.as_str());
                s
            },
            MpError::Script(m) => {
                let mut s = String::from_str("[LuaError]");
                s.append(m.as_str());
                s
            },
        }
    }
}

} // verus!
