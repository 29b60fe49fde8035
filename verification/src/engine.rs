use crate::value::ScriptValue;
use path_slash::PathExt;
use vstd::prelude::*;

verus! {

#[verifier::external_type_specification]
#[verifier::external_body]
pub struct ExLua(rlua::Lua);

#[verifier::external_type_specification]
#[verifier::external_body]
pub struct ExValue<'a>(rlua::Value<'a>);

#[verifier::external_type_specification]
#[verifier::external_body]
pub struct ExTable<'a>(rlua::Table<'a>);

/// Relies on rlua::Lua::new (mlua behind it): a fresh interpreter instance
/// with the safe standard libraries loaded.
#[verifier::external_body]
pub(crate) fn lua_new() -> (r: rlua::Lua) {
    rlua::Lua::new()
}

/// Relies on rlua::Lua::load and rlua::Chunk::exec (mlua behind them): the
/// chunk is compiled and run against the interpreter's globals; a syntax or
/// runtime error comes back as its printed text.
#[verifier::external_body]
pub(crate) fn lua_exec(lua: &rlua::Lua, code: &str) -> (r: Result<(), String>) {
    match lua.load(code).exec() {
        Ok(()) => Ok(()),
        Err(e) => Err(format!("{}", e)),
    }
}

/// How many table levels the marshalling walk descends before it summarizes
/// the rest, so that a cyclic or pathologically deep scripted table can
/// never hang or overflow the host's stack.
pub const MARSHAL_DEPTH: u32 = 64;

/// Relies on rlua::Value (mlua behind it): each variant is carried over one
/// for one; numbers and unrecognized kinds keep only their printed text, and
/// a function keeps only its presence. `budget` bounds the descent into
/// nested tables.
#[verifier::external_body]
fn marshal_value(v: rlua::Value<'_>, budget: u32) -> (r: ScriptValue) {
    match v {
        rlua::Value::Nil => ScriptValue::Nil,
        rlua::Value::Boolean(b) => ScriptValue::Bool(b),
        rlua::Value::Integer(n) => ScriptValue::Int(n),
        rlua::Value::Number(n) => ScriptValue::Num(format!("{}", n)),
        rlua::Value::String(s) => ScriptValue::Text(String::from(s.to_str().unwrap_or(""))),
        rlua::Value::Table(t) => marshal_table(t, budget),
        rlua::Value::Function(_) => ScriptValue::Callable,
        other => ScriptValue::Opaque(format!("{:?}", other)),
    }
}

/// Relies on rlua::Table::pairs (mlua behind it): walks the table's pairs in
/// the order the engine exposes, carrying each over one level deeper on a
/// smaller budget; a table met with no budget left is summarized as the
/// `table` placeholder, which also ends the walk of a cyclic table. A pair
/// that fails to read is left out; for untyped reads the engine's source
/// leaves such a failure no path short of allocation failure.
#[verifier::external_body]
fn marshal_table(t: rlua::Table<'_>, budget: u32) -> (r: ScriptValue) {
    if budget == 0 {
        return ScriptValue::Opaque(String::from("table"));
    }
    let mut entries: Vec<(ScriptValue, ScriptValue)> = Vec::new();
    for pair in t.pairs::<rlua::Value, rlua::Value>() {
        if let Ok((k, v)) = pair {
            entries.push((marshal_value(k, budget - 1), marshal_value(v, budget - 1)));
        }
    }
    ScriptValue::Table(entries)
}

/// Relies on rlua::Lua::globals and rlua::Table::get (mlua behind them):
/// reads one global by name, as nil when it is absent, and hands it over
/// marshalled down to the fixed depth budget; a failed read comes back as
/// its printed text.
#[verifier::external_body]
pub(crate) fn read_global(lua: &rlua::Lua, name: &str) -> (r: Result<ScriptValue, String>) {
    match lua.globals().get::<_, rlua::Value>(name) {
        Ok(v) => Ok(marshal_value(v, MARSHAL_DEPTH)),
        Err(e) => Err(format!("{}", e)),
    }
}

/// Relies on path_slash's PathExt::to_slash: every path separator becomes
/// '/', and a path made from valid UTF-8 text always converts (the crate
/// returns None only for paths that are not valid Unicode).
#[verifier::external_body]
pub(crate) fn slash_path(p: &str) -> (r: Option<String>)
    ensures
        r is Some,
{
    std::path::Path::new(p).to_slash().map(|c| c.into_owned())
}

} // verus!
