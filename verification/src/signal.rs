use crate::errors::MpError;
use crate::value::find_int_key;
use crate::value::lookup_int_key;
use crate::value::ScriptValue;
use vstd::prelude::*;
use vstd::string::StringExecFns;

verus! {

/// Signal code a script enqueues to ask the host to rebuild the selection
/// model on the next tick.
pub const SIGNAL_RELOAD_SELECTION: i64 = 1;

/// A host-side action requested by a drained signal code.
#[derive(Clone, Copy, PartialEq, Eq, Structural, Debug)]
pub enum SignalAction {
    ReloadSelectionModel,
}

/// What a raw signal code asks of the host; unrecognized codes ask nothing.
pub open spec fn spec_decode_signal(code: i64) -> Option<SignalAction> {
    if code == SIGNAL_RELOAD_SELECTION {
        Some(SignalAction::ReloadSelectionModel)
    } else {
        None
    }
}

/// Decodes one raw signal code; unrecognized codes are ignored as a
/// forward-compatible no-op.
pub fn decode_signal(code: i64) -> (r: Option<SignalAction>)
    ensures
        r == spec_decode_signal(code),
{
    if code == SIGNAL_RELOAD_SELECTION {
        Some(SignalAction::ReloadSelectionModel)
    } else {
        None
    }
}

/// The scripting-side signal library the bridge injects before `awake`
/// runs: the writable signal table, the named signal constants, and the
/// enqueue function scripts call from callbacks.
pub fn signal_library_source() -> (r: &'static str)
    ensures
        r@ == "mp_signal = {}\nMP_SIGNAL_RELOAD_SELECTION = 1\nfunction mp_send_signal(code)\n    table.insert(mp_signal, code)\nend\n"@,
{
    "mp_signal = {}\nMP_SIGNAL_RELOAD_SELECTION = 1\nfunction mp_send_signal(code)\n    table.insert(mp_signal, code)\nend\n"
}

/// The signal codes the scripted signal table holds, read FIFO: the values
/// under the consecutive ordinals 1, 2, ... until the first missing
/// ordinal, keeping the integer-valued ones. `fuel` bounds the walk.
pub open spec fn spec_signal_batch(
    entries: Seq<(ScriptValue, ScriptValue)>,
    ord: i64,
    fuel: nat,
) -> Seq<i64>
    decreases fuel,
{
    if fuel == 0 {
        Seq::empty()
    } else {
        match lookup_int_key(entries, ord) {
            Some(v) => (match v {
                ScriptValue::Int(code) => seq![code],
                _ => Seq::empty(),
            }) + (if ord < i64::MAX {
                spec_signal_batch(entries, (ord + 1) as i64, (fuel - 1) as nat)
            } else {
                Seq::empty()
            }),
            None => Seq::empty(),
        }
    }
}

/// Reads the scripted signal table's codes in enqueue order.
pub fn signal_batch(entries: &Vec<(ScriptValue, ScriptValue)>) -> (r: Vec<i64>)
    ensures
        r@ == spec_signal_batch(entries@, 1, entries@.len()),
{
    let ghost full = spec_signal_batch(entries@, 1, entries@.len());
    let mut out: Vec<i64> = Vec::new();
    let mut ord: i64 = 1;
    let mut fuel: usize = entries.len();
    loop
        invariant_except_break
            out@ + spec_signal_batch(entries@, ord, fuel as nat) == full,
        ensures
            out@ == full,
        decreases fuel,
    {
        let ghost before = out@;
        let ghost rest = spec_signal_batch(entries@, ord, fuel as nat);
        if fuel == 0 {
            proof {
                assert(before + rest =~= before);
            }
            break ;
        }
        match find_int_key(entries, ord) {
            None => {
                proof {
                    assert(before + rest =~= before);
                }
                break ;
            },
            Some(v) => {
                match v {
                    ScriptValue::Int(code) => {
                        out.push(*code);
                    },
                    _ => {},
                }
                if ord == i64::MAX {
                    proof {
                        assert(out@ =~= before + rest);
                    }
                    break ;
                }
                ord = ord + 1;
                fuel = fuel - 1;
                proof {
                    assert(out@ + spec_signal_batch(entries@, ord, fuel as nat) =~= before + rest);
                }
            },
        }
    }
    out
}

/// Reads the marshalled signal global: the codes of a table in enqueue
/// order; any other value is a schema error.
pub fn batch_from_value(sv: &ScriptValue) -> (r: Result<Vec<i64>, MpError>)
    ensures
        match r {
            Ok(b) => sv matches ScriptValue::Table(es) && b@ == spec_signal_batch(
                es@,
                1,
                es@.len(),
            ),
            Err(e) => e is Schema && !(sv is Table),
        },
{
    match sv {
        ScriptValue::Table(es) => Ok(signal_batch(es)),
        _ => Err(MpError::Schema(String::from_str("signal table is not a table"))),
    }
}

/// The host-side actions a drained batch asks for, in enqueue order, with
/// unrecognized codes dropped.
pub open spec fn spec_plan(batch: Seq<i64>) -> Seq<SignalAction>
    decreases batch.len(),
{
    if batch.len() == 0 {
        Seq::empty()
    } else {
        (match spec_decode_signal(batch[0]) {
            Some(a) => seq![a],
            None => Seq::empty(),
        }) + spec_plan(batch.drop_first())
    }
}

/// Dispatch order follows enqueue order, and codes enqueued after a
/// snapshot was taken are dispatched strictly after, never among, the
/// snapshot's own actions: the plan of a queue splits as the plan of its
/// earlier part followed by the plan of its later part.
pub proof fn lemma_plan_append(a: Seq<i64>, b: Seq<i64>)
    ensures
        spec_plan(a + b) == spec_plan(a) + spec_plan(b),
    decreases a.len(),
{
    if a.len() == 0 {
        assert(a + b =~= b);
        assert(spec_plan(a) + spec_plan(b) =~= spec_plan(b));
    } else {
        assert((a + b)[0] == a[0]);
        assert((a + b).len() != 0);
        assert((a + b).drop_first() =~= a.drop_first() + b);
        lemma_plan_append(a.drop_first(), b);
        assert(spec_plan(a + b) =~= spec_plan(a) + spec_plan(b));
    }
}

} // verus!
