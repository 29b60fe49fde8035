use crate::engine::lua_exec;
use crate::engine::lua_new;
use crate::engine::read_global;
use crate::engine::slash_path;
use crate::errors::MpError;
use crate::led::Led;
use crate::project::item_text;
use crate::project::project_state;
use crate::project::some_projection;
use crate::project::spec_project;
use crate::project::spec_projected;
use crate::project::UiStatus;
use crate::project::UiStatusItem;
use crate::selection::build_selection_model;
use crate::selection::item_view;
use crate::selection::selection_ok;
use crate::selection::spec_built;
use crate::selection::spec_has_index;
use crate::selection::UiSelection;
use crate::signal::batch_from_value;
use crate::signal::signal_library_source;
use crate::signal::spec_decode_signal;
use crate::signal::spec_plan;
use crate::signal::SignalAction;
use crate::text::dec_digits;
use crate::text::i64_to_string;
use crate::text::spec_i64_text;
use crate::text::u64_to_string;
use crate::value::ScriptValue;
use vstd::prelude::*;
use vstd::string::StrSliceExecFns;
use vstd::string::StringExecFns;

verus! {

/// The directory part of a slash path: everything before the last '/', or
/// empty when the path names no directory.
pub open spec fn spec_parent_dir(p: Seq<char>) -> Seq<char>
    decreases p.len(),
{
    if p.len() == 0 {
        Seq::empty()
    } else if p.last() == '/' {
        p.drop_last()
    } else {
        spec_parent_dir(p.drop_last())
    }
}

/// Computes the directory part of a slash path.
pub fn parent_dir(p: &str) -> (r: String)
    ensures
        r@ == spec_parent_dir(p@),
{
    let n = p.unicode_len();
    let mut i: usize = n;
    proof {
        assert(p@.take(n as int) =~= p@);
    }
    while i > 0
        invariant
            i <= n,
            n == p@.len(),
            spec_parent_dir(p@) == spec_parent_dir(p@.take(i as int)),
        decreases i,
    {
        let c = p.get_char(i - 1);
        proof {
            assert(p@.take(i as int).last() == p@[i as int - 1]);
            assert(p@.take(i as int).drop_last() =~= p@.take(i as int - 1));
        }
        if c == '/' {
            let dir = p.substring_char(0, i - 1);
            return String::from_str(dir);
        }
        i = i - 1;
    }
    proof {
        assert(p@.take(0) =~= Seq::<char>::empty());
    }
    String::new()
}

/// The chunk that appends the entry directory to the engine's module search
/// path, so sibling scripts can be included by relative name.
pub open spec fn spec_require_path_snippet(dir: Seq<char>) -> Seq<char> {
    "package.path = package.path..';'..'./"@ + dir + "/?.lua'"@
}

/// Builds the module-search-path chunk for one directory.
pub fn require_path_snippet(dir: &str) -> (r: String)
    ensures
        r@ == spec_require_path_snippet(dir@),
{
    let mut s = String::from_str("package.path = package.path..';'..'./");
    s.append(dir);
    s.append("/?.lua'");
    s
}

/// The chunk that invokes the scripted per-tick update: the two times are
/// handed over as whole milliseconds and the script receives seconds.
pub open spec fn spec_update_snippet(delta_ms: u64, elapsed_ms: u64) -> Seq<char> {
    "update("@ + dec_digits(delta_ms as nat) + "/1000,"@ + dec_digits(elapsed_ms as nat)
        + "/1000)"@
}

/// Builds the per-tick update call chunk.
pub fn update_call_snippet(delta_ms: u64, elapsed_ms: u64) -> (r: String)
    ensures
        r@ == spec_update_snippet(delta_ms, elapsed_ms),
{
    let mut s = String::from_str("update(");
    let d = u64_to_string(delta_ms);
    s.append(d.as_str());
    s.append("/1000,");
    let e = u64_to_string(elapsed_ms);
    s.append(e.as_str());
    s.append("/1000)");
    s
}

/// The chunk that invokes the callback of the selection entry at one
/// script-side ordinal.
pub open spec fn spec_selection_snippet(index: i64) -> Seq<char> {
    "mp_selection["@ + spec_i64_text(index as int) + "].callback()"@
}

/// Builds the selection-callback call chunk for one ordinal.
pub fn selection_call_snippet(index: i64) -> (r: String)
    ensures
        r@ == spec_selection_snippet(index),
{
    let mut s = String::from_str("mp_selection[");
    let ix = i64_to_string(index);
    s.append(ix.as_str());
    s.append("].callback()");
    s
}

/// Whether an active selection model was rebuilt from some well-formed
/// scripted collection.
pub open spec fn selections_rebuilt(s: Option<UiSelection>) -> bool {
    s matches Some(m) && exists|entries: Seq<(ScriptValue, ScriptValue)>|
        selection_ok(entries) && spec_built(m.items@, entries)
}

/// Whether the bridge's active model holds an entry with the ordinal.
pub open spec fn spec_active_has_index(s: Option<UiSelection>, index: i64) -> bool {
    s matches Some(m) && spec_has_index(m.items@, index)
}

/// The scripting bridge: owns the embedded interpreter and the loaded
/// script's globals, the active selection model, the host-side signal
/// queue, and the persistent indicator grid.
pub struct MpLua {
    pub lua: rlua::Lua,
    pub entry_file: String,
    pub selections: Option<UiSelection>,
    pub pending_signals: Vec<i64>,
    pub led: Led,
}

impl MpLua {
    /// The bridge's own invariant: the persistent grid keeps its size.
    pub open spec fn well_formed(&self) -> bool {
        self.led.well_formed()
    }

    /// Creates the bridge: a fresh interpreter whose module search path
    /// includes the entry script's directory, with the entry source already
    /// executed once. The caller reads the entry file and hands its text
    /// over; a failure here is fatal to session start.
    pub fn new(entry_file: String, source: &str) -> (r: Result<MpLua, MpError>)
        ensures
            match r {
                Ok(m) => {
                    &&& m.well_formed()
                    &&& m.entry_file@ == entry_file@
                    &&& m.selections is None
                    &&& m.pending_signals@ == Seq::<i64>::empty()
                },
                Err(e) => e is Load,
            },
    {
        let lua = lua_new();
        let slashed = slash_path(entry_file.as_str()).unwrap();
        let dir = parent_dir(slashed.as_str());
        let snippet = require_path_snippet(dir.as_str());
        match lua_exec(&lua, snippet.as_str()) {
            Ok(()) => {},
            Err(m) => {
                return Err(MpError::Load(m));
            },
        }
        match lua_exec(&lua, source) {
            Ok(()) => {},
            Err(m) => {
                return Err(MpError::Load(m));
            },
        }
        Ok(
            MpLua {
                lua,
                entry_file,
                selections: None,
                pending_signals: Vec::new(),
                led: Led::default(),
            },
        )
    }

    /// Runs session start: builds the first selection model, resets the
    /// signal queue, injects the host's scripting API, and invokes the
    /// scripted `awake`. A failure here is unrecoverable for the session.
    pub fn awake(&mut self) -> (r: Result<(), MpError>)
        ensures
            final(self).entry_file == old(self).entry_file,
            final(self).led == old(self).led,
            r is Ok ==> selections_rebuilt(final(self).selections)
                && final(self).pending_signals@ == Seq::<i64>::empty(),
            r matches Err(e) ==> (e is Script || e is Schema),
    {
        match self.load_ui_selection() {
            Ok(()) => {},
            Err(e) => {
                return Err(e);
            },
        }
        match self.clear_signals() {
            Ok(()) => {},
            Err(e) => {
                return Err(e);
            },
        }
        match self.inject_functions() {
            Ok(()) => {},
            Err(e) => {
                return Err(e);
            },
        }
        match self.run_awake() {
            Ok(()) => {},
            Err(e) => {
                return Err(e);
            },
        }
        Ok(())
    }

    /// Injects the host's scripting API: the signal table, the named signal
    /// constants, and the enqueue function, all defined before `awake` runs.
    fn inject_functions(&self) -> (r: Result<(), MpError>)
        ensures
            r is Err ==> (r matches Err(e) && e is Script),
    {
        match lua_exec(&self.lua, signal_library_source()) {
            Ok(()) => Ok(()),
            Err(m) => Err(MpError::Script(m)),
        }
    }

    /// Resets the scripted signal table and the host-side queue to empty.
    fn clear_signals(&mut self) -> (r: Result<(), MpError>)
        ensures
            final(self).entry_file == old(self).entry_file,
            final(self).selections == old(self).selections,
            final(self).led == old(self).led,
            r is Ok ==> final(self).pending_signals@ == Seq::<i64>::empty(),
            r is Err ==> (r matches Err(e) && e is Script && final(self).pending_signals == old(
                self,
            ).pending_signals),
    {
        match lua_exec(&self.lua, "mp_signal = {}") {
            Ok(()) => {},
            Err(m) => {
                return Err(MpError::Script(m));
            },
        }
        self.pending_signals = Vec::new();
        Ok(())
    }

    /// Invokes the scripted `awake` once.
    fn run_awake(&self) -> (r: Result<(), MpError>)
        ensures
            r is Err ==> (r matches Err(e) && e is Script),
    {
        match lua_exec(&self.lua, "awake()") {
            Ok(()) => Ok(()),
            Err(m) => Err(MpError::Script(m)),
        }
    }

    /// Rebuilds the selection model from the scripted collection and swaps
    /// it in atomically; on failure the previous model stays active.
    fn load_ui_selection(&mut self) -> (r: Result<(), MpError>)
        ensures
            final(self).entry_file == old(self).entry_file,
            final(self).pending_signals == old(self).pending_signals,
            final(self).led == old(self).led,
            match r {
                Ok(()) => selections_rebuilt(final(self).selections),
                Err(e) => final(self).selections == old(self).selections && (e is Script
                    || e is Schema),
            },
    {
        let sv = match read_global(&self.lua, "mp_selection") {
            Ok(v) => v,
            Err(m) => {
                return Err(MpError::Script(m));
            },
        };
        let model = match build_selection_model(&sv) {
            Ok(m) => m,
            Err(e) => {
                return Err(e);
            },
        };
        self.selections = Some(model);
        Ok(())
    }

    /// Dispatches one drained signal code to its handler; an unrecognized
    /// code is ignored as a forward-compatible no-op.
    fn run_signal(&mut self, signal: i64) -> (r: Result<(), MpError>)
        ensures
            final(self).entry_file == old(self).entry_file,
            final(self).pending_signals == old(self).pending_signals,
            final(self).led == old(self).led,
            r matches Err(e) ==> (e is Script || e is Schema),
            match spec_decode_signal(signal) {
                None => r is Ok && final(self).selections == old(self).selections,
                Some(SignalAction::ReloadSelectionModel) => match r {
                    Ok(()) => selections_rebuilt(final(self).selections),
                    Err(_) => final(self).selections == old(self).selections,
                },
            },
    {
        if signal == crate::signal::SIGNAL_RELOAD_SELECTION {
            self.load_ui_selection()
        } else {
            Ok(())
        }
    }

    /// Dispatches the queue's snapshot in enqueue order and leaves the queue
    /// empty. Within one tick the drain is idempotent: a second call with no
    /// new enqueues dispatches nothing and changes nothing.
    pub fn drain_and_dispatch(&mut self) -> (r: Result<(), MpError>)
        ensures
            final(self).entry_file == old(self).entry_file,
            final(self).led == old(self).led,
            final(self).pending_signals@ == Seq::<i64>::empty(),
            old(self).pending_signals@.len() == 0 ==> r is Ok && final(self).selections == old(
                self,
            ).selections,
            !spec_plan(old(self).pending_signals@).contains(SignalAction::ReloadSelectionModel)
                ==> r is Ok && final(self).selections == old(self).selections,
            r is Ok && spec_plan(old(self).pending_signals@).contains(
                SignalAction::ReloadSelectionModel,
            ) ==> selections_rebuilt(final(self).selections),
            r matches Err(e) ==> (e is Script || e is Schema),
    {
        let ghost queue = old(self).pending_signals@;
        let mut snapshot: Vec<i64> = Vec::new();
        std::mem::swap(&mut snapshot, &mut self.pending_signals);
        let mut i: usize = 0;
        proof {
            assert(spec_plan(queue.take(0)) =~= Seq::<SignalAction>::empty());
        }
        while i < snapshot.len()
            invariant
                i <= snapshot@.len(),
                queue == old(self).pending_signals@,
                snapshot@ == queue,
                self.pending_signals@ == Seq::<i64>::empty(),
                self.entry_file == old(self).entry_file,
                self.led == old(self).led,
                !spec_plan(queue.take(i as int)).contains(SignalAction::ReloadSelectionModel)
                    ==> self.selections == old(self).selections,
                spec_plan(queue.take(i as int)).contains(SignalAction::ReloadSelectionModel)
                    ==> selections_rebuilt(self.selections),
            decreases snapshot@.len() - i,
        {
            let ghost done = queue.take(i as int);
            let code = snapshot[i];
            let step = self.run_signal(code);
            proof {
                crate::signal::lemma_plan_append(done, seq![code]);
                assert(done + seq![code] =~= queue.take(i as int + 1));
                assert(seq![code].len() == 1);
                assert(seq![code][0] == code);
                assert(seq![code].drop_first() =~= Seq::<i64>::empty());
                assert(spec_plan(Seq::<i64>::empty()) =~= Seq::<SignalAction>::empty());
                assert(spec_plan(seq![code]) == (match spec_decode_signal(code) {
                    Some(a) => seq![a],
                    None => Seq::<SignalAction>::empty(),
                }) + spec_plan(seq![code].drop_first()));
                assert(spec_plan(seq![code]) =~= match spec_decode_signal(code) {
                    Some(a) => seq![a],
                    None => Seq::<SignalAction>::empty(),
                });
                vstd::seq_lib::lemma_seq_concat_contains_all_elements(
                    spec_plan(done),
                    spec_plan(seq![code]),
                    SignalAction::ReloadSelectionModel,
                );
                match spec_decode_signal(code) {
                    Some(a) => {
                        assert(seq![a][0] == a);
                        assert(seq![a].contains(a));
                    },
                    None => {
                        vstd::seq_lib::lemma_seq_empty_contains_nothing(
                            SignalAction::ReloadSelectionModel,
                        );
                    },
                }
            }
            match step {
                Ok(()) => {},
                Err(e) => {
                    proof {
                        assert(queue.len() > 0);
                        assert(spec_plan(queue.take(i as int + 1)).contains(
                            SignalAction::ReloadSelectionModel,
                        ));
                        crate::signal::lemma_plan_append(
                            queue.take(i as int + 1),
                            queue.skip(i as int + 1),
                        );
                        assert(queue.take(i as int + 1) + queue.skip(i as int + 1) =~= queue);
                        vstd::seq_lib::lemma_seq_concat_contains_all_elements(
                            spec_plan(queue.take(i as int + 1)),
                            spec_plan(queue.skip(i as int + 1)),
                            SignalAction::ReloadSelectionModel,
                        );
                        assert(spec_plan(queue).contains(SignalAction::ReloadSelectionModel));
                    }
                    return Err(e);
                },
            }
            i = i + 1;
        }
        proof {
            assert(queue.take(snapshot@.len() as int) =~= queue);
        }
        Ok(())
    }

    /// One tick's signal pass, run before the frame's model rebuilds:
    /// snapshots the scripted queue in enqueue order, resets it, and
    /// dispatches the snapshot. A signal a handler or callback enqueues
    /// after the snapshot waits for the next tick's drain.
    pub fn tick_signal(&mut self) -> (r: Result<(), MpError>)
        ensures
            final(self).entry_file == old(self).entry_file,
            final(self).led == old(self).led,
            r is Ok ==> final(self).pending_signals@ == Seq::<i64>::empty(),
            r is Ok ==> final(self).selections == old(self).selections || selections_rebuilt(
                final(self).selections,
            ),
            r matches Err(e) ==> (e is Script || e is Schema),
    {
        let sv = match read_global(&self.lua, "mp_signal") {
            Ok(v) => v,
            Err(m) => {
                return Err(MpError::Script(m));
            },
        };
        let mut batch = match batch_from_value(&sv) {
            Ok(b) => b,
            Err(e) => {
                return Err(e);
            },
        };
        match lua_exec(&self.lua, "mp_signal = {}") {
            Ok(()) => {},
            Err(m) => {
                return Err(MpError::Script(m));
            },
        }
        self.pending_signals.append(&mut batch);
        self.drain_and_dispatch()
    }

    /// Runs the scripted per-tick update with the elapsed and absolute
    /// times, then projects the scripted state table into display lines.
    /// The times are whole milliseconds; the script receives seconds.
    #[verifier::rlimit(60)]
    pub fn build_ui_status(&self, delta_ms: u64, elapsed_ms: u64) -> (r: Result<
        UiStatus,
        MpError,
    >)
        ensures
            r matches Ok(us) ==> some_projection(us.items@),
            r matches Err(e) ==> (e is Script || e is Projection),
    {
        let snippet = update_call_snippet(delta_ms, elapsed_ms);
        match lua_exec(&self.lua, snippet.as_str()) {
            Ok(()) => {},
            Err(m) => {
                return Err(MpError::Script(m));
            },
        }
        let sv = match read_global(&self.lua, "mp_state") {
            Ok(v) => v,
            Err(m) => {
                return Err(MpError::Script(m));
            },
        };
        let entries = match sv {
            ScriptValue::Table(es) => es,
            _ => {
                return Err(MpError::Projection(String::from_str("state table is not a table")));
            },
        };
        let mut info = UiStatus::empty();
        info.build(&entries);
        proof {
            assert(spec_projected(info.items@, entries@));
            assert(some_projection(info.items@));
        }
        Ok(info)
    }

    /// Builds the frame's status render plan: the display lines this tick's
    /// state projects to, in traversal order.
    pub fn make_status_render(&self, delta_ms: u64, elapsed_ms: u64) -> (r: Result<
        Vec<String>,
        MpError,
    >)
        ensures
            match r {
                Ok(lines) => exists|entries: Seq<(ScriptValue, ScriptValue)>|
                    lines@.len() == spec_project(entries, 0).len() && (forall|j: int|
                        0 <= j < lines@.len() ==> lines@[j]@ == spec_project(entries, 0)[j]),
                Err(e) => e is Script || e is Projection,
            },
    {
        let status = match self.build_ui_status(delta_ms, elapsed_ms) {
            Ok(us) => us,
            Err(e) => {
                return Err(e);
            },
        };
        let ghost witness = choose|entries: Seq<(ScriptValue, ScriptValue)>|
            spec_projected(status.items@, entries);
        let mut lines: Vec<String> = Vec::new();
        let mut i: usize = 0;
        while i < status.items.len()
            invariant
                i <= status.items@.len(),
                lines@.len() == i,
                forall|j: int| 0 <= j < i ==> lines@[j]@ == item_text(status.items@[j]),
            decreases status.items@.len() - i,
        {
            match &status.items[i] {
                UiStatusItem::Text(s) => {
                    lines.push(s.clone());
                },
            }
            i = i + 1;
        }
        proof {
            assert(spec_projected(status.items@, witness));
        }
        Ok(lines)
    }

    /// Invokes, through the script environment, the callback of the entry
    /// carrying `index` in the currently active model. An ordinal the model
    /// does not hold is reported and ignored; a callback that raises is
    /// reported and leaves the rest of the tick a no-op.
    pub fn run_selection(&self, index: i64) -> (r: Result<(), MpError>)
        ensures
            !spec_active_has_index(self.selections, index) <==> (r matches Err(e) && e
                is SelectionIndex),
            spec_active_has_index(self.selections, index) ==> r is Ok || (r matches Err(e) && e
                is Callback),
    {
        let sel = match &self.selections {
            Some(sel) => sel,
            None => {
                return Err(MpError::SelectionIndex);
            },
        };
        if !sel.has_index(index) {
            return Err(MpError::SelectionIndex);
        }
        let snippet = selection_call_snippet(index);
        match lua_exec(&self.lua, snippet.as_str()) {
            Ok(()) => Ok(()),
            Err(m) => Err(MpError::Callback(m)),
        }
    }

    /// Builds the frame's selection render plan: one (ordinal, label) button
    /// per entry of the active model, in model order; with no active model
    /// the plan is empty.
    pub fn make_slection_render(&self) -> (r: Vec<(i64, String)>)
        ensures
            match self.selections {
                Some(m) => r@.len() == m.items@.len() && (forall|j: int|
                    0 <= j < r@.len() ==> (r@[j].0, r@[j].1@) == item_view(m.items@[j])),
                None => r@.len() == 0,
            },
    {
        let sel = match &self.selections {
            Some(sel) => sel,
            None => {
                return Vec::new();
            },
        };
        let mut buttons: Vec<(i64, String)> = Vec::new();
        let mut i: usize = 0;
        while i < sel.items.len()
            invariant
                i <= sel.items@.len(),
                buttons@.len() == i,
                forall|j: int|
                    0 <= j < i ==> (buttons@[j].0, buttons@[j].1@) == item_view(sel.items@[j]),
            decreases sel.items@.len() - i,
        {
            match &sel.items[i] {
                crate::selection::UiSelectionItem::Button { index, text } => {
                    buttons.push((*index, text.clone()));
                },
            }
            i = i + 1;
        }
        buttons
    }

    /// Applies the scripted sparse update table to the persistent grid,
    /// as `Led::build_from_value` states it exactly, and hands back this
    /// frame's grid snapshot, cell by cell. An absent table means no
    /// updates; a malformed one leaves the grid untouched.
    pub fn make_led_render(&mut self) -> (r: Result<Vec<bool>, MpError>)
        requires
            old(self).well_formed(),
        ensures
            final(self).well_formed(),
            final(self).entry_file == old(self).entry_file,
            final(self).selections == old(self).selections,
            final(self).pending_signals == old(self).pending_signals,
            match r {
                Ok(cells) => cells@ == final(self).led.buf@,
                Err(e) => (e is Script || e is Schema) && final(self).led.buf@ == old(
                    self,
                ).led.buf@,
            },
    {
        let sv = match read_global(&self.lua, "mp_led") {
            Ok(v) => v,
            Err(m) => {
                return Err(MpError::Script(m));
            },
        };
        match self.led.build_from_value(&sv) {
            Ok(()) => {},
            Err(e) => {
                return Err(e);
            },
        }
        let mut cells: Vec<bool> = Vec::new();
        let mut i: usize = 0;
        while i < self.led.buf.len()
            invariant
                i <= self.led.buf@.len(),
                cells@ == self.led.buf@.take(i as int),
            decreases self.led.buf@.len() - i,
        {
            cells.push(self.led.buf[i]);
            proof {
                assert(self.led.buf@.take(i as int + 1) =~= self.led.buf@.take(i as int).push(
                    self.led.buf@[i as int],
                ));
            }
            i = i + 1;
        }
        proof {
            assert(self.led.buf@.take(self.led.buf@.len() as int) =~= self.led.buf@);
        }
        Ok(cells)
    }
}

} // verus!
