use maple::errors::MpError;
use maple::lua::MpLua;
use maple::run;
use maple::scaffold::scaffold_source;

fn session(source: &str) -> MpLua {
    run("entry.lua", source).expect("session should start")
}

fn button_labels(bridge: &MpLua) -> Vec<(i64, String)> {
    bridge.make_slection_render()
}

#[test]
fn scaffold_session_projects_hello_maple() {
    let bridge = session(scaffold_source());
    bridge.run_selection(1).expect("selection callback should run");
    let lines = bridge.make_status_render(16, 1500).expect("status should build");
    assert!(
        lines.iter().any(|l| l == "str: hello maple"),
        "projected state should hold the callback's write, got {:?}",
        lines
    );
}

#[test]
fn scaffold_update_receives_seconds() {
    let bridge = session(scaffold_source());
    let lines = bridge.make_status_render(16, 1500).expect("status should build");
    assert!(lines.iter().any(|l| l == "delta: 0.016"), "got {:?}", lines);
    assert!(lines.iter().any(|l| l == "time_since_start: 1.5"), "got {:?}", lines);
    assert!(lines.iter().any(|l| l == "fps: 62"), "got {:?}", lines);
}

/// First entry rewrites its own label and asks for a reload; second entry
/// rewrites the first label without asking for anything.
const RELOADING_SCRIPT: &str = "\
mp_state = {}\n\
mp_selection =\n\
{\n\
    {\n\
        text = \"a\",\n\
        callback = function()\n\
            mp_selection[1].text = \"b\"\n\
            mp_send_signal(MP_SIGNAL_RELOAD_SELECTION)\n\
        end,\n\
    },\n\
    {\n\
        text = \"mutate\",\n\
        callback = function()\n\
            mp_selection[1].text = \"c\"\n\
        end,\n\
    },\n\
}\n\
function update(delta, time_since_start)\n\
end\n\
function awake()\n\
end\n";

#[test]
fn selection_reload_is_visible_next_tick_not_current() {
    let mut bridge = session(RELOADING_SCRIPT);
    assert_eq!(button_labels(&bridge)[0], (1, String::from("a")));

    // The callback rewrites the script-side label and enqueues a reload.
    bridge.run_selection(1).expect("callback should run");

    // The active model still shows the snapshot this frame was built from.
    assert_eq!(button_labels(&bridge)[0], (1, String::from("a")));

    // The next tick drains the signal and rebuilds from post-callback state.
    bridge.tick_signal().expect("tick should drain");
    assert_eq!(button_labels(&bridge)[0], (1, String::from("b")));
}

#[test]
fn drain_is_idempotent_within_one_tick() {
    let mut bridge = session(RELOADING_SCRIPT);
    bridge.run_selection(1).expect("callback should run");
    bridge.tick_signal().expect("tick should drain");
    assert_eq!(button_labels(&bridge)[0], (1, String::from("b")));

    // Mutate the script-side label without enqueueing anything new: a second
    // drain dispatches nothing, so the active model keeps its label.
    bridge.run_selection(2).expect("mutating callback should run");
    bridge.drain_and_dispatch().expect("second drain should be a no-op");
    assert_eq!(button_labels(&bridge)[0], (1, String::from("b")));

    // Only the next scripted enqueue makes a later tick rebuild.
    bridge.run_selection(1).expect("callback should run again");
    bridge.tick_signal().expect("tick should drain again");
    assert_eq!(button_labels(&bridge)[0], (1, String::from("b")));
}

#[test]
fn unknown_signal_codes_are_ignored() {
    let source = "\
mp_state = {}\n\
mp_selection =\n\
{\n\
    {\n\
        text = \"a\",\n\
        callback = function()\n\
            mp_selection[1].text = \"z\"\n\
            mp_send_signal(42)\n\
        end,\n\
    },\n\
}\n\
function update(delta, time_since_start)\n\
end\n\
function awake()\n\
end\n";
    let mut bridge = session(source);
    bridge.run_selection(1).expect("callback should run");
    bridge.tick_signal().expect("unknown codes are a no-op");
    // The unrecognized code triggered no rebuild, so the stale label stays.
    assert_eq!(button_labels(&bridge), vec![(1, String::from("a"))]);
}

#[test]
fn bitmap_render_reads_script_cells_and_persists() {
    let source = "\
mp_state = {}\n\
mp_selection =\n\
{\n\
    {\n\
        text = \"clear\",\n\
        callback = function()\n\
            mp_led = {}\n\
        end,\n\
    },\n\
}\n\
mp_led = { [0] = true, [5] = true, [999] = true }\n\
function update(delta, time_since_start)\n\
end\n\
function awake()\n\
end\n";
    let mut bridge = session(source);
    let cells = bridge.make_led_render().expect("grid should build");
    assert_eq!(cells.len(), 256);
    assert!(cells[0]);
    assert!(cells[5]);
    assert_eq!(cells.iter().filter(|c| **c).count(), 2);

    // After the script empties its update table the persistent grid keeps
    // every cell it already holds.
    bridge.run_selection(1).expect("clearing callback should run");
    let again = bridge.make_led_render().expect("grid should build again");
    assert_eq!(again, cells);
}

#[test]
fn load_error_is_fatal_to_session_start() {
    let r = run("entry.lua", "this is not lua ((");
    assert!(matches!(r, Err(MpError::Load(_))));
}

#[test]
fn awake_schema_error_reports_selection_shape() {
    // The selection entry misses its text field, so session start fails.
    let source = "\
mp_state = {}\n\
mp_selection = { { callback = function() end } }\n\
function update(delta, time_since_start) end\n\
function awake() end\n";
    let r = run("entry.lua", source);
    assert!(matches!(r, Err(MpError::Schema(_))));
}

#[test]
fn run_selection_out_of_range_is_reported() {
    let bridge = session(scaffold_source());
    assert!(matches!(bridge.run_selection(99), Err(MpError::SelectionIndex)));
    assert!(matches!(bridge.run_selection(0), Err(MpError::SelectionIndex)));
}

#[test]
fn raising_callback_is_reported_not_fatal() {
    let source = "\
mp_state = {}\n\
mp_selection =\n\
{\n\
    {\n\
        text = \"boom\",\n\
        callback = function()\n\
            error(\"exploded\")\n\
        end,\n\
    },\n\
}\n\
function update(delta, time_since_start) end\n\
function awake() end\n";
    let bridge = session(source);
    assert!(matches!(bridge.run_selection(1), Err(MpError::Callback(_))));
    // The session stays usable after the failed invocation.
    assert_eq!(button_labels(&bridge), vec![(1, String::from("boom"))]);
}

#[test]
fn missing_update_hook_skips_the_tick_render() {
    let source = "\
mp_state = {}\n\
mp_selection = {}\n\
function awake() end\n";
    let bridge = session(source);
    assert!(matches!(bridge.build_ui_status(16, 32), Err(MpError::Script(_))));
}

#[test]
fn non_table_state_is_a_projection_error() {
    let source = "\
mp_state = 5\n\
mp_selection = {}\n\
function update(delta, time_since_start) end\n\
function awake() end\n";
    let bridge = session(source);
    assert!(matches!(bridge.build_ui_status(16, 32), Err(MpError::Projection(_))));
}

#[test]
fn nested_state_projects_header_before_children() {
    let source = "\
mp_state = {}\n\
mp_selection = {}\n\
function update(delta, time_since_start)\n\
    mp_state.outer = { leaf = true }\n\
end\n\
function awake() end\n";
    let bridge = session(source);
    let lines = bridge.make_status_render(16, 32).expect("status should build");
    let header = lines.iter().position(|l| l == "outer: ").expect("header line");
    assert_eq!(lines[header + 1], "  leaf: true");
}

#[test]
fn cyclic_state_table_is_summarized_not_fatal() {
    // A state table that contains itself must not hang or crash the tick:
    // the marshalling walk bottoms out and shows the summary placeholder.
    let source = "\
mp_state = {}\n\
mp_state.x = mp_state\n\
mp_selection = {}\n\
function update(delta, time_since_start) end\n\
function awake() end\n";
    let bridge = session(source);
    let lines = bridge.make_status_render(16, 32).expect("cyclic state still renders");
    assert!(!lines.is_empty());
    assert!(
        lines.iter().any(|l| l.trim_start() == "x: table"),
        "the summarized cycle should show the placeholder, got {} lines",
        lines.len()
    );
}

#[test]
fn deep_state_table_is_summarized_beyond_the_budget() {
    // 200 nested tables: far past the marshalling budget, still no crash.
    let source = "\
mp_state = {}\n\
local t = mp_state\n\
for i = 1, 200 do\n\
    t.n = {}\n\
    t = t.n\n\
end\n\
t.leaf = 1\n\
mp_selection = {}\n\
function update(delta, time_since_start) end\n\
function awake() end\n";
    let bridge = session(source);
    let lines = bridge.make_status_render(16, 32).expect("deep state still renders");
    assert!(lines.iter().any(|l| l.trim_start() == "n: table"), "got {} lines", lines.len());
}
