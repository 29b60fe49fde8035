use maple::errors::MpError;
use maple::led::Led;
use maple::lua::parent_dir;
use maple::lua::require_path_snippet;
use maple::lua::selection_call_snippet;
use maple::lua::update_call_snippet;
use maple::project::display_value;
use maple::project::UiStatus;
use maple::project::UiStatusItem;
use maple::scaffold::scaffold_action;
use maple::scaffold::ScaffoldAction;
use maple::selection::UiSelection;
use maple::selection::UiSelectionItem;
use maple::signal::decode_signal;
use maple::signal::signal_batch;
use maple::signal::SignalAction;
use maple::text::i64_to_string;
use maple::text::u64_to_string;
use maple::value::ScriptValue;

fn text(s: &str) -> ScriptValue {
    ScriptValue::Text(String::from(s))
}

fn status_lines(status: &UiStatus) -> Vec<String> {
    status
        .items
        .iter()
        .map(|it| match it {
            UiStatusItem::Text(s) => s.clone(),
        })
        .collect()
}

fn selection_entry(label: &str) -> ScriptValue {
    ScriptValue::Table(vec![
        (text("text"), text(label)),
        (text("callback"), ScriptValue::Callable),
    ])
}

#[test]
fn projector_counts_leaves_and_headers() {
    let entries = vec![
        (text("a"), ScriptValue::Int(1)),
        (
            text("t"),
            ScriptValue::Table(vec![
                (text("x"), ScriptValue::Bool(true)),
                (text("y"), ScriptValue::Nil),
            ]),
        ),
        (text("s"), text("hi")),
    ];
    let mut status = UiStatus::empty();
    status.build(&entries);
    let lines = status_lines(&status);
    // 4 leaf pairs plus 1 composite header.
    assert_eq!(lines.len(), 5);
    assert_eq!(lines[0], "a: 1");
    assert_eq!(lines[1], "t: ");
    assert_eq!(lines[2], "  x: true");
    assert_eq!(lines[3], "  y: Nil");
    assert_eq!(lines[4], "s: hi");
}

#[test]
fn projector_flat_table_one_line_per_leaf() {
    let entries = vec![
        (text("k1"), ScriptValue::Int(10)),
        (text("k2"), ScriptValue::Bool(false)),
        (text("k3"), ScriptValue::Num(String::from("0.25"))),
    ];
    let mut status = UiStatus::empty();
    status.build(&entries);
    let lines = status_lines(&status);
    assert_eq!(lines.len(), 3);
    assert_eq!(lines[1], "k2: false");
    assert_eq!(lines[2], "k3: 0.25");
}

#[test]
fn projector_deep_nesting_indents_two_spaces_per_level() {
    let entries = vec![(
        text("outer"),
        ScriptValue::Table(vec![(
            text("inner"),
            ScriptValue::Table(vec![(text("leaf"), ScriptValue::Int(3))]),
        )]),
    )];
    let mut status = UiStatus::empty();
    status.build(&entries);
    let lines = status_lines(&status);
    assert_eq!(lines, vec!["outer: ", "  inner: ", "    leaf: 3"]);
}

#[test]
fn display_value_scalar_texts() {
    assert_eq!(display_value(&ScriptValue::Int(-42)), "-42");
    assert_eq!(display_value(&ScriptValue::Bool(true)), "true");
    assert_eq!(display_value(&ScriptValue::Bool(false)), "false");
    assert_eq!(display_value(&ScriptValue::Nil), "Nil");
    assert_eq!(display_value(&ScriptValue::Num(String::from("0.016"))), "0.016");
    assert_eq!(display_value(&text("raw")), "raw");
    assert_eq!(display_value(&ScriptValue::Table(vec![])), "table");
    assert_eq!(display_value(&ScriptValue::Callable), "function");
    assert_eq!(display_value(&ScriptValue::Opaque(String::from("thread"))), "thread");
}

#[test]
fn integer_decimal_rendering() {
    assert_eq!(i64_to_string(0), "0");
    assert_eq!(i64_to_string(7), "7");
    assert_eq!(i64_to_string(-5), "-5");
    assert_eq!(i64_to_string(1234567), "1234567");
    assert_eq!(i64_to_string(i64::MAX), "9223372036854775807");
    assert_eq!(i64_to_string(i64::MIN), "-9223372036854775808");
    assert_eq!(u64_to_string(1000), "1000");
    assert_eq!(u64_to_string(u64::MAX), "18446744073709551615");
}

#[test]
fn bitmap_last_write_wins_and_out_of_range_ignored() {
    let mut led = Led::default();
    assert_eq!(led.buf.len(), 256);
    led.build(&vec![(3, true), (514, true), (3, false), (-1, true), (255, true)]);
    assert_eq!(led.buf[3], false);
    assert_eq!(led.buf[255], true);
    for c in 0..256usize {
        if c != 255 {
            assert_eq!(led.buf[c], false, "cell {} should stay off", c);
        }
    }
}

#[test]
fn bitmap_empty_update_leaves_grid_unchanged() {
    let mut led = Led::default();
    led.build(&vec![(0, true), (9, true)]);
    let before = led.buf.clone();
    led.build(&vec![]);
    assert_eq!(led.buf, before);
    led.build(&vec![(-7, true), (256, true), (100000, false)]);
    assert_eq!(led.buf, before);
}

#[test]
fn selection_build_preserves_source_ordinals() {
    let entries = vec![
        (ScriptValue::Int(2), selection_entry("b")),
        (ScriptValue::Int(7), selection_entry("x")),
    ];
    let mut sel = UiSelection::empty();
    assert!(sel.build(&entries).is_ok());
    assert_eq!(sel.items.len(), 2);
    match &sel.items[0] {
        UiSelectionItem::Button { index, text } => {
            assert_eq!(*index, 2);
            assert_eq!(text, "b");
        }
    }
    match &sel.items[1] {
        UiSelectionItem::Button { index, text } => {
            assert_eq!(*index, 7);
            assert_eq!(text, "x");
        }
    }
}

#[test]
fn selection_rebuild_from_same_source_is_identical() {
    let entries = vec![
        (ScriptValue::Int(1), selection_entry("first")),
        (ScriptValue::Int(2), selection_entry("second")),
    ];
    let mut one = UiSelection::empty();
    let mut two = UiSelection::empty();
    assert!(one.build(&entries).is_ok());
    assert!(two.build(&entries).is_ok());
    assert_eq!(one.items.len(), two.items.len());
    for (a, b) in one.items.iter().zip(two.items.iter()) {
        match (a, b) {
            (
                UiSelectionItem::Button { index: i1, text: t1 },
                UiSelectionItem::Button { index: i2, text: t2 },
            ) => {
                assert_eq!(i1, i2);
                assert_eq!(t1, t2);
            }
        }
    }
}

#[test]
fn selection_build_rejects_malformed_entries() {
    // Missing text field.
    let mut sel = UiSelection::empty();
    let entries = vec![(
        ScriptValue::Int(1),
        ScriptValue::Table(vec![(text("callback"), ScriptValue::Callable)]),
    )];
    assert!(matches!(sel.build(&entries), Err(MpError::Schema(_))));
    assert!(sel.items.is_empty());

    // Mis-typed text field.
    let entries = vec![(
        ScriptValue::Int(1),
        ScriptValue::Table(vec![
            (text("text"), ScriptValue::Int(5)),
            (text("callback"), ScriptValue::Callable),
        ]),
    )];
    assert!(matches!(sel.build(&entries), Err(MpError::Schema(_))));

    // Missing callback field.
    let entries = vec![(
        ScriptValue::Int(1),
        ScriptValue::Table(vec![(text("text"), text("ok"))]),
    )];
    assert!(matches!(sel.build(&entries), Err(MpError::Schema(_))));

    // Entry that is not a table.
    let entries = vec![(ScriptValue::Int(1), text("oops"))];
    assert!(matches!(sel.build(&entries), Err(MpError::Schema(_))));

    // Key that is not an integer ordinal.
    let entries = vec![(text("one"), selection_entry("ok"))];
    assert!(matches!(sel.build(&entries), Err(MpError::Schema(_))));
}

#[test]
fn signal_batch_reads_consecutive_ordinals_in_order() {
    let entries = vec![
        (ScriptValue::Int(1), ScriptValue::Int(9)),
        (ScriptValue::Int(2), ScriptValue::Int(1)),
        (ScriptValue::Int(3), text("not a code")),
        (ScriptValue::Int(4), ScriptValue::Int(2)),
    ];
    assert_eq!(signal_batch(&entries), vec![9, 1, 2]);

    // The walk stops at the first missing ordinal.
    let entries = vec![
        (ScriptValue::Int(1), ScriptValue::Int(5)),
        (ScriptValue::Int(3), ScriptValue::Int(6)),
    ];
    assert_eq!(signal_batch(&entries), vec![5]);

    let empty: Vec<(ScriptValue, ScriptValue)> = vec![];
    assert_eq!(signal_batch(&empty), Vec::<i64>::new());
}

#[test]
fn signal_codes_decode_to_actions() {
    assert_eq!(decode_signal(1), Some(SignalAction::ReloadSelectionModel));
    assert_eq!(decode_signal(0), None);
    assert_eq!(decode_signal(99), None);
    assert_eq!(decode_signal(-1), None);
}

#[test]
fn scaffold_existing_file_is_kept_and_command_succeeds() {
    assert_eq!(scaffold_action(true), ScaffoldAction::KeepExisting);
    assert_eq!(scaffold_action(false), ScaffoldAction::WriteScaffold);
}

#[test]
fn parent_dir_of_slash_paths() {
    assert_eq!(parent_dir("foo/bar/x.lua"), "foo/bar");
    assert_eq!(parent_dir("x.lua"), "");
    assert_eq!(parent_dir("dir/x.lua"), "dir");
}

#[test]
fn chunk_snippets_are_exact() {
    assert_eq!(update_call_snippet(16, 1500), "update(16/1000,1500/1000)");
    assert_eq!(selection_call_snippet(1), "mp_selection[1].callback()");
    assert_eq!(selection_call_snippet(-3), "mp_selection[-3].callback()");
    assert_eq!(
        require_path_snippet("d"),
        "package.path = package.path..';'..'./d/?.lua'"
    );
}

#[test]
fn error_diagnostic_lines() {
    assert_eq!(MpError::SelectionIndex.describe(), "[SelectionIndexError]");
    assert_eq!(MpError::Load(String::from("boom")).describe(), "[LoadError]boom");
    assert_eq!(MpError::Script(String::from("x")).describe(), "[LuaError]x");
}

#[test]
fn project_state_dispatches_on_table_shape() {
    let sv = ScriptValue::Table(vec![(text("k"), ScriptValue::Int(1))]);
    let status = maple::project::project_state(&sv).expect("a table projects");
    assert_eq!(status_lines(&status), vec!["k: 1"]);
    assert!(matches!(
        maple::project::project_state(&ScriptValue::Int(5)),
        Err(MpError::Projection(_))
    ));
    assert!(matches!(
        maple::project::project_state(&ScriptValue::Nil),
        Err(MpError::Projection(_))
    ));
}

#[test]
fn build_selection_model_dispatches_on_table_shape() {
    let sv = ScriptValue::Table(vec![(ScriptValue::Int(1), selection_entry("go"))]);
    let model = maple::selection::build_selection_model(&sv).expect("a table builds");
    assert_eq!(model.items.len(), 1);
    assert!(matches!(
        maple::selection::build_selection_model(&text("nope")),
        Err(MpError::Schema(_))
    ));
    let bad = ScriptValue::Table(vec![(ScriptValue::Int(1), text("no entry table"))]);
    assert!(matches!(
        maple::selection::build_selection_model(&bad),
        Err(MpError::Schema(_))
    ));
}

#[test]
fn batch_from_value_dispatches_on_table_shape() {
    let sv = ScriptValue::Table(vec![(ScriptValue::Int(1), ScriptValue::Int(7))]);
    assert_eq!(maple::signal::batch_from_value(&sv).expect("a table reads"), vec![7]);
    assert!(matches!(
        maple::signal::batch_from_value(&ScriptValue::Bool(true)),
        Err(MpError::Schema(_))
    ));
}

#[test]
fn led_build_from_value_dispatches_on_value_shape() {
    let mut led = Led::default();
    // Nil means no updates.
    assert!(led.build_from_value(&ScriptValue::Nil).is_ok());
    assert!(led.buf.iter().all(|c| !*c));
    // A table applies its writes.
    let sv = ScriptValue::Table(vec![(ScriptValue::Int(4), ScriptValue::Bool(true))]);
    assert!(led.build_from_value(&sv).is_ok());
    assert!(led.buf[4]);
    // A non-integer key is a schema error that leaves the grid untouched.
    let before = led.buf.clone();
    let bad = ScriptValue::Table(vec![(text("x"), ScriptValue::Bool(true))]);
    assert!(matches!(led.build_from_value(&bad), Err(MpError::Schema(_))));
    assert_eq!(led.buf, before);
    // Anything else is a schema error too.
    assert!(matches!(
        led.build_from_value(&ScriptValue::Int(3)),
        Err(MpError::Schema(_))
    ));
    assert_eq!(led.buf, before);
}
