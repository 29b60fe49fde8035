use crate::errors::MpError;
use crate::value::find_text_key;
use crate::value::lookup_text_key;
use crate::value::ScriptValue;
use vstd::prelude::*;
use vstd::string::StringExecFns;

verus! {

/// One invokable entry of the selection model.
#[derive(Debug)]
pub enum UiSelectionItem {
    Button { index: i64, text: String },
}

/// An immutable snapshot of the scripted selectable actions, rebuilt
/// wholesale on reload and never mutated in place.
#[derive(Debug)]
pub struct UiSelection {
    pub items: Vec<UiSelectionItem>,
}

/// The ordinal and label one button carries.
pub open spec fn item_view(it: UiSelectionItem) -> (i64, Seq<char>) {
    match it {
        UiSelectionItem::Button { index, text } => (index, text@),
    }
}

/// Whether one scripted selection entry is well formed: a table holding a
/// text `text` field and an invokable `callback` field.
pub open spec fn entry_ok(v: ScriptValue) -> bool {
    &&& v matches ScriptValue::Table(fields)
    &&& lookup_text_key(fields@, "text"@) matches Some(t) && t is Text
    &&& lookup_text_key(fields@, "callback"@) matches Some(c) && c is Callable
}

/// Whether one pair of the scripted collection is well formed: an integer
/// ordinal keying a well-formed entry.
pub open spec fn pair_ok(p: (ScriptValue, ScriptValue)) -> bool {
    p.0 is Int && entry_ok(p.1)
}

/// Whether the whole scripted collection can build a selection model.
pub open spec fn selection_ok(entries: Seq<(ScriptValue, ScriptValue)>) -> bool {
    forall|i: int| 0 <= i < entries.len() ==> #[trigger] pair_ok(entries[i])
}

/// The script-side ordinal of one pair.
pub open spec fn pair_index(p: (ScriptValue, ScriptValue)) -> i64 {
    match p.0 {
        ScriptValue::Int(k) => k,
        _ => 0,
    }
}

/// The label text of one well-formed entry.
pub open spec fn entry_label(v: ScriptValue) -> Seq<char> {
    match v {
        ScriptValue::Table(fields) => match lookup_text_key(fields@, "text"@) {
            Some(ScriptValue::Text(t)) => t@,
            _ => Seq::empty(),
        },
        _ => Seq::empty(),
    }
}

/// Whether `items` is exactly the model the scripted pairs describe, in
/// source order and with the source's own ordinals.
pub open spec fn spec_built(
    items: Seq<UiSelectionItem>,
    entries: Seq<(ScriptValue, ScriptValue)>,
) -> bool {
    &&& items.len() == entries.len()
    &&& forall|j: int|
        0 <= j < entries.len() ==> #[trigger] item_view(items[j]) == (
            pair_index(entries[j]),
            entry_label(entries[j].1),
        )
}

/// Whether some entry of the model carries the ordinal `index`.
pub open spec fn spec_has_index(items: Seq<UiSelectionItem>, index: i64) -> bool {
    exists|j: int| 0 <= j < items.len() && item_view(#[trigger] items[j]).0 == index
}

impl UiSelection {
    /// An empty selection model.
    pub fn empty() -> (r: UiSelection)
        ensures
            r.items@.len() == 0,
    {
        UiSelection { items: Vec::new() }
    }

    /// Builds the model from the scripted ordered collection, one button per
    /// source pair, preserving the source's ordinal exactly. A missing or
    /// mis-typed `text` or `callback` field aborts the whole build and
    /// leaves the model untouched.
    pub fn build(&mut self, entries: &Vec<(ScriptValue, ScriptValue)>) -> (r: Result<
        (),
        MpError,
    >)
        ensures
            match r {
                Ok(()) => {
                    &&& selection_ok(entries@)
                    &&& final(self).items@.len() == old(self).items@.len() + entries@.len()
                    &&& forall|j: int|
                        0 <= j < old(self).items@.len() ==> final(self).items@[j] == old(
                            self,
                        ).items@[j]
                    &&& spec_built(final(self).items@.skip(old(self).items@.len() as int), entries@)
                },
                Err(e) => {
                    &&& !selection_ok(entries@)
                    &&& e is Schema
                    &&& final(self).items@ == old(self).items@
                },
            },
    {
        let mut fresh: Vec<UiSelectionItem> = Vec::new();
        let mut i: usize = 0;
        while i < entries.len()
            invariant
                i <= entries@.len(),
                fresh@.len() == i,
                forall|j: int| 0 <= j < i ==> #[trigger] pair_ok(entries@[j]),
                forall|j: int|
                    0 <= j < i ==> #[trigger] item_view(fresh@[j]) == (
                        pair_index(entries@[j]),
                        entry_label(entries@[j].1),
                    ),
            decreases entries@.len() - i,
        {
            let pair = &entries[i];
            let ordinal: i64 = match &pair.0 {
                ScriptValue::Int(k) => *k,
                _ => {
                    proof {
                        assert(!pair_ok(entries@[i as int]));
                    }
                    return Err(MpError::Schema(String::from_str(
                        "selection key is not an integer ordinal",
                    )));
                },
            };
            let fields = match &pair.1 {
                ScriptValue::Table(fields) => fields,
                _ => {
                    proof {
                        assert(!pair_ok(entries@[i as int]));
                    }
                    return Err(MpError::Schema(String::from_str(
                        "selection entry is not a table",
                    )));
                },
            };
            let label = match find_text_key(fields, "text") {
                Some(ScriptValue::Text(t)) => t.clone(),
                _ => {
                    proof {
                        assert(!pair_ok(entries@[i as int]));
                    }
                    return Err(MpError::Schema(String::from_str(
                        "selection entry has no text field of text type",
                    )));
                },
            };
            match find_text_key(fields, "callback") {
                Some(ScriptValue::Callable) => {},
                _ => {
                    proof {
                        assert(!pair_ok(entries@[i as int]));
                    }
                    return Err(MpError::Schema(String::from_str(
                        "selection entry has no invokable callback field",
                    )));
                },
            };
            fresh.push(UiSelectionItem::Button { index: ordinal, text: label });
            i = i + 1;
        }
        proof {
            assert(selection_ok(entries@));
        }
        self.items.append(&mut fresh);
        proof {
            assert(self.items@.skip(old(self).items@.len() as int) =~= self.items@.skip(
                old(self).items@.len() as int,
            ));
            assert(spec_built(self.items@.skip(old(self).items@.len() as int), entries@));
        }
        Ok(())
    }

    /// Whether some entry of the model carries the ordinal `index`.
    pub fn has_index(&self, index: i64) -> (r: bool)
        ensures
            r == spec_has_index(self.items@, index),
    {
        let mut i: usize = 0;
        while i < self.items.len()
            invariant
                i <= self.items@.len(),
                forall|j: int|
                    0 <= j < i ==> item_view(#[trigger] self.items@[j]).0 != index,
            decreases self.items@.len() - i,
        {
            let hit = match &self.items[i] {
                UiSelectionItem::Button { index: k, text: _ } => *k == index,
            };
            if hit {
                return true;
            }
            i = i + 1;
        }
        false
    }
}

/// Builds the selection model from the marshalled selection global: a value
/// that is not a table, and a table with any malformed entry, are schema
/// errors that produce no model at all.
pub fn build_selection_model(sv: &ScriptValue) -> (r: Result<UiSelection, MpError>)
    ensures
        match r {
            Ok(m) => sv matches ScriptValue::Table(es) && selection_ok(es@) && spec_built(
                m.items@,
                es@,
            ),
            Err(e) => {
                &&& e is Schema
                &&& (sv matches ScriptValue::Table(es) ==> !selection_ok(es@))
            },
        },
{
    let entries = match sv {
        ScriptValue::Table(es) => es,
        _ => {
            return Err(
                MpError::Schema(String::from_str("selection collection is not a table")),
            );
        },
    };
    let mut model = UiSelection::empty();
    match model.build(entries) {
        Ok(()) => {},
        Err(e) => {
            return Err(e);
        },
    }
    proof {
        assert(model.items@.skip(0) =~= model.items@);
    }
    Ok(model)
}

/// Selection ordinals are stable across a rebuild that does not change the
/// underlying source collection: two models built from the same scripted
/// pairs hold the same buttons position for position, so resolving an
/// ordinal finds an entry in the one exactly when it does in the other, and
/// the entry found carries the same ordinal and label either time.
pub proof fn lemma_selection_stable(
    items1: Seq<UiSelectionItem>,
    items2: Seq<UiSelectionItem>,
    entries: Seq<(ScriptValue, ScriptValue)>,
    index: i64,
)
    requires
        spec_built(items1, entries),
        spec_built(items2, entries),
    ensures
        forall|j: int| 0 <= j < entries.len() ==> item_view(items1[j]) == item_view(items2[j]),
        spec_has_index(items1, index) == spec_has_index(items2, index),
{
    assert forall|j: int| 0 <= j < entries.len() implies item_view(items1[j]) == item_view(
        items2[j],
    ) by {
        assert(item_view(items1[j]) == (pair_index(entries[j]), entry_label(entries[j].1)));
        assert(item_view(items2[j]) == (pair_index(entries[j]), entry_label(entries[j].1)));
    }
    if spec_has_index(items1, index) {
        let j = choose|j: int| 0 <= j < items1.len() && item_view(#[trigger] items1[j]).0 == index;
        assert(item_view(items2[j]).0 == index);
        assert(spec_has_index(items2, index));
    }
    if spec_has_index(items2, index) {
        let j = choose|j: int| 0 <= j < items2.len() && item_view(#[trigger] items2[j]).0 == index;
        assert(item_view(items1[j]).0 == index);
        assert(spec_has_index(items1, index));
    }
}

} // verus!
