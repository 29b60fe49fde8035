use crate::errors::MpError;
use crate::value::spec_truthy;
use crate::value::truthy;
use crate::value::ScriptValue;
use vstd::prelude::*;
use vstd::string::StringExecFns;

verus! {

/// Side length of the square indicator-light grid.
pub const LED_SIZE: usize = 16;

/// A fixed-size boolean grid for the indicator-light display, indexed
/// row-major by cell number. It is a persistent buffer updated
/// incrementally, not rebuilt from scratch each tick.
#[derive(Debug)]
pub struct Led {
    pub buf: Vec<bool>,
}

impl Led {
    /// The grid always holds exactly one cell per position.
    pub open spec fn well_formed(&self) -> bool {
        self.buf@.len() == LED_SIZE * LED_SIZE
    }
}

impl Default for Led {
    /// A grid with every cell off.
    fn default() -> (r: Led)
        ensures
            r.well_formed(),
            forall|c: int| 0 <= c < r.buf@.len() ==> r.buf@[c] == false,
    {
        Led { buf: vec![false; LED_SIZE * LED_SIZE] }
    }
}

/// One sparse write: sets the addressed cell when the index is in range and
/// leaves the whole grid unchanged when it is not.
pub open spec fn apply_one(grid: Seq<bool>, u: (i64, bool)) -> Seq<bool> {
    if 0 <= u.0 < grid.len() {
        grid.update(u.0 as int, u.1)
    } else {
        grid
    }
}

/// The sparse writes applied in order.
pub open spec fn apply_updates(grid: Seq<bool>, updates: Seq<(i64, bool)>) -> Seq<bool>
    decreases updates.len(),
{
    if updates.len() == 0 {
        grid
    } else {
        apply_updates(apply_one(grid, updates[0]), updates.drop_first())
    }
}

/// Applying the writes never changes the grid's size.
pub proof fn lemma_apply_len(grid: Seq<bool>, updates: Seq<(i64, bool)>)
    ensures
        apply_updates(grid, updates).len() == grid.len(),
    decreases updates.len(),
{
    if updates.len() != 0 {
        lemma_apply_len(apply_one(grid, updates[0]), updates.drop_first());
    }
}

/// Applying one more write at the end applies it to the result of the
/// earlier writes.
pub proof fn lemma_apply_snoc(grid: Seq<bool>, updates: Seq<(i64, bool)>, u: (i64, bool))
    ensures
        apply_updates(grid, updates.push(u)) == apply_one(apply_updates(grid, updates), u),
    decreases updates.len(),
{
    if updates.len() == 0 {
        assert(updates.push(u)[0] == u);
        assert(updates.push(u).drop_first() =~= Seq::<(i64, bool)>::empty());
        assert(apply_updates(grid, updates.push(u)) == apply_updates(
            apply_one(grid, u),
            Seq::<(i64, bool)>::empty(),
        ));
        assert(apply_updates(apply_one(grid, u), Seq::<(i64, bool)>::empty()) == apply_one(
            grid,
            u,
        ));
        assert(apply_updates(grid, updates) == grid);
    } else {
        let rest = updates.drop_first();
        assert(updates.push(u)[0] == updates[0]);
        assert(updates.push(u).drop_first() =~= rest.push(u));
        assert(apply_updates(grid, updates.push(u)) == apply_updates(
            apply_one(grid, updates[0]),
            rest.push(u),
        ));
        lemma_apply_snoc(apply_one(grid, updates[0]), rest, u);
        assert(apply_updates(grid, updates) == apply_updates(apply_one(grid, updates[0]), rest));
    }
}

/// The last write addressing cell `c`, if any write addresses it.
pub open spec fn last_write(updates: Seq<(i64, bool)>, c: int) -> Option<bool>
    decreases updates.len(),
{
    if updates.len() == 0 {
        None
    } else if updates.last().0 == c {
        Some(updates.last().1)
    } else {
        last_write(updates.drop_last(), c)
    }
}

/// After an update sequence, every cell holds the value of the last write
/// addressing it, and a cell no write addresses keeps its prior value. In
/// particular a sequence of only in-range writes sets exactly the addressed
/// cells, and out-of-range writes never disturb any cell.
pub proof fn lemma_bitmap_last_write(grid: Seq<bool>, updates: Seq<(i64, bool)>, c: int)
    requires
        0 <= c < grid.len(),
    ensures
        apply_updates(grid, updates)[c] == match last_write(updates, c) {
            Some(b) => b,
            None => grid[c],
        },
    decreases updates.len(),
{
    lemma_apply_len(grid, updates);
    if updates.len() != 0 {
        let shorter = updates.drop_last();
        assert(shorter.push(updates.last()) =~= updates);
        lemma_apply_snoc(grid, shorter, updates.last());
        lemma_apply_len(grid, shorter);
        lemma_bitmap_last_write(grid, shorter, c);
    }
}

/// A sequence holding only out-of-range writes leaves the grid unchanged,
/// cell for cell.
pub proof fn lemma_bitmap_out_of_range(grid: Seq<bool>, updates: Seq<(i64, bool)>)
    requires
        forall|j: int| 0 <= j < updates.len() ==> !(0 <= (#[trigger] updates[j]).0 < grid.len()),
    ensures
        apply_updates(grid, updates) == grid,
    decreases updates.len(),
{
    if updates.len() != 0 {
        assert(apply_one(grid, updates[0]) == grid);
        assert(forall|j: int|
            0 <= j < updates.drop_first().len() ==> !(0 <= (#[trigger] updates.drop_first()[j]).0
                < grid.len()));
        lemma_bitmap_out_of_range(grid, updates.drop_first());
    }
}

impl Led {
    /// Applies one tick's sparse updates in order: an in-range index sets
    /// its cell, an out-of-range index is silently ignored, and a tick with
    /// no updates leaves the grid unchanged.
    pub fn build(&mut self, updates: &Vec<(i64, bool)>)
        requires
            old(self).well_formed(),
        ensures
            final(self).well_formed(),
            final(self).buf@ == apply_updates(old(self).buf@, updates@),
    {
        let mut i: usize = 0;
        proof {
            assert(updates@.take(0) =~= Seq::<(i64, bool)>::empty());
        }
        while i < updates.len()
            invariant
                i <= updates@.len(),
                self.buf@ == apply_updates(old(self).buf@, updates@.take(i as int)),
                self.buf@.len() == old(self).buf@.len(),
                old(self).well_formed(),
            decreases updates@.len() - i,
        {
            let ghost done = updates@.take(i as int);
            let idx: i64 = updates[i].0;
            let on: bool = updates[i].1;
            let cells: usize = self.buf.len();
            if idx >= 0 && idx < (cells as i64) {
                self.buf[idx as usize] = on;
            }
            proof {
                lemma_apply_snoc(old(self).buf@, done, updates@[i as int]);
                assert(updates@.take(i as int + 1) =~= done.push(updates@[i as int]));
            }
            i = i + 1;
        }
        proof {
            assert(updates@.take(updates@.len() as int) =~= updates@);
        }
    }
}

impl Led {
    /// Applies the marshalled sparse-update global to the persistent grid:
    /// nil means no updates this tick, a table is applied write for write,
    /// and anything else, as well as a table with a non-integer key, is a
    /// schema error that leaves the grid untouched.
    pub fn build_from_value(&mut self, sv: &ScriptValue) -> (r: Result<(), MpError>)
        requires
            old(self).well_formed(),
        ensures
            final(self).well_formed(),
            sv is Nil ==> r is Ok && final(self).buf@ == old(self).buf@,
            sv matches ScriptValue::Table(es) ==> {
                &&& updates_ok(es@) ==> r is Ok && final(self).buf@ == apply_updates(
                    old(self).buf@,
                    spec_led_updates(es@),
                )
                &&& !updates_ok(es@) ==> (r matches Err(e) && e is Schema && final(self).buf@
                    == old(self).buf@)
            },
            !(sv is Nil || sv is Table) ==> (r matches Err(e) && e is Schema && final(self).buf@
                == old(self).buf@),
    {
        let entries = match sv {
            ScriptValue::Nil => {
                return Ok(());
            },
            ScriptValue::Table(es) => es,
            _ => {
                return Err(MpError::Schema(String::from_str("light table is not a table")));
            },
        };
        let updates = match led_updates(entries) {
            Ok(u) => u,
            Err(e) => {
                return Err(e);
            },
        };
        self.build(&updates);
        Ok(())
    }
}

/// Whether every pair of the sparse update table is keyed by an integer.
pub open spec fn updates_ok(entries: Seq<(ScriptValue, ScriptValue)>) -> bool {
    forall|j: int| 0 <= j < entries.len() ==> (#[trigger] entries[j]).0 is Int
}

/// The writes the sparse table describes, in table order: each integer key
/// with its value read by truthiness.
pub open spec fn spec_led_updates(entries: Seq<(ScriptValue, ScriptValue)>) -> Seq<(i64, bool)> {
    entries.map_values(
        |p: (ScriptValue, ScriptValue)|
            (
                match p.0 {
                    ScriptValue::Int(k) => k,
                    _ => 0,
                },
                spec_truthy(p.1),
            ),
    )
}

/// Reads the scripted sparse update table into plain writes. A key that is
/// not an integer aborts the read.
pub fn led_updates(entries: &Vec<(ScriptValue, ScriptValue)>) -> (r: Result<
    Vec<(i64, bool)>,
    MpError,
>)
    ensures
        match r {
            Ok(u) => updates_ok(entries@) && u@ == spec_led_updates(entries@),
            Err(e) => !updates_ok(entries@) && e is Schema,
        },
{
    let mut out: Vec<(i64, bool)> = Vec::new();
    let mut i: usize = 0;
    while i < entries.len()
        invariant
            i <= entries@.len(),
            out@.len() == i,
            forall|j: int| 0 <= j < i ==> (#[trigger] entries@[j]).0 is Int,
            forall|j: int| 0 <= j < i ==> out@[j] == spec_led_updates(entries@)[j],
        decreases entries@.len() - i,
    {
        let pair = &entries[i];
        let key: i64 = match &pair.0 {
            ScriptValue::Int(k) => *k,
            _ => {
                proof {
                    assert(!((entries@[i as int]).0 is Int));
                }
                return Err(MpError::Schema(String::from_str(
                    "light cell key is not an integer index",
                )));
            },
        };
        let on = truthy(&pair.1);
        out.push((key, on));
        i = i + 1;
    }
    proof {
        assert(out@ =~= spec_led_updates(entries@));
    }
    Ok(out)
}

} // verus!
