use crate::errors::MpError;
use crate::text::i64_to_string;
use crate::text::spec_i64_text;
use crate::value::ScriptValue;
use vstd::prelude::*;
use vstd::string::StringExecFns;

verus! {

/// One render-ready display line.
#[derive(Debug)]
pub enum UiStatusItem {
    Text(String),
}

/// The display model for the scripted state table: an ordered sequence of
/// text lines, rebuilt every tick.
#[derive(Debug)]
pub struct UiStatus {
    pub items: Vec<UiStatusItem>,
}

/// The text carried by one display line.
pub open spec fn item_text(it: UiStatusItem) -> Seq<char> {
    match it {
        UiStatusItem::Text(s) => s@,
    }
}

/// The display text of a scalar value: booleans and nil by name, numbers in
/// decimal, strings as they are, and a diagnostic placeholder for the rest.
pub open spec fn spec_display_value(v: ScriptValue) -> Seq<char> {
    match v {
        ScriptValue::Nil => "Nil"@,
        ScriptValue::Bool(b) => if b {
            "true"@
        } else {
            "false"@
        },
        ScriptValue::Int(n) => spec_i64_text(n as int),
        ScriptValue::Num(s) => s@,
        ScriptValue::Text(s) => s@,
        ScriptValue::Table(_) => "table"@,
        ScriptValue::Callable => "function"@,
        ScriptValue::Opaque(tag) => tag@,
    }
}

/// The indentation prefix at a nesting depth: two spaces per level.
pub open spec fn indent_chars(depth: nat) -> Seq<char>
    decreases depth,
{
    if depth == 0 {
        Seq::empty()
    } else {
        indent_chars((depth - 1) as nat) + seq![' ', ' ']
    }
}

/// The header line a composite entry emits before its children.
pub open spec fn spec_header_line(k: ScriptValue, depth: nat) -> Seq<char> {
    indent_chars(depth) + spec_display_value(k) + ": "@
}

/// The single line a scalar entry emits.
pub open spec fn spec_scalar_line(k: ScriptValue, v: ScriptValue, depth: nat) -> Seq<char> {
    indent_chars(depth) + spec_display_value(k) + ": "@ + spec_display_value(v)
}

/// The lines projected for an ordered sequence of key/value pairs at the
/// given depth: a depth-first, pre-order walk in pair order.
pub open spec fn spec_project(entries: Seq<(ScriptValue, ScriptValue)>, depth: nat) -> Seq<
    Seq<char>,
>
    decreases entries,
{
    if entries.len() == 0 {
        Seq::empty()
    } else {
        spec_project_entry(entries[0].0, entries[0].1, depth) + spec_project(
            entries.drop_first(),
            depth,
        )
    }
}

/// The lines projected for one key/value pair: a composite emits its header
/// line and then its children one level deeper; a scalar emits one line.
pub open spec fn spec_project_entry(k: ScriptValue, v: ScriptValue, depth: nat) -> Seq<Seq<char>>
    decreases v,
{
    match v {
        ScriptValue::Table(inner) => seq![spec_header_line(k, depth)] + spec_project(
            inner@,
            depth + 1,
        ),
        _ => seq![spec_scalar_line(k, v, depth)],
    }
}

/// How many leaf (scalar) pairs the pairs hold, across all nesting levels.
pub open spec fn leaf_count(entries: Seq<(ScriptValue, ScriptValue)>) -> nat
    decreases entries,
{
    if entries.len() == 0 {
        0
    } else {
        leaf_count_entry(entries[0].1) + leaf_count(entries.drop_first())
    }
}

/// How many leaf pairs sit under one value.
pub open spec fn leaf_count_entry(v: ScriptValue) -> nat
    decreases v,
{
    match v {
        ScriptValue::Table(inner) => leaf_count(inner@),
        _ => 1,
    }
}

/// How many composite (table-valued) pairs the pairs hold, across all
/// nesting levels.
pub open spec fn composite_count(entries: Seq<(ScriptValue, ScriptValue)>) -> nat
    decreases entries,
{
    if entries.len() == 0 {
        0
    } else {
        composite_count_entry(entries[0].1) + composite_count(entries.drop_first())
    }
}

/// How many composite pairs sit under one value, the value itself included.
pub open spec fn composite_count_entry(v: ScriptValue) -> nat
    decreases v,
{
    match v {
        ScriptValue::Table(inner) => 1 + composite_count(inner@),
        _ => 0,
    }
}

/// Projection emits one line per leaf pair plus one header line per
/// composite pair, at every nesting level and whatever the depth.
pub proof fn lemma_project_line_count(entries: Seq<(ScriptValue, ScriptValue)>, depth: nat)
    ensures
        spec_project(entries, depth).len() == leaf_count(entries) + composite_count(entries),
    decreases entries,
{
    if entries.len() != 0 {
        lemma_project_entry_line_count(entries[0].0, entries[0].1, depth);
        lemma_project_line_count(entries.drop_first(), depth);
    }
}

/// The lines for one pair: one for a scalar, one header plus the children's
/// lines for a composite.
pub proof fn lemma_project_entry_line_count(k: ScriptValue, v: ScriptValue, depth: nat)
    ensures
        spec_project_entry(k, v, depth).len() == leaf_count_entry(v) + composite_count_entry(v),
    decreases v,
{
    match v {
        ScriptValue::Table(inner) => {
            lemma_project_line_count(inner@, depth + 1);
        },
        _ => {},
    }
}

/// For a flat table, whose values are all scalars, the projected line count
/// equals the number of leaf key/value pairs.
pub proof fn lemma_project_flat_line_count(entries: Seq<(ScriptValue, ScriptValue)>, depth: nat)
    requires
        composite_count(entries) == 0,
    ensures
        spec_project(entries, depth).len() == leaf_count(entries),
{
    lemma_project_line_count(entries, depth);
}

/// Projecting one more pair appends that pair's lines after the lines of the
/// pairs before it.
pub proof fn lemma_project_snoc(entries: Seq<(ScriptValue, ScriptValue)>, depth: nat)
    requires
        entries.len() > 0,
    ensures
        spec_project(entries, depth) == spec_project(entries.drop_last(), depth)
            + spec_project_entry(entries.last().0, entries.last().1, depth),
    decreases entries.len(),
{
    if entries.len() == 1 {
        assert(entries.drop_last() =~= Seq::<(ScriptValue, ScriptValue)>::empty());
        assert(entries.drop_first() =~= Seq::<(ScriptValue, ScriptValue)>::empty());
        assert(entries.last() == entries[0]);
        assert(spec_project(entries, depth) =~= spec_project(entries.drop_last(), depth)
            + spec_project_entry(entries.last().0, entries.last().1, depth));
    } else {
        let rest = entries.drop_first();
        lemma_project_snoc(rest, depth);
        assert(rest.drop_last() =~= entries.drop_last().drop_first());
        assert(rest.last() == entries.last());
        assert(entries.drop_last()[0] == entries[0]);
        assert(spec_project(entries.drop_last(), depth) == spec_project_entry(
            entries[0].0,
            entries[0].1,
            depth,
        ) + spec_project(rest.drop_last(), depth));
        assert(spec_project(entries, depth) =~= spec_project(entries.drop_last(), depth)
            + spec_project_entry(entries.last().0, entries.last().1, depth));
    }
}

/// Every composite pair's key appears as exactly one header line standing
/// immediately before its children's lines: around position `i` the
/// projection splits into the lines of the earlier pairs, the header, the
/// children's lines one level deeper, and the lines of the later pairs.
pub proof fn lemma_composite_header(
    entries: Seq<(ScriptValue, ScriptValue)>,
    depth: nat,
    i: int,
    inner: Seq<(ScriptValue, ScriptValue)>,
)
    requires
        0 <= i < entries.len(),
        entries[i].1 matches ScriptValue::Table(v) && v@ == inner,
    ensures
        spec_project(entries, depth) == spec_project(entries.take(i), depth) + seq![
            spec_header_line(entries[i].0, depth),
        ] + spec_project(inner, depth + 1) + spec_project(entries.skip(i + 1), depth),
    decreases i,
{
    let goal = spec_project(entries.take(i), depth) + seq![spec_header_line(entries[i].0, depth)]
        + spec_project(inner, depth + 1) + spec_project(entries.skip(i + 1), depth);
    if i == 0 {
        assert(entries.take(0) =~= Seq::<(ScriptValue, ScriptValue)>::empty());
        assert(entries.skip(1) =~= entries.drop_first());
        assert(spec_project_entry(entries[0].0, entries[0].1, depth) == seq![
            spec_header_line(entries[0].0, depth),
        ] + spec_project(inner, depth + 1));
        assert(spec_project(entries, depth) =~= goal);
    } else {
        let rest = entries.drop_first();
        assert(rest[i - 1] == entries[i]);
        lemma_composite_header(rest, depth, i - 1, inner);
        assert(rest.take(i - 1) =~= entries.take(i).drop_first());
        assert(rest.skip(i) =~= entries.skip(i + 1));
        assert(entries.take(i)[0] == entries[0]);
        assert(spec_project(entries.take(i), depth) == spec_project_entry(
            entries[0].0,
            entries[0].1,
            depth,
        ) + spec_project(rest.take(i - 1), depth));
        assert(spec_project(entries, depth) =~= goal);
    }
}

/// Renders one scalar value as display text.
pub fn display_value(v: &ScriptValue) -> (r: String)
    ensures
        r@ == spec_display_value(*v),
{
    match v {
        ScriptValue::Nil => String::from_str("Nil"),
        ScriptValue::Bool(b) => if *b {
            String::from_str("true")
        } else {
            String::from_str("false")
        },
        ScriptValue::Int(n) => i64_to_string(*n),
        ScriptValue::Num(s) => s.clone(),
        ScriptValue::Text(s) => s.clone(),
        ScriptValue::Table(_) => String::from_str("table"),
        ScriptValue::Callable => String::from_str("function"),
        ScriptValue::Opaque(tag) => tag.clone(),
    }
}

impl UiStatus {
    /// An empty display model.
    pub fn empty() -> (r: UiStatus)
        ensures
            r.items@.len() == 0,
    {
        UiStatus { items: Vec::new() }
    }

    /// Projects the pairs of one scripted table into display lines, starting
    /// at nesting depth zero and appending to the lines already present.
    pub fn build(&mut self, entries: &Vec<(ScriptValue, ScriptValue)>)
        ensures
            final(self).items@.len() == old(self).items@.len() + spec_project(
                entries@,
                0,
            ).len(),
            forall|j: int|
                0 <= j < old(self).items@.len() ==> final(self).items@[j] == old(
                    self,
                ).items@[j],
            forall|j: int|
                0 <= j < spec_project(entries@, 0).len() ==> item_text(
                    final(self).items@[old(self).items@.len() + j],
                ) == spec_project(entries@, 0)[j],
    {
        let indent = String::new();
        self.build_rec(entries, &indent, Ghost(0nat));
    }

    fn build_rec(
        &mut self,
        entries: &Vec<(ScriptValue, ScriptValue)>,
        indent: &String,
        depth: Ghost<nat>,
    )
        requires
            indent@ == indent_chars(depth@),
        ensures
            final(self).items@.len() == old(self).items@.len() + spec_project(
                entries@,
                depth@,
            ).len(),
            forall|j: int|
                0 <= j < old(self).items@.len() ==> final(self).items@[j] == old(
                    self,
                ).items@[j],
            forall|j: int|
                0 <= j < spec_project(entries@, depth@).len() ==> item_text(
                    final(self).items@[old(self).items@.len() + j],
                ) == spec_project(entries@, depth@)[j],
        decreases entries@,
    {
        let base: Ghost<int> = Ghost(old(self).items@.len() as int);
        let mut i: usize = 0;
        proof {
            assert(entries@.take(0) =~= Seq::<(ScriptValue, ScriptValue)>::empty());
        }
        while i < entries.len()
            invariant
                i <= entries@.len(),
                indent@ == indent_chars(depth@),
                base@ == old(self).items@.len(),
                self.items@.len() == base@ + spec_project(
                    entries@.take(i as int),
                    depth@,
                ).len(),
                forall|j: int| 0 <= j < base@ ==> self.items@[j] == old(self).items@[j],
                forall|j: int|
                    0 <= j < spec_project(entries@.take(i as int), depth@).len() ==> item_text(
                        self.items@[base@ + j],
                    ) == spec_project(entries@.take(i as int), depth@)[j],
            decreases entries@.len() - i,
        {
            let ghost done = spec_project(entries@.take(i as int), depth@);
            let pair = &entries[i];
            let dk = display_value(&pair.0);
            match &pair.1 {
                ScriptValue::Table(inner) => {
                    let mut line = String::new();
                    line.append(indent.as_str());
                    line.append(dk.as_str());
                    line.append(": ");
                    proof {
                        assert(line@ =~= spec_header_line(pair.0, depth@));
                    }
                    self.items.push(UiStatusItem::Text(line));
                    let mut deeper = indent.clone();
                    deeper.append("  ");
                    proof {
                        reveal_strlit("  ");
                        assert(deeper@ =~= indent_chars(depth@ + 1));
                        assert(decreases_to!(entries@ => entries@[i as int]));
                        assert(decreases_to!(entries@[i as int].1 => inner@));
                    }
                    self.build_rec(inner, &deeper, Ghost(depth@ + 1));
                },
                _ => {
                    let dv = display_value(&pair.1);
                    let mut line = String::new();
                    line.append(indent.as_str());
                    line.append(dk.as_str());
                    line.append(": ");
                    line.append(dv.as_str());
                    proof {
                        assert(line@ =~= spec_scalar_line(pair.0, pair.1, depth@));
                    }
                    self.items.push(UiStatusItem::Text(line));
                },
            }
            proof {
                lemma_project_snoc(entries@.take(i as int + 1), depth@);
                assert(entries@.take(i as int + 1).drop_last() =~= entries@.take(i as int));
                assert(entries@.take(i as int + 1).last() == entries@[i as int]);
                assert(spec_project(entries@.take(i as int + 1), depth@) == done
                    + spec_project_entry(entries@[i as int].0, entries@[i as int].1, depth@));
            }
            i = i + 1;
        }
        proof {
            assert(entries@.take(entries@.len() as int) =~= entries@);
        }
    }
}

/// Whether the walk of `entries`, started at `depth`, meets some composite
/// pair whose key is `key` and whose children are `inner` at nesting depth
/// `d` — at the top level or anywhere below it.
pub open spec fn composite_within(
    entries: Seq<(ScriptValue, ScriptValue)>,
    depth: nat,
    key: ScriptValue,
    inner: Seq<(ScriptValue, ScriptValue)>,
    d: nat,
) -> bool
    decreases entries,
{
    if entries.len() == 0 {
        false
    } else {
        composite_within_entry(entries[0], depth, key, inner, d) || composite_within(
            entries.drop_first(),
            depth,
            key,
            inner,
            d,
        )
    }
}

/// Whether one pair is, or holds beneath it, the composite being sought.
pub open spec fn composite_within_entry(
    p: (ScriptValue, ScriptValue),
    depth: nat,
    key: ScriptValue,
    inner: Seq<(ScriptValue, ScriptValue)>,
    d: nat,
) -> bool
    decreases p,
{
    match p.1 {
        ScriptValue::Table(v) => (d == depth && p.0 == key && v@ == inner) || composite_within(
            v@,
            depth + 1,
            key,
            inner,
            d,
        ),
        _ => false,
    }
}

/// Whether a line sequence splits around one composite's header: some
/// earlier lines, then the header line at depth `d`, then immediately the
/// contiguous block of the children's lines one level deeper, then some
/// later lines.
pub open spec fn header_block_at(
    lines: Seq<Seq<char>>,
    key: ScriptValue,
    inner: Seq<(ScriptValue, ScriptValue)>,
    d: nat,
) -> bool {
    exists|before: Seq<Seq<char>>, after: Seq<Seq<char>>|
        #![trigger before + seq![spec_header_line(key, d)] + spec_project(inner, d + 1) + after]
        lines == before + seq![spec_header_line(key, d)] + spec_project(inner, d + 1) + after
}

/// Every composite pair met anywhere in the walk — at any nesting depth —
/// contributes exactly one header line followed immediately by the
/// contiguous block of its children's lines rendered one level deeper.
/// Through `UiStatus::build`'s contract this holds of the built display
/// lines at every nesting level, not only at the top.
pub proof fn lemma_nested_composite_header(
    entries: Seq<(ScriptValue, ScriptValue)>,
    depth: nat,
    key: ScriptValue,
    inner: Seq<(ScriptValue, ScriptValue)>,
    d: nat,
)
    requires
        composite_within(entries, depth, key, inner, d),
    ensures
        header_block_at(spec_project(entries, depth), key, inner, d),
    decreases entries,
{
    let lines = spec_project(entries, depth);
    let p = entries[0];
    let rest = entries.drop_first();
    assert(entries.len() > 0);
    assert(lines == spec_project_entry(p.0, p.1, depth) + spec_project(rest, depth));
    if composite_within_entry(p, depth, key, inner, d) {
        match p.1 {
            ScriptValue::Table(v) => {
                if d == depth && p.0 == key && v@ == inner {
                    let before = Seq::<Seq<char>>::empty();
                    let after = spec_project(rest, depth);
                    assert(lines =~= before + seq![spec_header_line(key, d)] + spec_project(
                        inner,
                        d + 1,
                    ) + after);
                    assert(header_block_at(lines, key, inner, d));
                } else {
                    assert(composite_within(v@, depth + 1, key, inner, d));
                    lemma_nested_composite_header(v@, depth + 1, key, inner, d);
                    let (b1, a1) = choose|b: Seq<Seq<char>>, a: Seq<Seq<char>>|
                        #![trigger b + seq![spec_header_line(key, d)] + spec_project(inner, d + 1) + a]
                        spec_project(v@, depth + 1) == b + seq![spec_header_line(key, d)]
                            + spec_project(inner, d + 1) + a;
                    let before = seq![spec_header_line(p.0, depth)] + b1;
                    let after = a1 + spec_project(rest, depth);
                    assert(lines =~= before + seq![spec_header_line(key, d)] + spec_project(
                        inner,
                        d + 1,
                    ) + after);
                    assert(header_block_at(lines, key, inner, d));
                }
            },
            _ => {
                assert(false);
            },
        }
    } else {
        assert(composite_within(rest, depth, key, inner, d));
        lemma_nested_composite_header(rest, depth, key, inner, d);
        let (b1, a1) = choose|b: Seq<Seq<char>>, a: Seq<Seq<char>>|
            #![trigger b + seq![spec_header_line(key, d)] + spec_project(inner, d + 1) + a]
            spec_project(rest, depth) == b + seq![spec_header_line(key, d)] + spec_project(
                inner,
                d + 1,
            ) + a;
        let before = spec_project_entry(p.0, p.1, depth) + b1;
        let after = a1;
        assert(lines =~= before + seq![spec_header_line(key, d)] + spec_project(inner, d + 1)
            + after);
        assert(header_block_at(lines, key, inner, d));
    }
}

/// Whether display lines are exactly the projection of some scripted pairs.
pub open spec fn spec_projected(
    items: Seq<UiStatusItem>,
    entries: Seq<(ScriptValue, ScriptValue)>,
) -> bool {
    &&& items.len() == spec_project(entries, 0).len()
    &&& forall|j: int|
        0 <= j < items.len() ==> item_text(items[j]) == spec_project(entries, 0)[j]
}

/// Whether display lines are the projection of some scripted pairs.
pub open spec fn some_projection(items: Seq<UiStatusItem>) -> bool {
    exists|entries: Seq<(ScriptValue, ScriptValue)>| spec_projected(items, entries)
}

/// Projects the marshalled state global: the pairs of a table are projected
/// from depth zero; any other value aborts the projection for the tick.
pub fn project_state(sv: &ScriptValue) -> (r: Result<UiStatus, MpError>)
    ensures
        sv matches ScriptValue::Table(es) ==> (r matches Ok(us) && spec_projected(
            us.items@,
            es@,
        )),
        !(sv is Table) ==> (r matches Err(e) && e is Projection),
{
    let entries = match sv {
        ScriptValue::Table(es) => es,
        _ => {
            return Err(MpError::Projection(String::from_str("state table is not a table")));
        },
    };
    let mut info = UiStatus::empty();
    info.build(entries);
    proof {
        assert(spec_projected(info.items@, entries@));
    }
    Ok(info)
}

} // verus!

