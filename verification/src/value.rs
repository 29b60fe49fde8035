use vstd::prelude::*;
use vstd::string::StrSliceExecFns;

verus! {

/// A scripted value carried across the marshalling boundary: the closed
/// tagged-variant form of whatever the interpreter handed back. Conversions
/// downstream match exhaustively on this type instead of probing the engine.
#[derive(Debug)]
pub enum ScriptValue {
    /// The scripting language's nil.
    Nil,
    /// A boolean.
    Bool(bool),
    /// An integer number.
    Int(i64),
    /// A non-integer number, kept as the decimal text printed for it at the
    /// boundary.
    Num(String),
    /// A string.
    Text(String),
    /// A table, as the ordered key/value pairs in which the boundary walked it.
    Table(Vec<(ScriptValue, ScriptValue)>),
    /// A function; only its presence matters on the host side.
    Callable,
    /// Anything else, kept as a diagnostic tag.
    Opaque(String),
}

/// The value under the first key that is the text `name`, if any.
pub open spec fn lookup_text_key(
    entries: Seq<(ScriptValue, ScriptValue)>,
    name: Seq<char>,
) -> Option<ScriptValue>
    decreases entries.len(),
{
    if entries.len() == 0 {
        None
    } else if entries[0].0 matches ScriptValue::Text(s) && s@ == name {
        Some(entries[0].1)
    } else {
        lookup_text_key(entries.drop_first(), name)
    }
}

/// The value under the first key that is the integer `key`, if any.
pub open spec fn lookup_int_key(
    entries: Seq<(ScriptValue, ScriptValue)>,
    key: i64,
) -> Option<ScriptValue>
    decreases entries.len(),
{
    if entries.len() == 0 {
        None
    } else if entries[0].0 matches ScriptValue::Int(k) && k == key {
        Some(entries[0].1)
    } else {
        lookup_int_key(entries.drop_first(), key)
    }
}

/// Truthiness as the scripting language reads a value in a boolean place:
/// everything but nil and false counts as true.
pub open spec fn spec_truthy(v: ScriptValue) -> bool {
    !(v is Nil || v matches ScriptValue::Bool(false))
}

/// Character-for-character equality of two text slices.
pub fn str_eq(a: &str, b: &str) -> (r: bool)
    ensures
        r == (a@ == b@),
{
    let n1 = a.unicode_len();
    let n2 = b.unicode_len();
    if n1 != n2 {
        return false;
    }
    let mut i: usize = 0;
    while i < n1
        invariant
            n1 == a@.len(),
            n1 == b@.len(),
            i <= n1,
            forall|j: int| 0 <= j < i ==> a@[j] == b@[j],
        decreases n1 - i,
    {
        if a.get_char(i) != b.get_char(i) {
            return false;
        }
        i = i + 1;
    }
    proof {
        assert(a@ =~= b@);
    }
    true
}

/// Finds the value under the text key `name`, walking the pairs in order.
pub fn find_text_key<'a>(
    entries: &'a Vec<(ScriptValue, ScriptValue)>,
    name: &str,
) -> (r: Option<&'a ScriptValue>)
    ensures
        match r {
            Some(v) => lookup_text_key(entries@, name@) == Some(*v),
            None => lookup_text_key(entries@, name@) is None,
        },
{
    let mut i: usize = 0;
    proof {
        assert(entries@.skip(0) =~= entries@);
    }
    while i < entries.len()
        invariant
            i <= entries@.len(),
            lookup_text_key(entries@, name@) == lookup_text_key(
                entries@.skip(i as int),
                name@,
            ),
        decreases entries@.len() - i,
    {
        proof {
            assert(entries@.skip(i as int)[0] == entries@[i as int]);
            assert(entries@.skip(i as int).drop_first() =~= entries@.skip(i as int + 1));
        }
        let hit = match &entries[i].0 {
            ScriptValue::Text(s) => str_eq(s.as_str(), name),
            _ => false,
        };
        if hit {
            return Some(&entries[i].1);
        }
        i = i + 1;
    }
    proof {
        assert(entries@.skip(i as int) =~= Seq::<(ScriptValue, ScriptValue)>::empty());
    }
    None
}

/// Finds the value under the integer key `key`, walking the pairs in order.
pub fn find_int_key<'a>(
    entries: &'a Vec<(ScriptValue, ScriptValue)>,
    key: i64,
) -> (r: Option<&'a ScriptValue>)
    ensures
        match r {
            Some(v) => lookup_int_key(entries@, key) == Some(*v),
            None => lookup_int_key(entries@, key) is None,
        },
{
    let mut i: usize = 0;
    proof {
        assert(entries@.skip(0) =~= entries@);
    }
    while i < entries.len()
        invariant
            i <= entries@.len(),
            lookup_int_key(entries@, key) == lookup_int_key(entries@.skip(i as int), key),
        decreases entries@.len() - i,
    {
        proof {
            assert(entries@.skip(i as int)[0] == entries@[i as int]);
            assert(entries@.skip(i as int).drop_first() =~= entries@.skip(i as int + 1));
        }
        let hit = match &entries[i].0 {
            ScriptValue::Int(k) => *k == key,
            _ => false,
        };
        if hit {
            return Some(&entries[i].1);
        }
        i = i + 1;
    }
    proof {
        assert(entries@.skip(i as int) =~= Seq::<(ScriptValue, ScriptValue)>::empty());
    }
    None
}

/// Reads a value in a boolean place as the scripting language would.
pub fn truthy(v: &ScriptValue) -> (r: bool)
    ensures
        r == spec_truthy(*v),
{
    match v {
        ScriptValue::Nil => false,
        ScriptValue::Bool(b) => *b,
        _ => true,
    }
}

} // verus!
