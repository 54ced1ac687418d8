//! The tree-shaped input model that schemas are checked against: a JSON-like
//! value made of objects, arrays and primitives, together with its ghost
//! mirror over `Seq` and `int`, which all contracts speak of.

use vstd::prelude::*;

verus! {

broadcast use vstd::seq::axiom_seq_index_decreases, vstd::seq::axiom_seq_subrange_decreases, vstd::std_specs::vec::axiom_vec_decreases_to_view;

/// Ghost mirror of [`Value`]: object entries keep their order, keys are
/// character sequences, numbers are unbounded integers.
pub enum SpecValue {
    Null,
    Bool(bool),
    Number(int),
    Text(Seq<char>),
    Array(Seq<SpecValue>),
    Object(Seq<(Seq<char>, SpecValue)>),
}

/// A node of the value tree handed to validation. Object entries keep the
/// order in which they were built; a key may look up only its first entry.
#[derive(Debug, PartialEq)]
pub enum Value {
    Null,
    Bool(bool),
    Number(i64),
    Text(String),
    Array(Vec<Value>),
    Object(Vec<(String, Value)>),
}

/// The ghost mirror of a list of array elements.
pub open spec fn values_view(items: Seq<Value>) -> Seq<SpecValue>
    decreases items,
{
    if items.len() == 0 {
        Seq::empty()
    } else {
        seq![items[0]@] + values_view(items.drop_first())
    }
}

/// The ghost mirror of one object entry list.
pub open spec fn entries_view(entries: Seq<(String, Value)>) -> Seq<(Seq<char>, SpecValue)>
    decreases entries,
{
    if entries.len() == 0 {
        Seq::empty()
    } else {
        seq![(entries[0].0@, entries[0].1@)] + entries_view(entries.drop_first())
    }
}

impl View for Value {
    type V = SpecValue;

    open spec fn view(&self) -> SpecValue
        decreases self,
    {
        match self {
            Value::Null => SpecValue::Null,
            Value::Bool(b) => SpecValue::Bool(*b),
            Value::Number(n) => SpecValue::Number(*n as int),
            Value::Text(s) => SpecValue::Text(s@),
            Value::Array(items) => SpecValue::Array(values_view(items@)),
            Value::Object(entries) => SpecValue::Object(entries_view(entries@)),
        }
    }
}

/// `values_view` maps the list element by element.
pub broadcast proof fn lemma_values_view(items: Seq<Value>)
    ensures
        (#[trigger] values_view(items)).len() == items.len(),
        forall|i: int| 0 <= i < items.len() ==> values_view(items)[i] == items[i]@,
    decreases items.len(),
{
    if items.len() > 0 {
        lemma_values_view(items.drop_first());
        let head = seq![items[0]@];
        let rest = values_view(items.drop_first());
        assert(values_view(items) == head + rest);
        assert forall|i: int| 0 <= i < items.len() implies values_view(items)[i] == items[i]@ by {
            if i > 0 {
                assert((head + rest)[i] == rest[i - 1]);
                assert(items.drop_first()[i - 1] == items[i]);
            } else {
                assert((head + rest)[0] == head[0]);
            }
        }
    }
}

/// `entries_view` maps the entry list element by element.
pub broadcast proof fn lemma_entries_view(entries: Seq<(String, Value)>)
    ensures
        (#[trigger] entries_view(entries)).len() == entries.len(),
        forall|i: int| 0 <= i < entries.len()
            ==> entries_view(entries)[i] == (entries[i].0@, entries[i].1@),
    decreases entries.len(),
{
    if entries.len() > 0 {
        lemma_entries_view(entries.drop_first());
        let head = seq![(entries[0].0@, entries[0].1@)];
        let rest = entries_view(entries.drop_first());
        assert(entries_view(entries) == head + rest);
        assert forall|i: int| 0 <= i < entries.len()
            implies entries_view(entries)[i] == (entries[i].0@, entries[i].1@) by {
            if i > 0 {
                assert((head + rest)[i] == rest[i - 1]);
                assert(entries.drop_first()[i - 1] == entries[i]);
            } else {
                assert((head + rest)[0] == head[0]);
            }
        }
    }
}

/// A deep copy of a value tree, equal to the original at the ghost level.
#[verifier::loop_isolation(false)]
pub fn clone_value(v: &Value) -> (r: Value)
    ensures
        r@ == v@,
    decreases v,
{
    match v {
        Value::Null => Value::Null,
        Value::Bool(b) => Value::Bool(*b),
        Value::Number(n) => Value::Number(*n),
        Value::Text(s) => Value::Text(s.clone()),
        Value::Array(items) => {
            let mut out: Vec<Value> = Vec::new();
            let mut i: usize = 0;
            while i < items.len()
                invariant
                    0 <= i <= items.len(),
                    out@.len() == i,
                    forall|j: int| 0 <= j < i ==> out@[j]@ == items@[j]@,
                decreases items.len() - i,
            {
                let c = clone_value(&items[i]);
                out.push(c);
                i += 1;
            }
            proof {
                lemma_values_view(out@);
                lemma_values_view(items@);
                assert(values_view(out@) =~= values_view(items@));
            }
            Value::Array(out)
        },
        Value::Object(entries) => {
            let mut out: Vec<(String, Value)> = Vec::new();
            let mut i: usize = 0;
            while i < entries.len()
                invariant
                    0 <= i <= entries.len(),
                    out@.len() == i,
                    forall|j: int| 0 <= j < i ==> out@[j].0@ == entries@[j].0@ && out@[j].1@
                        == entries@[j].1@,
                decreases entries.len() - i,
            {
                let k = entries[i].0.clone();
                let c = clone_value(&entries[i].1);
                out.push((k, c));
                i += 1;
            }
            proof {
                lemma_entries_view(out@);
                lemma_entries_view(entries@);
                assert(entries_view(out@) =~= entries_view(entries@));
            }
            Value::Object(out)
        },
    }
}

impl Clone for Value {
    /// A deep copy; the tree it returns mirrors the original exactly.
    fn clone(&self) -> (r: Value)
        ensures
            r@ == self@,
    {
        clone_value(self)
    }
}

/// First entry of `entries` whose key is `key`, if any.
pub open spec fn spec_obj_get(
    entries: Seq<(Seq<char>, SpecValue)>,
    key: Seq<char>,
) -> Option<SpecValue>
    decreases entries.len(),
{
    if entries.len() == 0 {
        None
    } else if entries[0].0 == key {
        Some(entries[0].1)
    } else {
        spec_obj_get(entries.drop_first(), key)
    }
}

pub open spec fn spec_obj_has_key(entries: Seq<(Seq<char>, SpecValue)>, key: Seq<char>) -> bool {
    spec_obj_get(entries, key) is Some
}

/// Skipping entries whose key is not `key` does not change the lookup.
proof fn lemma_obj_get_skip(entries: Seq<(Seq<char>, SpecValue)>, key: Seq<char>, i: int)
    requires
        0 <= i <= entries.len(),
        forall|j: int| 0 <= j < i ==> entries[j].0 != key,
    ensures
        spec_obj_get(entries, key) == spec_obj_get(entries.skip(i), key),
    decreases i,
{
    if i > 0 {
        assert(entries.skip(i) =~= entries.drop_first().skip(i - 1));
        lemma_obj_get_skip(entries.drop_first(), key, i - 1);
    } else {
        assert(entries.skip(0) =~= entries);
    }
}

/// Looks the key up among the entries of an object node, returning the first
/// entry that carries it, exactly as `spec_obj_get` does.
pub fn obj_get<'a>(entries: &'a Vec<(String, Value)>, key: &String) -> (r: Option<&'a Value>)
    ensures
        match r {
            Some(v) => spec_obj_get(entries_view(entries@), key@) == Some(v@),
            None => spec_obj_get(entries_view(entries@), key@) is None,
        },
{
    let ghost ev = entries_view(entries@);
    let mut i: usize = 0;
    while i < entries.len()
        invariant
            0 <= i <= entries.len(),
            ev == entries_view(entries@),
            forall|j: int| 0 <= j < i ==> ev[j].0 != key@,
        decreases entries.len() - i,
    {
        proof {
            lemma_entries_view(entries@);
        }
        if entries[i].0.eq(key) {
            proof {
                lemma_obj_get_skip(ev, key@, i as int);
                assert(ev.skip(i as int)[0] == ev[i as int]);
            }
            return Some(&entries[i].1);
        }
        i += 1;
    }
    proof {
        lemma_entries_view(entries@);
        lemma_obj_get_skip(ev, key@, i as int);
        assert(ev.skip(i as int).len() == 0);
    }
    None
}

} // verus!
