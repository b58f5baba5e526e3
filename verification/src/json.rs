use vstd::prelude::*;

use crate::order::str_eq;
use crate::text::views;

verus! {

/// A JSON document. Numbers keep their textual form.
#[derive(Debug, PartialEq, Eq)]
pub enum JsonValue {
    Null,
    Bool(bool),
    Number(String),
    String(String),
    Array(Vec<JsonValue>),
    Object(Vec<(String, JsonValue)>),
}

/// The index of the first member of an object named `key`.
pub open spec fn member_index(entries: Seq<(String, JsonValue)>, key: Seq<char>) -> Option<int>
    decreases entries.len(),
{
    if entries.len() == 0 {
        None
    } else if entries[0].0@ == key {
        Some(0)
    } else {
        match member_index(entries.drop_first(), key) {
            Some(i) => Some(i + 1),
            None => None,
        }
    }
}

proof fn lemma_member_index(entries: Seq<(String, JsonValue)>, key: Seq<char>, k: int)
    requires
        0 <= k <= entries.len(),
        forall|j: int| 0 <= j < k ==> (#[trigger] entries[j]).0@ != key,
    ensures
        member_index(entries, key) == match member_index(entries.skip(k), key) {
            Some(i) => Some(i + k),
            None => None::<int>,
        },
    decreases k,
{
    if k > 0 {
        assert(entries.drop_first().skip(k - 1) == entries.skip(k));
        assert forall|j: int| 0 <= j < k - 1 implies (#[trigger] entries.drop_first()[j]).0@ != key by {
            assert(entries.drop_first()[j] == entries[j + 1]);
        }
        lemma_member_index(entries.drop_first(), key, k - 1);
    } else {
        assert(entries.skip(0) == entries);
    }
}

/// The value found by descending through the object members named by `keys`.
pub open spec fn value_at(v: JsonValue, keys: Seq<Seq<char>>) -> Option<JsonValue>
    decreases keys.len(),
{
    if keys.len() == 0 {
        Some(v)
    } else {
        match v {
            JsonValue::Object(entries) => match member_index(entries@, keys[0]) {
                Some(i) => value_at(entries@[i].1, keys.drop_first()),
                None => None,
            },
            _ => None,
        }
    }
}

/// `new` is `old` with the value at `keys` replaced by one that satisfies
/// `leaf`, and all else unchanged.
pub open spec fn replaced_at(
    old: JsonValue,
    new: JsonValue,
    keys: Seq<Seq<char>>,
    leaf: spec_fn(JsonValue) -> bool,
) -> bool
    decreases keys.len(),
{
    if keys.len() == 0 {
        leaf(new)
    } else {
        match (old, new) {
            (JsonValue::Object(oe), JsonValue::Object(ne)) => match member_index(oe@, keys[0]) {
                Some(i) => {
                    &&& ne@.len() == oe@.len()
                    &&& forall|j: int| 0 <= j < oe@.len() && j != i ==> #[trigger] ne@[j] == oe@[j]
                    &&& ne@[i].0 == oe@[i].0
                    &&& replaced_at(oe@[i].1, ne@[i].1, keys.drop_first(), leaf)
                },
                None => false,
            },
            _ => false,
        }
    }
}

fn find_member(entries: &Vec<(String, JsonValue)>, key: &str) -> (r: Option<usize>)
    ensures
        r matches Some(i) ==> member_index(entries@, key@) == Some(i as int) && i < entries@.len(),
        r is None ==> member_index(entries@, key@) is None,
{
    let mut i: usize = 0;
    while i < entries.len()
        invariant
            i <= entries@.len(),
            forall|j: int| 0 <= j < i ==> (#[trigger] entries@[j]).0@ != key@,
        decreases entries.len() - i,
    {
        if str_eq(entries[i].0.as_str(), key) {
            proof {
                lemma_member_index(entries@, key@, i as int);
                assert(entries@.skip(i as int)[0] == entries@[i as int]);
            }
            return Some(i);
        }
        i += 1;
    }
    proof {
        lemma_member_index(entries@, key@, i as int);
        assert(entries@.skip(i as int).len() == 0);
    }
    None
}

/// The value at the object members named by `keys`, if there is one.
pub fn value_at_path<'a>(v: &'a JsonValue, keys: &Vec<String>) -> (r: Option<&'a JsonValue>)
    ensures
        r matches Some(x) ==> value_at(*v, views(keys@)) == Some(*x),
        r is None ==> value_at(*v, views(keys@)) is None,
{
    let mut cur: &JsonValue = v;
    let mut i: usize = 0;
    assert(views(keys@).skip(0) == views(keys@));
    while i < keys.len()
        invariant
            i <= keys@.len(),
            value_at(*v, views(keys@)) == value_at(*cur, views(keys@).skip(i as int)),
        decreases keys.len() - i,
    {
        let ghost rest = views(keys@).skip(i as int);
        assert(rest[0] == keys@[i as int]@);
        assert(rest.drop_first() == views(keys@).skip(i + 1));
        match cur {
            JsonValue::Object(entries) => match find_member(entries, keys[i].as_str()) {
                Some(k) => {
                    cur = &entries[k].1;
                },
                None => {
                    return None;
                },
            },
            _ => {
                return None;
            },
        }
        i += 1;
    }
    assert(views(keys@).skip(keys@.len() as int).len() == 0);
    Some(cur)
}

/// Replaces the value at the object members named by `keys[depth..]`;
/// gives back `None` when there is no value there.
pub fn replace_at_path(v: JsonValue, keys: &Vec<String>, depth: usize, value: JsonValue) -> (r:
    Option<JsonValue>)
    requires
        depth <= keys@.len(),
    ensures
        r is None <==> value_at(v, views(keys@).skip(depth as int)) is None,
        r matches Some(nv) ==> replaced_at(
            v,
            nv,
            views(keys@).skip(depth as int),
            |x: JsonValue| x == value,
        ),
    decreases keys@.len() - depth,
{
    let ghost rest = views(keys@).skip(depth as int);
    if depth == keys.len() {
        assert(rest.len() == 0);
        return Some(value);
    }
    assert(rest[0] == keys@[depth as int]@);
    assert(rest.drop_first() == views(keys@).skip(depth + 1));
    match v {
        JsonValue::Object(mut entries) => {
            let ghost old_entries = entries@;
            match find_member(&entries, keys[depth].as_str()) {
                None => None,
                Some(i) => {
                    let (name, child) = entries.remove(i);
                    match replace_at_path(child, keys, depth + 1, value) {
                        None => None,
                        Some(new_child) => {
                            entries.insert(i, (name, new_child));
                            proof {
                                assert forall|j: int| 0 <= j < old_entries.len() && j != i implies #[trigger] entries@[j]
                                    == old_entries[j] by {
                                    if j < i {
                                        assert(entries@[j] == old_entries.remove(i as int)[j]);
                                    } else {
                                        assert(entries@[j] == old_entries.remove(i as int)[j - 1]);
                                    }
                                }
                            }
                            Some(JsonValue::Object(entries))
                        },
                    }
                },
            }
        },
        _ => None,
    }
}

/// An array whose elements are the strings `texts`.
pub open spec fn is_string_array(v: JsonValue, texts: Seq<Seq<char>>) -> bool {
    v matches JsonValue::Array(items) && items@.len() == texts.len() && forall|i: int|
        0 <= i < texts.len() ==> (#[trigger] items@[i] matches JsonValue::String(s) && s@ == texts[i])
}

/// The array of the strings `texts`.
pub fn string_array(texts: &Vec<String>) -> (r: JsonValue)
    ensures
        is_string_array(r, views(texts@)),
{
    let mut items: Vec<JsonValue> = Vec::new();
    let mut i: usize = 0;
    while i < texts.len()
        invariant
            i <= texts@.len(),
            items@.len() == i,
            forall|k: int| 0 <= k < i ==> (#[trigger] items@[k] matches JsonValue::String(s) && s@
                == texts@[k]@),
        decreases texts.len() - i,
    {
        items.push(JsonValue::String(texts[i].clone()));
        i += 1;
    }
    JsonValue::Array(items)
}

/// The strings of an array whose elements are all strings; `None` when an
/// element is not a string.
pub fn array_strings(items: &Vec<JsonValue>) -> (r: Option<Vec<String>>)
    ensures
        r matches Some(v) ==> is_string_array(JsonValue::Array(*items), views(v@)),
        r is None ==> exists|i: int| 0 <= i < items@.len() && !(#[trigger] items@[i] is String),
{
    let mut out: Vec<String> = Vec::new();
    let mut i: usize = 0;
    while i < items.len()
        invariant
            i <= items@.len(),
            out@.len() == i,
            forall|k: int| 0 <= k < i ==> (#[trigger] items@[k] matches JsonValue::String(s) && s@
                == out@[k]@),
        decreases items.len() - i,
    {
        match &items[i] {
            JsonValue::String(s) => out.push(s.clone()),
            _ => {
                return None;
            },
        }
        i += 1;
    }
    assert(views(out@).len() == out@.len());
    Some(out)
}


/// Two paths that part ways: neither is a prefix of the other.
pub open spec fn paths_diverge(a: Seq<Seq<char>>, b: Seq<Seq<char>>) -> bool
    decreases a.len(),
{
    a.len() > 0 && b.len() > 0 && (a[0] != b[0] || paths_diverge(a.drop_first(), b.drop_first()))
}

proof fn lemma_member_index_found(entries: Seq<(String, JsonValue)>, key: Seq<char>)
    ensures
        member_index(entries, key) matches Some(i) ==> 0 <= i < entries.len() && entries[i].0@
            == key,
    decreases entries.len(),
{
    if entries.len() > 0 {
        lemma_member_index_found(entries.drop_first(), key);
    }
}

proof fn lemma_member_index_same_names(
    a: Seq<(String, JsonValue)>,
    b: Seq<(String, JsonValue)>,
    key: Seq<char>,
)
    requires
        a.len() == b.len(),
        forall|j: int| 0 <= j < a.len() ==> (#[trigger] a[j]).0 == b[j].0,
    ensures
        member_index(a, key) == member_index(b, key),
    decreases a.len(),
{
    if a.len() > 0 {
        assert(a[0].0 == b[0].0);
        assert forall|j: int| 0 <= j < a.drop_first().len() implies (#[trigger] a.drop_first()[j]).0
            == b.drop_first()[j].0 by {
            assert(a.drop_first()[j] == a[j + 1]);
            assert(b.drop_first()[j] == b[j + 1]);
        }
        lemma_member_index_same_names(a.drop_first(), b.drop_first(), key);
    }
}

/// After a replacement, the value at the replaced path satisfies `leaf`.
pub proof fn lemma_replaced_value(
    old: JsonValue,
    new: JsonValue,
    keys: Seq<Seq<char>>,
    leaf: spec_fn(JsonValue) -> bool,
)
    requires
        replaced_at(old, new, keys, leaf),
    ensures
        value_at(new, keys) matches Some(x) && leaf(x),
    decreases keys.len(),
{
    if keys.len() > 0 {
        match (old, new) {
            (JsonValue::Object(oe), JsonValue::Object(ne)) => {
                let i = member_index(oe@, keys[0])->0;
                lemma_member_index_same_names(oe@, ne@, keys[0]);
                assert forall|j: int| 0 <= j < oe@.len() implies (#[trigger] oe@[j]).0 == ne@[j].0 by {
                    if j != i {
                        assert(ne@[j] == oe@[j]);
                    }
                }
                lemma_member_index_same_names(oe@, ne@, keys[0]);
                lemma_replaced_value(oe@[i].1, ne@[i].1, keys.drop_first(), leaf);
            },
            _ => {},
        }
    }
}

/// A replacement leaves the values at every path that parts ways with the
/// replaced one as they were.
pub proof fn lemma_replaced_other(
    old: JsonValue,
    new: JsonValue,
    keys: Seq<Seq<char>>,
    leaf: spec_fn(JsonValue) -> bool,
    other: Seq<Seq<char>>,
)
    requires
        replaced_at(old, new, keys, leaf),
        paths_diverge(keys, other),
    ensures
        value_at(new, other) == value_at(old, other),
    decreases keys.len(),
{
    match (old, new) {
        (JsonValue::Object(oe), JsonValue::Object(ne)) => {
            let i = member_index(oe@, keys[0])->0;
            assert forall|j: int| 0 <= j < oe@.len() implies (#[trigger] oe@[j]).0 == ne@[j].0 by {
                if j != i {
                    assert(ne@[j] == oe@[j]);
                }
            }
            lemma_member_index_same_names(oe@, ne@, other[0]);
            lemma_member_index_found(oe@, keys[0]);
            lemma_member_index_found(oe@, other[0]);
            if keys[0] != other[0] {
                if let Some(j) = member_index(oe@, other[0]) {
                    assert(j != i);
                    assert(ne@[j] == oe@[j]);
                }
            } else {
                lemma_replaced_other(oe@[i].1, ne@[i].1, keys.drop_first(), leaf, other.drop_first());
            }
        },
        _ => {},
    }
}


/// A replacement whose new value satisfies `a` also satisfies any `b` that
/// `a` implies.
pub proof fn lemma_replaced_implies(
    old: JsonValue,
    new: JsonValue,
    keys: Seq<Seq<char>>,
    a: spec_fn(JsonValue) -> bool,
    b: spec_fn(JsonValue) -> bool,
)
    requires
        replaced_at(old, new, keys, a),
        forall|x: JsonValue| #[trigger] a(x) ==> b(x),
    ensures
        replaced_at(old, new, keys, b),
    decreases keys.len(),
{
    if keys.len() > 0 {
        match (old, new) {
            (JsonValue::Object(oe), JsonValue::Object(ne)) => {
                let i = member_index(oe@, keys[0])->0;
                lemma_replaced_implies(oe@[i].1, ne@[i].1, keys.drop_first(), a, b);
            },
            _ => {},
        }
    }
}

} // verus!
