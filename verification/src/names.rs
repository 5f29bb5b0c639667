//! Tables and sets keyed by text: service names, environment variables.
//!
//! The tables are hash maps of `rustc_hash`. Their keys are compared as text, so a table is
//! described by a map from the text of its keys ([`entries`]), and a set by the set of its texts
//! ([`members`]). The functions that hand a call on to a table or a set state what the method does
//! to that map or set; everything else is built on them.

use rustc_hash::{FxBuildHasher, FxHashMap, FxHashSet};
use vstd::prelude::*;

verus! {

/// The hasher that the tables are built with. Nothing is stated of it.
#[verifier::external_type_specification]
#[verifier::external_body]
pub struct ExFxBuildHasher(FxBuildHasher);

/// Whether `key` is a key of `table` and reads as `name`.
pub open spec fn holds<V>(table: FxHashMap<String, V>, name: Seq<char>, key: String) -> bool {
    key@ == name && table@.contains_key(key)
}

/// What `table` holds, by the text of its keys.
pub open spec fn entries<V>(table: FxHashMap<String, V>) -> Map<Seq<char>, V> {
    table@.dom().map(|key: String| key@).mk_map(
        |name: Seq<char>| table@[choose|key: String| holds(table, name, key)],
    )
}

/// What `table` holds, with its values as text too.
pub open spec fn text_entries(table: FxHashMap<String, String>) -> Map<Seq<char>, Seq<char>> {
    entries(table).map_values(|value: String| value@)
}

/// The texts in `set`.
pub open spec fn members(set: FxHashSet<&str>) -> Set<Seq<char>> {
    set@.map(|text: &str| text@)
}

/// The texts of a list of strings.
pub open spec fn texts(list: Seq<String>) -> Seq<Seq<char>> {
    list.map_values(|text: String| text@)
}

/// Whether `list` holds every entry of `map` once, and nothing else.
pub open spec fn lists<V>(list: Seq<(String, V)>, map: Map<Seq<char>, V>) -> bool {
    &&& forall|i: int|
        0 <= i < list.len() ==> {
            &&& map.contains_key((#[trigger] list[i]).0@)
            &&& map[list[i].0@] == list[i].1
        }
    &&& forall|i: int, j: int|
        0 <= i < j < list.len() ==> (#[trigger] list[i]).0@ != (#[trigger] list[j]).0@
    &&& forall|name: Seq<char>| #[trigger]
        map.contains_key(name) ==> exists|i: int|
            0 <= i < list.len() && (#[trigger] list[i]).0@ == name
}

/// `FxHashMap::default()`: a table that holds nothing.
#[verifier::external_body]
pub(crate) fn new_table<V>() -> (table: FxHashMap<String, V>)
    ensures
        entries(table) == (Map::<Seq<char>, V>::empty()),
{
    FxHashMap::default()
}

/// `HashMap::insert`: puts `value` under `name` and returns the value that stood there before,
/// if any. Every other entry stays as it is.
#[verifier::external_body]
pub(crate) fn insert<V>(table: &mut FxHashMap<String, V>, name: String, value: V) -> (previous:
    Option<V>)
    ensures
        entries(*final(table)) == entries(*old(table)).insert(name@, value),
        previous == (if entries(*old(table)).contains_key(name@) {
            Some(entries(*old(table))[name@])
        } else {
            None
        }),
{
    table.insert(name, value)
}

/// `HashMap::get`: the value under `name`, if any.
#[verifier::external_body]
pub(crate) fn get<'a, V>(table: &'a FxHashMap<String, V>, name: &str) -> (found: Option<&'a V>)
    ensures
        match found {
            Some(value) => entries(*table).contains_key(name@) && *value == entries(*table)[name@],
            None => !entries(*table).contains_key(name@),
        },
{
    table.get(name)
}

/// `HashMap::remove`: takes out the entry under `name` and returns its value, if any. Every other
/// entry stays as it is.
#[verifier::external_body]
pub(crate) fn remove<V>(table: &mut FxHashMap<String, V>, name: &str) -> (removed: Option<V>)
    ensures
        entries(*final(table)) == entries(*old(table)).remove(name@),
        removed == (if entries(*old(table)).contains_key(name@) {
            Some(entries(*old(table))[name@])
        } else {
            None
        }),
{
    table.remove(name)
}

/// `HashMap::is_empty`: whether the table holds nothing.
#[verifier::external_body]
pub(crate) fn is_empty<V>(table: &FxHashMap<String, V>) -> (empty: bool)
    ensures
        empty == (entries(*table).dom() == Set::<Seq<char>>::empty()),
{
    table.is_empty()
}

/// `HashMap::keys`: every key of the table once. Their order is left open.
#[verifier::external_body]
pub(crate) fn keys<V>(table: &FxHashMap<String, V>) -> (names: Vec<String>)
    ensures
        texts(names@).no_duplicates(),
        texts(names@).to_set() == entries(*table).dom(),
{
    table.keys().cloned().collect()
}

/// `HashMap::eq`: whether two tables of text hold the same entries.
#[verifier::external_body]
pub(crate) fn same_entries(a: &FxHashMap<String, String>, b: &FxHashMap<String, String>) -> (same:
    bool)
    ensures
        same == (text_entries(*a) == text_entries(*b)),
{
    a == b
}

/// Takes a table apart. The order of the entries is left open.
pub fn drain<V>(table: FxHashMap<String, V>) -> (list: Vec<(String, V)>)
    ensures
        lists(list@, entries(table)),
{
    let ghost all = entries(table);
    let mut table = table;
    let mut names = keys(&table);
    let ghost order = texts(names@);
    let mut list: Vec<(String, V)> = Vec::new();
    proof {
        assert forall|name: Seq<char>| entries(table).contains_key(name) <==> exists|i: int|
            0 <= i < names.len() && #[trigger] names@[i]@ == name by {
            if entries(table).contains_key(name) {
                assert(order.to_set().contains(name));
                let i = choose|i: int| 0 <= i < order.len() && order[i] == name;
                assert(names@[i]@ == name);
            }
            if exists|i: int| 0 <= i < names.len() && #[trigger] names@[i]@ == name {
                let i = choose|i: int| 0 <= i < names.len() && #[trigger] names@[i]@ == name;
                assert(order[i] == name);
                assert(order.to_set().contains(name));
            }
        }
        assert forall|i: int, j: int| 0 <= i < j < names.len() implies #[trigger] names@[i]@
            != #[trigger] names@[j]@ by {
            assert(order[i] != order[j]);
        }
    }
    while names.len() > 0
        invariant
            forall|name: Seq<char>|
                entries(table).contains_key(name) <==> exists|i: int|
                    0 <= i < names.len() && #[trigger] names@[i]@ == name,
            forall|i: int, j: int|
                0 <= i < j < names.len() ==> #[trigger] names@[i]@ != #[trigger] names@[j]@,
            forall|name: Seq<char>|
                #[trigger] entries(table).contains_key(name) ==> all.contains_key(name)
                    && entries(table)[name] == all[name],
            forall|i: int|
                0 <= i < list.len() ==> {
                    &&& all.contains_key((#[trigger] list@[i]).0@)
                    &&& all[list@[i].0@] == list@[i].1
                    &&& !entries(table).contains_key(list@[i].0@)
                },
            forall|i: int, j: int|
                0 <= i < j < list.len() ==> (#[trigger] list@[i]).0@ != (
                #[trigger] list@[j]).0@,
            forall|name: Seq<char>| #[trigger]
                all.contains_key(name) ==> entries(table).contains_key(name) || exists|i: int|
                    0 <= i < list.len() && (#[trigger] list@[i]).0@ == name,
        decreases names.len(),
    {
        let ghost before = names@;
        let ghost table_before = entries(table);
        let ghost list_before = list@;
        if let Some(name) = names.pop() {
            proof {
                assert(before[before.len() - 1] == name);
                assert(table_before.contains_key(name@));
            }
            let ghost text = name@;
            if let Some(value) = remove(&mut table, name.as_str()) {
                list.push((name, value));
            }
            proof {
                assert(list@.last().0@ == text);
                assert forall|other: Seq<char>|
                    entries(table).contains_key(other) <==> exists|i: int|
                        0 <= i < names.len() && #[trigger] names@[i]@ == other by {
                    if entries(table).contains_key(other) {
                        assert(table_before.contains_key(other));
                        let i = choose|i: int| 0 <= i < before.len() && #[trigger] before[i]@
                            == other;
                        assert(i < before.len() - 1);
                        assert(names@[i]@ == other);
                    }
                    if exists|i: int| 0 <= i < names.len() && #[trigger] names@[i]@ == other {
                        let i = choose|i: int| 0 <= i < names.len() && #[trigger] names@[i]@
                            == other;
                        assert(before[i]@ == other);
                        assert(before[before.len() - 1]@ != before[i]@);
                    }
                }
                assert forall|other: Seq<char>| #[trigger]
                    all.contains_key(other) implies entries(table).contains_key(other)
                    || exists|i: int| 0 <= i < list.len() && (#[trigger] list@[i]).0@
                    == other by {
                    if other == text {
                        assert(list@[list.len() - 1].0@ == other);
                    } else if !table_before.contains_key(other) {
                        let i = choose|i: int|
                            0 <= i < list_before.len() && (#[trigger] list_before[i]).0@ == other;
                        assert(list@[i].0@ == other);
                    }
                }
            }
        }
    }
    list
}

/// The entries of a table of text. Their order is left open.
pub fn listed(table: &FxHashMap<String, String>) -> (list: Vec<(String, String)>)
    ensures
        lists(list@, entries(*table)),
{
    let names = keys(table);
    let ghost order = texts(names@);
    let mut list: Vec<(String, String)> = Vec::new();
    let mut i: usize = 0;
    while i < names.len()
        invariant
            i <= names.len(),
            order == texts(names@),
            order.no_duplicates(),
            order.to_set() == entries(*table).dom(),
            list.len() == i,
            forall|j: int|
                0 <= j < i ==> {
                    &&& (#[trigger] list@[j]).0@ == order[j]
                    &&& entries(*table).contains_key(order[j])
                    &&& entries(*table)[order[j]] == list@[j].1
                },
        decreases names.len() - i,
    {
        let name = &names[i];
        proof {
            assert(order[i as int] == name@);
            assert(order.to_set().contains(name@));
        }
        if let Some(value) = get(table, name.as_str()) {
            list.push((name.clone(), value.clone()));
        }
        i = i + 1;
    }
    proof {
        assert forall|name: Seq<char>| #[trigger] entries(*table).contains_key(name) implies exists|
            j: int,
        | 0 <= j < list.len() && (#[trigger] list@[j]).0@ == name by {
            assert(order.to_set().contains(name));
            let j = choose|j: int| 0 <= j < order.len() && order[j] == name;
            assert(list@[j].0@ == name);
        }
    }
    list
}

/// `FxHashSet::default()`: a set that holds nothing.
#[verifier::external_body]
pub(crate) fn new_set<'a>() -> (set: FxHashSet<&'a str>)
    ensures
        members(set) == Set::<Seq<char>>::empty(),
{
    FxHashSet::default()
}

/// `HashSet::insert`: adds `text` to the set and tells whether it was missing before.
#[verifier::external_body]
pub(crate) fn insert_text<'a>(set: &mut FxHashSet<&'a str>, text: &'a str) -> (added: bool)
    ensures
        members(*final(set)) == members(*old(set)).insert(text@),
        added == !members(*old(set)).contains(text@),
{
    set.insert(text)
}

/// Whether two lists hold the same texts in the same order.
pub fn same_list(a: &[String], b: &[String]) -> (same: bool)
    ensures
        same == (texts(a@) == texts(b@)),
{
    if a.len() != b.len() {
        assert(texts(a@).len() != texts(b@).len());
        return false;
    }
    let mut i: usize = 0;
    while i < a.len()
        invariant
            i <= a.len(),
            a.len() == b.len(),
            forall|j: int| 0 <= j < i ==> #[trigger] texts(a@)[j] == texts(b@)[j],
        decreases a.len() - i,
    {
        if a[i] != b[i] {
            assert(texts(a@)[i as int] != texts(b@)[i as int]);
            return false;
        }
        i = i + 1;
    }
    assert(texts(a@) =~= texts(b@));
    true
}

/// A copy of a list of texts.
pub fn copied_list(list: &[String]) -> (copy: Vec<String>)
    ensures
        texts(copy@) == texts(list@),
{
    let mut copy: Vec<String> = Vec::new();
    let mut i: usize = 0;
    while i < list.len()
        invariant
            i <= list.len(),
            copy@.len() == i,
            forall|j: int| 0 <= j < i ==> #[trigger] copy@[j] == list@[j],
        decreases list.len() - i,
    {
        copy.push(list[i].clone());
        i = i + 1;
    }
    assert(texts(copy@) =~= texts(list@));
    copy
}

} // verus!
