//! Overrides of the theme: the keys that differ from the theme file.
//!
//! The effective theme is the theme file with the overrides laid over it. When the theme file
//! changes a key, the override of that key is void: the last change counts. Both are TOML
//! tables, compared leaf by leaf, so that no key needs code of its own.

use crate::float::Float64;
use crate::split::{parts, split};
use crate::sync::event::{join, joined};
use crate::sync::settings::texts;
use vstd::prelude::*;
use vstd::string::*;

verus! {

/// A TOML value: what it holds, in plain numbers and texts.
pub enum Tree {
    Text(Seq<char>),
    Integer(i64),
    Float(Float64),
    Boolean(bool),
    /// The fields of a date and time, one after the other.
    Datetime(Seq<int>),
    List(Seq<Tree>),
    /// The entries of a table in the order of their keys.
    Table(Seq<(Seq<char>, Tree)>),
}

/// [`toml::Value`].
#[verifier::external_type_specification]
#[verifier::external_body]
pub struct ExValue(toml::Value);

/// [`toml::map::Map`], the table of TOML.
#[verifier::external_type_specification]
#[verifier::external_body]
#[verifier::reject_recursive_types(K)]
#[verifier::reject_recursive_types(V)]
pub struct ExMap<K, V>(toml::map::Map<K, V>);

/// What a TOML value holds.
pub uninterp spec fn value_tree(v: toml::Value) -> Tree;

/// What a TOML table holds: its entries in the order of their keys.
pub uninterp spec fn entries(t: toml::map::Map<String, toml::Value>) -> Seq<(Seq<char>, Tree)>;

/// How a value that is not a table is written in TOML, where it can be: a date and time with
/// fields that make no date cannot.
pub uninterp spec fn toml_text(t: Tree) -> Option<Seq<char>>;

/// Whether two values are equal to TOML: floating-point numbers as numbers, everything else
/// as it stands.
pub open spec fn same(a: Tree, b: Tree) -> bool
    decreases a,
{
    match (a, b) {
        (Tree::Text(x), Tree::Text(y)) => x == y,
        (Tree::Integer(x), Tree::Integer(y)) => x == y,
        (Tree::Float(x), Tree::Float(y)) => x.le(y) && y.le(x),
        (Tree::Boolean(x), Tree::Boolean(y)) => x == y,
        (Tree::Datetime(x), Tree::Datetime(y)) => x == y,
        (Tree::List(x), Tree::List(y)) => x.len() == y.len() && forall|i: int|
            0 <= i < x.len() ==> same(#[trigger] x[i], y[i]),
        (Tree::Table(x), Tree::Table(y)) => x.len() == y.len() && forall|i: int|
            0 <= i < x.len() ==> (#[trigger] x[i]).0 == y[i].0 && same(x[i].1, y[i].1),
        _ => false,
    }
}

/// Whether optional values are equal to TOML.
pub open spec fn same_or_none(a: Option<Tree>, b: Option<Tree>) -> bool {
    match (a, b) {
        (None, None) => true,
        (Some(x), Some(y)) => same(x, y),
        _ => false,
    }
}

/// The order of keys: by their characters, the shorter of two that agree first.
pub open spec fn before(a: Seq<char>, b: Seq<char>) -> bool
    decreases a.len(),
{
    if b.len() == 0 {
        false
    } else if a.len() == 0 {
        true
    } else if a[0] != b[0] {
        (a[0] as int) < (b[0] as int)
    } else {
        before(a.drop_first(), b.drop_first())
    }
}

/// The value of a key.
pub open spec fn find(e: Seq<(Seq<char>, Tree)>, k: Seq<char>) -> Option<Tree>
    decreases e.len(),
{
    if e.len() == 0 {
        None
    } else if e.last().0 == k {
        Some(e.last().1)
    } else {
        find(e.drop_last(), k)
    }
}

/// Entries with a key set to a value, in its place.
pub open spec fn put(e: Seq<(Seq<char>, Tree)>, k: Seq<char>, v: Tree) -> Seq<(Seq<char>, Tree)>
    decreases e.len(),
{
    if e.len() == 0 || before(e.last().0, k) {
        e.push((k, v))
    } else if e.last().0 == k {
        e.drop_last().push((k, v))
    } else {
        put(e.drop_last(), k, v).push(e.last())
    }
}

/// Keys in order, none of them twice.
pub open spec fn in_order(e: Seq<(Seq<char>, Tree)>) -> bool {
    forall|i: int, j: int|
        0 <= i < j < e.len() ==> before((#[trigger] e[i]).0, (#[trigger] e[j]).0)
}

/// Keys in order in a table and in every table inside it, as in every TOML table.
pub open spec fn well_keyed(e: Seq<(Seq<char>, Tree)>) -> bool
    decreases e,
{
    &&& in_order(e)
    &&& forall|i: int|
        #![trigger e[i]]
        0 <= i < e.len() ==> match e[i].1 {
            Tree::Table(t) => well_keyed(t),
            _ => true,
        }
}

/// Keys in order in a value, where it is a table.
pub open spec fn keyed(t: Tree) -> bool {
    t matches Tree::Table(e) ==> well_keyed(e)
}

/// The keys of entries.
pub open spec fn keys_of(e: Seq<(Seq<char>, Tree)>) -> Seq<Seq<char>> {
    e.map_values(|x: (Seq<char>, Tree)| x.0)
}

/// An empty table, from `toml::Table::new`.
#[verifier::external_body]
fn new_table() -> (t: toml::Table)
    ensures
        entries(t) == Seq::<(Seq<char>, Tree)>::empty(),
{
    toml::Table::new()
}

/// `Map::is_empty`: whether the table has no entry.
#[verifier::external_body]
fn table_is_empty(t: &toml::Table) -> (b: bool)
    ensures
        b == (entries(*t).len() == 0),
{
    t.is_empty()
}

/// `Map::get`: the value of a key, where there is one. Whatever tables are inside it are
/// `BTreeMap`s too, with their keys in order.
#[verifier::external_body]
fn table_get<'a>(t: &'a toml::Table, k: &str) -> (v: Option<&'a toml::Value>)
    ensures
        v is Some <==> find(entries(*t), k@) is Some,
        v is Some ==> find(entries(*t), k@) == Some(value_tree(*v->0)),
        v is Some ==> keyed(value_tree(*v->0)),
{
    t.get(k)
}

/// `Map::keys`: all keys. The map is a `BTreeMap` of strings, which are ordered by their
/// characters, so the keys come in that order and none comes twice.
#[verifier::external_body]
fn table_keys(t: &toml::Table) -> (v: Vec<String>)
    ensures
        texts(v@) == keys_of(entries(*t)),
        forall|i: int, j: int|
            0 <= i < j < v@.len() ==> before((#[trigger] v@[i])@, (#[trigger] v@[j])@),
{
    t.keys().cloned().collect()
}

/// `Map::insert`: sets a key to a value, whether it was there or not.
#[verifier::external_body]
fn table_insert(t: &mut toml::Table, k: String, v: toml::Value)
    ensures
        entries(*final(t)) == put(entries(*old(t)), k@, value_tree(v)),
{
    t.insert(k, v);
}

/// `Map::clone`: a table with the same entries. It and the tables inside it are `BTreeMap`s,
/// with their keys in order.
#[verifier::external_body]
fn table_clone(t: &toml::Table) -> (c: toml::Table)
    ensures
        entries(c) == entries(*t),
        well_keyed(entries(c)),
{
    t.clone()
}

/// `Value::clone`: a value that holds the same.
#[verifier::external_body]
fn value_clone(v: &toml::Value) -> (c: toml::Value)
    ensures
        value_tree(c) == value_tree(*v),
{
    v.clone()
}

/// `Value::as_table`: the table that a value is, where it is one.
#[verifier::external_body]
fn value_as_table(v: &toml::Value) -> (t: Option<&toml::Table>)
    ensures
        t is Some <==> value_tree(*v) is Table,
        t is Some ==> value_tree(*v) == Tree::Table(entries(*t->0)),
{
    v.as_table()
}

/// `Value::Table`: a table as a value.
#[verifier::external_body]
fn value_of_table(t: toml::Table) -> (v: toml::Value)
    ensures
        value_tree(v) == Tree::Table(entries(t)),
{
    toml::Value::Table(t)
}

/// `==` of `toml::Value`: kind by kind and part by part, floating-point numbers as numbers.
#[verifier::external_body]
fn value_eq(a: &toml::Value, b: &toml::Value) -> (r: bool)
    ensures
        r == same(value_tree(*a), value_tree(*b)),
{
    a == b
}

/// Writes a value with `toml::ser::ValueSerializer`, as its `Display` does. The text depends
/// on what the value holds alone; how it reads is not spelled out.
#[verifier::external_body]
fn value_text(v: &toml::Value) -> (s: Option<String>)
    ensures
        s is Some <==> toml_text(value_tree(*v)) is Some,
        s is Some ==> Some(s->0@) == toml_text(value_tree(*v)),
{
    let mut out = String::new();
    serde::Serialize::serialize(v, toml::ser::ValueSerializer::new(&mut out))
        .ok()
        .map(|written| written.clone())
}

/// The keys of a table are those that were listed, in order.
proof fn lemma_listed(t: toml::Table, v: Seq<String>)
    requires
        texts(v) == keys_of(entries(t)),
        forall|i: int, j: int|
            0 <= i < j < v.len() ==> before((#[trigger] v[i])@, (#[trigger] v[j])@),
    ensures
        v.len() == entries(t).len(),
        forall|i: int| 0 <= i < v.len() ==> (#[trigger] v[i])@ == entries(t)[i].0,
        in_order(entries(t)),
{
    let e = entries(t);
    assert(texts(v).len() == keys_of(e).len());
    assert forall|i: int| 0 <= i < v.len() implies (#[trigger] v[i])@ == e[i].0 by {
        assert(texts(v)[i] == keys_of(e)[i]);
    }
    assert forall|i: int, j: int| 0 <= i < j < e.len() implies before(
        (#[trigger] e[i]).0,
        (#[trigger] e[j]).0,
    ) by {
        assert(v[i]@ == e[i].0 && v[j]@ == e[j].0);
    }
}

/// A key comes before another only where the two differ and the other does not come first.
pub proof fn lemma_before_is_strict(a: Seq<char>, b: Seq<char>)
    requires
        before(a, b),
    ensures
        a != b,
        !before(b, a),
    decreases a.len(),
{
    if a.len() > 0 && a[0] == b[0] {
        lemma_before_is_strict(a.drop_first(), b.drop_first());
    }
}

/// In order, each entry is found by its key.
pub proof fn lemma_find_each(e: Seq<(Seq<char>, Tree)>, i: int)
    requires
        in_order(e),
        0 <= i < e.len(),
    ensures
        find(e, e[i].0) == Some(e[i].1),
    decreases e.len(),
{
    if i < e.len() - 1 {
        lemma_before_is_strict(e[i].0, e.last().0);
        let front = e.drop_last();
        assert(front[i] == e[i]);
        assert forall|a: int, b: int| 0 <= a < b < front.len() implies before(
            (#[trigger] front[a]).0,
            (#[trigger] front[b]).0,
        ) by {
            assert(front[a] == e[a] && front[b] == e[b]);
        }
        lemma_find_each(front, i);
    }
}

/// A key that comes after all others is put at the end.
proof fn lemma_put_last(e: Seq<(Seq<char>, Tree)>, k: Seq<char>, v: Tree)
    requires
        forall|i: int| 0 <= i < e.len() ==> before((#[trigger] e[i]).0, k),
    ensures
        put(e, k, v) == e.push((k, v)),
{
    if e.len() > 0 {
        assert(before(e[e.len() - 1].0, k));
    }
}

/// The order of keys goes from one to the next.
pub proof fn lemma_before_goes_on(a: Seq<char>, b: Seq<char>, c: Seq<char>)
    requires
        before(a, b),
        before(b, c),
    ensures
        before(a, c),
    decreases a.len(),
{
    if a.len() > 0 && a[0] == b[0] && b[0] == c[0] {
        lemma_before_goes_on(a.drop_first(), b.drop_first(), c.drop_first());
    }
}

/// Of two keys that differ one comes before the other.
pub proof fn lemma_before_decides(a: Seq<char>, b: Seq<char>)
    ensures
        a == b || before(a, b) || before(b, a),
    decreases a.len(),
{
    if a.len() == 0 {
        if b.len() == 0 {
            assert(a =~= b);
        }
    } else if b.len() > 0 && a[0] == b[0] {
        lemma_before_decides(a.drop_first(), b.drop_first());
        if a.drop_first() == b.drop_first() {
            assert(a.drop_first().len() == b.drop_first().len());
            assert forall|i: int| 0 <= i < a.len() implies a[i] == b[i] by {
                if i > 0 {
                    assert(a[i] == a.drop_first()[i - 1]);
                    assert(b[i] == b.drop_first()[i - 1]);
                }
            }
            assert(a =~= b);
        }
    }
}

/// Setting a key leaves a key after all others after all others.
proof fn lemma_put_before(e: Seq<(Seq<char>, Tree)>, k: Seq<char>, v: Tree, x: Seq<char>)
    requires
        forall|i: int| 0 <= i < e.len() ==> before((#[trigger] e[i]).0, x),
        before(k, x),
    ensures
        forall|j: int| 0 <= j < put(e, k, v).len() ==> before((#[trigger] put(e, k, v)[j]).0, x),
    decreases e.len(),
{
    if e.len() > 0 {
        assert(before(e[e.len() - 1].0, x));
        let front = e.drop_last();
        assert forall|i: int| 0 <= i < front.len() implies before((#[trigger] front[i]).0, x) by {
            assert(front[i] == e[i]);
        }
        lemma_put_before(front, k, v, x);
        let p = put(e, k, v);
        assert forall|j: int| 0 <= j < p.len() implies before((#[trigger] p[j]).0, x) by {
            if before(e.last().0, k) {
                if j < e.len() {
                    assert(p[j] == e[j]);
                }
            } else if e.last().0 == k {
                if j < front.len() {
                    assert(p[j] == front[j]);
                }
            } else if j < put(front, k, v).len() {
                assert(p[j] == put(front, k, v)[j]);
            }
        }
    }
}

/// Setting a key keeps the keys in order.
proof fn lemma_put_well_keyed(e: Seq<(Seq<char>, Tree)>, k: Seq<char>, v: Tree)
    requires
        well_keyed(e),
        keyed(v),
    ensures
        well_keyed(put(e, k, v)),
    decreases e.len(),
{
    let p = put(e, k, v);
    if e.len() > 0 {
        let last = e[e.len() - 1];
        let front = e.drop_last();
        lemma_front_well_keyed(e);
        if before(last.0, k) {
            assert forall|i: int| 0 <= i < e.len() implies before((#[trigger] e[i]).0, k) by {
                if i < e.len() - 1 {
                    assert(before(e[i].0, last.0));
                    lemma_before_goes_on(e[i].0, last.0, k);
                }
            }
            lemma_push_well_keyed(e, k, v);
        } else {
            assert forall|i: int| 0 <= i < front.len() implies before(
                (#[trigger] front[i]).0,
                last.0,
            ) by {
                assert(front[i] == e[i]);
            }
            if last.0 == k {
                lemma_push_well_keyed(front, k, v);
            } else {
                lemma_before_decides(last.0, k);
                lemma_put_well_keyed(front, k, v);
                lemma_put_before(front, k, v, last.0);
                lemma_push_well_keyed(put(front, k, v), last.0, last.1);
                assert(p =~= put(front, k, v).push((last.0, last.1)));
            }
        }
    } else {
        lemma_push_well_keyed(e, k, v);
    }
}

/// A key after all others can stand at the end.
proof fn lemma_push_well_keyed(e: Seq<(Seq<char>, Tree)>, k: Seq<char>, v: Tree)
    requires
        well_keyed(e),
        keyed(v),
        forall|i: int| 0 <= i < e.len() ==> before((#[trigger] e[i]).0, k),
    ensures
        well_keyed(e.push((k, v))),
{
    let p = e.push((k, v));
    assert forall|i: int, j: int| 0 <= i < j < p.len() implies before(
        (#[trigger] p[i]).0,
        (#[trigger] p[j]).0,
    ) by {
        assert(p[i] == e[i]);
        if j < e.len() {
            assert(p[j] == e[j]);
        }
    }
    assert forall|i: int| #![trigger p[i]] 0 <= i < p.len() implies match p[i].1 {
        Tree::Table(t) => well_keyed(t),
        _ => true,
    } by {
        if i < e.len() {
            assert(p[i] == e[i]);
        }
    }
}

/// A front of entries with keys in order has its keys in order, and so has the last value.
proof fn lemma_front_well_keyed(e: Seq<(Seq<char>, Tree)>)
    requires
        well_keyed(e),
        e.len() > 0,
    ensures
        well_keyed(e.drop_last()),
        keyed(e.last().1),
{
    let front = e.drop_last();
    assert(e[e.len() - 1] == e.last());
    assert forall|i: int| 0 <= i < front.len() implies #[trigger] front[i] == e[i] by {}
}

/// Entries with others laid over them, table by table.
pub open spec fn merged(
    b: Seq<(Seq<char>, Tree)>,
    o: Seq<(Seq<char>, Tree)>,
) -> Seq<(Seq<char>, Tree)>
    decreases o,
{
    if o.len() == 0 {
        b
    } else {
        let (k, v) = o[o.len() - 1];
        let front = merged(b, o.drop_last());
        match (find(b, k), v) {
            (Some(Tree::Table(bt)), Tree::Table(ot)) => put(front, k, Tree::Table(merged(bt, ot))),
            _ => put(front, k, v),
        }
    }
}

/// Laying tables over each other keeps the keys in order.
proof fn lemma_merged_well_keyed(b: Seq<(Seq<char>, Tree)>, o: Seq<(Seq<char>, Tree)>)
    requires
        well_keyed(b),
        well_keyed(o),
    ensures
        well_keyed(merged(b, o)),
    decreases o,
{
    if o.len() > 0 {
        let (k, v) = o[o.len() - 1];
        lemma_front_well_keyed(o);
        lemma_merged_well_keyed(b, o.drop_last());
        let front = merged(b, o.drop_last());
        match (find(b, k), v) {
            (Some(Tree::Table(bt)), Tree::Table(ot)) => {
                lemma_well_keyed_inside(b, k);
                assert(decreases_to!(o => o[o.len() - 1]));
                assert(decreases_to!(o[o.len() - 1] => o[o.len() - 1].1));
                assert(decreases_to!(o[o.len() - 1].1 => o[o.len() - 1].1->Table_0));
                lemma_merged_well_keyed(bt, ot);
                lemma_put_well_keyed(front, k, Tree::Table(merged(bt, ot)));
            },
            _ => {
                lemma_put_well_keyed(front, k, v);
            },
        }
    }
}

/// The entries that differ from a base: tables are compared inside, and left out where
/// nothing in them differs.
pub open spec fn differing(
    b: Seq<(Seq<char>, Tree)>,
    e: Seq<(Seq<char>, Tree)>,
) -> Seq<(Seq<char>, Tree)>
    decreases e,
{
    if e.len() == 0 {
        Seq::empty()
    } else {
        let (k, v) = e[e.len() - 1];
        let front = differing(b, e.drop_last());
        match (find(b, k), v) {
            (Some(Tree::Table(bt)), Tree::Table(et)) => {
                let d = differing(bt, et);
                if d.len() == 0 {
                    front
                } else {
                    front.push((k, Tree::Table(d)))
                }
            },
            (Some(bv), _) => if same(bv, v) {
                front
            } else {
                front.push((k, v))
            },
            (None, _) => front.push((k, v)),
        }
    }
}

/// The path of a key under a prefix.
pub open spec fn path_of(prefix: Seq<char>, k: Seq<char>) -> Seq<char> {
    if prefix.len() == 0 {
        k
    } else {
        prefix + "."@ + k
    }
}

/// Overrides once the base went from `was` to `is`: those of keys that changed are gone, and
/// so are tables left empty by that.
pub open spec fn pruned(
    o: Seq<(Seq<char>, Tree)>,
    was: Seq<(Seq<char>, Tree)>,
    is: Seq<(Seq<char>, Tree)>,
) -> Seq<(Seq<char>, Tree)>
    decreases o,
{
    if o.len() == 0 {
        Seq::empty()
    } else {
        let (k, v) = o[o.len() - 1];
        let front = pruned(o.drop_last(), was, is);
        match (v, find(was, k), find(is, k)) {
            (Tree::Table(ot), Some(Tree::Table(wt)), Some(Tree::Table(it))) => {
                let sub = pruned(ot, wt, it);
                if sub.len() == 0 {
                    front
                } else {
                    front.push((k, Tree::Table(sub)))
                }
            },
            _ => if same_or_none(find(was, k), find(is, k)) {
                front.push((k, v))
            } else {
                front
            },
        }
    }
}

/// The paths of the overrides that pruning removes, in order.
pub open spec fn voided(
    o: Seq<(Seq<char>, Tree)>,
    was: Seq<(Seq<char>, Tree)>,
    is: Seq<(Seq<char>, Tree)>,
    prefix: Seq<char>,
) -> Seq<Seq<char>>
    decreases o,
{
    if o.len() == 0 {
        Seq::empty()
    } else {
        let (k, v) = o[o.len() - 1];
        let front = voided(o.drop_last(), was, is, prefix);
        match (v, find(was, k), find(is, k)) {
            (Tree::Table(ot), Some(Tree::Table(wt)), Some(Tree::Table(it))) => front + voided(
                ot,
                wt,
                it,
                path_of(prefix, k),
            ),
            _ => if same_or_none(find(was, k), find(is, k)) {
                front
            } else {
                front.push(path_of(prefix, k))
            },
        }
    }
}

/// Lays `over` over `base`: tables in both are merged, everything else in `over` replaces
/// what `base` has, lists too.
pub fn merge(base: &toml::Table, over: &toml::Table) -> (out: toml::Table)
    ensures
        entries(out) == merged(entries(*base), entries(*over)),
        well_keyed(entries(*base)),
        well_keyed(entries(*over)),
        well_keyed(entries(out)),
    decreases entries(*over),
{
    let ghost b = entries(*base);
    let ghost o = entries(*over);
    let mut out: toml::Table = table_clone(base);
    let keys: Vec<String> = table_keys(over);
    proof {
        lemma_listed(*over, keys@);
    }
    let mut i: usize = 0;
    while i < keys.len()
        invariant
            b == entries(*base),
            o == entries(*over),
            i <= keys@.len() == o.len(),
            forall|j: int| 0 <= j < keys@.len() ==> (#[trigger] keys@[j])@ == o[j].0,
            in_order(o),
            forall|j: int| 0 <= j < i ==> keyed((#[trigger] o[j]).1),
            entries(out) == merged(b, o.subrange(0, i as int)),
        decreases keys@.len() - i,
    {
        let k: &String = &keys[i];
        proof {
            lemma_find_each(o, i as int);
            assert(o.subrange(0, i + 1).drop_last() =~= o.subrange(0, i as int));
        }
        match table_get(over, k.as_str()) {
            None => {},
            Some(v) => {
                let below: Option<&toml::Table> = match table_get(base, k.as_str()) {
                    Some(bv) => value_as_table(bv),
                    None => None,
                };
                let x: toml::Value = match (below, value_as_table(v)) {
                    (Some(bt), Some(ot)) => {
                        proof {
                            assert(decreases_to!(o => o[i as int]));
                            assert(decreases_to!(o[i as int] => o[i as int].1));
                            assert(o[i as int].1 == Tree::Table(entries(*ot)));
                            assert(decreases_to!(o[i as int].1 => o[i as int].1->Table_0));
                        }
                        value_of_table(merge(bt, ot))
                    },
                    _ => value_clone(v),
                };
                table_insert(&mut out, k.clone(), x);
            },
        }
        i = i + 1;
    }
    proof {
        assert(o.subrange(0, i as int) =~= o);
        lemma_merged_well_keyed(b, o);
    }
    out
}

/// The table of the effective theme, where it is not the base itself: with no overrides there
/// is nothing to lay over it.
pub fn effective(base: &toml::Table, overrides: &toml::Table) -> (out: Option<toml::Table>)
    ensures
        out is None <==> entries(*overrides).len() == 0,
        out is Some ==> entries(out->0) == merged(entries(*base), entries(*overrides)),
        out is Some ==> well_keyed(entries(*base)) && well_keyed(entries(out->0)),
        well_keyed(entries(*overrides)),
{
    if table_is_empty(overrides) {
        None
    } else {
        Some(merge(base, overrides))
    }
}

/// The keys of what differs are keys of what was compared.
proof fn lemma_differing_keys(b: Seq<(Seq<char>, Tree)>, e: Seq<(Seq<char>, Tree)>)
    ensures
        forall|j: int|
            0 <= j < differing(b, e).len() ==> exists|i: int|
                0 <= i < e.len() && (#[trigger] e[i]).0 == (#[trigger] differing(b, e)[j]).0,
    decreases e.len(),
{
    if e.len() > 0 {
        let front = e.drop_last();
        lemma_differing_keys(b, front);
        let d = differing(b, e);
        let df = differing(b, front);
        assert forall|j: int| 0 <= j < d.len() implies exists|i: int|
            0 <= i < e.len() && (#[trigger] e[i]).0 == (#[trigger] d[j]).0 by {
            if j < df.len() {
                assert(d[j] == df[j]);
                let i = choose|i: int| 0 <= i < front.len() && (#[trigger] front[i]).0 == df[j].0;
                assert(e[i] == front[i]);
            } else {
                assert(e[e.len() - 1].0 == d[j].0);
            }
        }
    }
}

/// The keys of what differs come before a key that comes after all that was compared.
proof fn lemma_differing_before(
    b: Seq<(Seq<char>, Tree)>,
    e: Seq<(Seq<char>, Tree)>,
    k: Seq<char>,
)
    requires
        forall|i: int| 0 <= i < e.len() ==> before((#[trigger] e[i]).0, k),
    ensures
        forall|j: int| 0 <= j < differing(b, e).len() ==> before((#[trigger] differing(b, e)[j]).0, k),
{
    lemma_differing_keys(b, e);
    assert forall|j: int| 0 <= j < differing(b, e).len() implies before(
        (#[trigger] differing(b, e)[j]).0,
        k,
    ) by {
        let i = choose|i: int|
            0 <= i < e.len() && (#[trigger] e[i]).0 == differing(b, e)[j].0;
    }
}

/// The differences of a table with keys in order have theirs in order.
proof fn lemma_differing_well_keyed(b: Seq<(Seq<char>, Tree)>, e: Seq<(Seq<char>, Tree)>)
    requires
        well_keyed(e),
    ensures
        well_keyed(differing(b, e)),
    decreases e,
{
    if e.len() > 0 {
        let (k, v) = e[e.len() - 1];
        let front = e.drop_last();
        lemma_front_well_keyed(e);
        lemma_differing_well_keyed(b, front);
        assert forall|i: int| 0 <= i < front.len() implies before((#[trigger] front[i]).0, k) by {
            assert(front[i] == e[i]);
        }
        lemma_differing_before(b, front, k);
        match (find(b, k), v) {
            (Some(Tree::Table(bt)), Tree::Table(et)) => {
                assert(decreases_to!(e => e[e.len() - 1]));
                assert(decreases_to!(e[e.len() - 1] => e[e.len() - 1].1));
                assert(decreases_to!(e[e.len() - 1].1 => e[e.len() - 1].1->Table_0));
                lemma_differing_well_keyed(bt, et);
                lemma_push_well_keyed(differing(b, front), k, Tree::Table(differing(bt, et)));
            },
            _ => {
                lemma_push_well_keyed(differing(b, front), k, v);
            },
        }
    }
}

/// What of `effective` differs from `base`: tables compared inside, lists as wholes. A table
/// without a difference does not appear.
pub fn diff(base: &toml::Table, effective: &toml::Table) -> (out: toml::Table)
    ensures
        entries(out) == differing(entries(*base), entries(*effective)),
        well_keyed(entries(*effective)),
        well_keyed(entries(out)),
    decreases entries(*effective),
{
    let ghost b = entries(*base);
    let ghost e = entries(*effective);
    let mut out: toml::Table = new_table();
    let keys: Vec<String> = table_keys(effective);
    proof {
        lemma_listed(*effective, keys@);
    }
    let mut i: usize = 0;
    while i < keys.len()
        invariant
            b == entries(*base),
            e == entries(*effective),
            i <= keys@.len() == e.len(),
            forall|j: int| 0 <= j < keys@.len() ==> (#[trigger] keys@[j])@ == e[j].0,
            in_order(e),
            forall|j: int| 0 <= j < i ==> keyed((#[trigger] e[j]).1),
            entries(out) == differing(b, e.subrange(0, i as int)),
        decreases keys@.len() - i,
    {
        let k: &String = &keys[i];
        proof {
            lemma_find_each(e, i as int);
            let front = e.subrange(0, i as int);
            assert(e.subrange(0, i + 1).drop_last() =~= front);
            assert forall|j: int| 0 <= j < front.len() implies before(
                (#[trigger] front[j]).0,
                k@,
            ) by {
                assert(front[j] == e[j]);
                assert(before(e[j].0, e[i as int].0));
            }
            lemma_differing_before(b, front, k@);
        }
        match table_get(effective, k.as_str()) {
            None => {},
            Some(v) => {
                let base_value: Option<&toml::Value> = table_get(base, k.as_str());
                let below: Option<&toml::Table> = match base_value {
                    Some(bv) => value_as_table(bv),
                    None => None,
                };
                match (below, value_as_table(v)) {
                    (Some(bt), Some(et)) => {
                        proof {
                            assert(decreases_to!(e => e[i as int]));
                            assert(decreases_to!(e[i as int] => e[i as int].1));
                            assert(e[i as int].1 == Tree::Table(entries(*et)));
                            assert(decreases_to!(e[i as int].1 => e[i as int].1->Table_0));
                        }
                        let d: toml::Table = diff(bt, et);
                        if !table_is_empty(&d) {
                            let x: toml::Value = value_of_table(d);
                            proof {
                                lemma_put_last(entries(out), k@, value_tree(x));
                            }
                            table_insert(&mut out, k.clone(), x);
                        }
                    },
                    _ => {
                        let unchanged: bool = match base_value {
                            Some(bv) => value_eq(bv, v),
                            None => false,
                        };
                        if !unchanged {
                            proof {
                                lemma_put_last(entries(out), k@, value_tree(*v));
                            }
                            table_insert(&mut out, k.clone(), value_clone(v));
                        }
                    },
                }
            },
        }
        i = i + 1;
    }
    proof {
        assert(e.subrange(0, i as int) =~= e);
        lemma_differing_well_keyed(b, e);
    }
    out
}

/// A change of the theme as it is remembered.
pub struct Committed {
    /// The table of the theme that should now be in force.
    pub wanted: toml::Table,
    /// The overrides that bring it about.
    pub overrides: toml::Table,
}

/// Remembers a change from the theme `now` in force to a `new` one: what changed is laid over
/// the base with its overrides, so that changes still waiting to be applied are kept, and what
/// then differs from the base are the overrides.
pub fn commit(
    base: &toml::Table,
    overrides: &toml::Table,
    now: &toml::Table,
    new: &toml::Table,
) -> (c: Committed)
    ensures
        entries(c.wanted) == merged(
            merged(entries(*base), entries(*overrides)),
            differing(entries(*now), entries(*new)),
        ),
        entries(c.overrides) == differing(entries(*base), entries(c.wanted)),
        well_keyed(entries(*base)),
        well_keyed(entries(c.wanted)),
        well_keyed(entries(c.overrides)),
{
    let delta: toml::Table = diff(now, new);
    let wanted: toml::Table = merge(&merge(base, overrides), &delta);
    let kept: toml::Table = diff(base, &wanted);
    Committed { wanted, overrides: kept }
}

/// The path of a key under a prefix.
fn path_under(prefix: &str, k: &str) -> (p: String)
    ensures
        p@ == path_of(prefix@, k@),
{
    if prefix.is_empty() {
        k.to_owned()
    } else {
        let mut p: String = prefix.to_owned();
        p.append(".");
        p.append(k);
        p
    }
}

/// The keys that pruning leaves are keys that were there.
proof fn lemma_pruned_keys(
    o: Seq<(Seq<char>, Tree)>,
    was: Seq<(Seq<char>, Tree)>,
    is: Seq<(Seq<char>, Tree)>,
    k: Seq<char>,
)
    requires
        forall|i: int| 0 <= i < o.len() ==> before((#[trigger] o[i]).0, k),
    ensures
        forall|j: int|
            0 <= j < pruned(o, was, is).len() ==> before((#[trigger] pruned(o, was, is)[j]).0, k),
    decreases o.len(),
{
    if o.len() > 0 {
        let front = o.drop_last();
        assert forall|i: int| 0 <= i < front.len() implies before((#[trigger] front[i]).0, k) by {
            assert(front[i] == o[i]);
        }
        lemma_pruned_keys(front, was, is, k);
        assert(before(o[o.len() - 1].0, k));
        let p = pruned(o, was, is);
        let pf = pruned(front, was, is);
        assert forall|j: int| 0 <= j < p.len() implies before((#[trigger] p[j]).0, k) by {
            if j < pf.len() {
                assert(p[j] == pf[j]);
            }
        }
    }
}

/// What pruning leaves of a table with keys in order has its keys in order.
proof fn lemma_pruned_well_keyed(
    o: Seq<(Seq<char>, Tree)>,
    was: Seq<(Seq<char>, Tree)>,
    is: Seq<(Seq<char>, Tree)>,
)
    requires
        well_keyed(o),
    ensures
        well_keyed(pruned(o, was, is)),
    decreases o,
{
    if o.len() > 0 {
        let (k, v) = o[o.len() - 1];
        let front = o.drop_last();
        lemma_front_well_keyed(o);
        lemma_pruned_well_keyed(front, was, is);
        assert forall|i: int| 0 <= i < front.len() implies before((#[trigger] front[i]).0, k) by {
            assert(front[i] == o[i]);
        }
        lemma_pruned_keys(front, was, is, k);
        match (v, find(was, k), find(is, k)) {
            (Tree::Table(ot), Some(Tree::Table(wt)), Some(Tree::Table(it))) => {
                assert(decreases_to!(o => o[o.len() - 1]));
                assert(decreases_to!(o[o.len() - 1] => o[o.len() - 1].1));
                assert(decreases_to!(o[o.len() - 1].1 => o[o.len() - 1].1->Table_0));
                lemma_pruned_well_keyed(ot, wt, it);
                lemma_push_well_keyed(pruned(front, was, is), k, Tree::Table(pruned(ot, wt, it)));
            },
            _ => {
                lemma_push_well_keyed(pruned(front, was, is), k, v);
            },
        }
    }
}

/// Whether two optional values are equal to TOML.
fn optional_eq(a: Option<&toml::Value>, b: Option<&toml::Value>) -> (r: bool)
    ensures
        r == same_or_none(
            match a {
                Some(v) => Some(value_tree(*v)),
                None => None,
            },
            match b {
                Some(v) => Some(value_tree(*v)),
                None => None,
            },
        ),
{
    match (a, b) {
        (None, None) => true,
        (Some(x), Some(y)) => value_eq(x, y),
        _ => false,
    }
}

fn prune_into(
    over: &toml::Table,
    old_base: &toml::Table,
    new_base: &toml::Table,
    prefix: &str,
    removed: &mut Vec<String>,
) -> (out: toml::Table)
    ensures
        entries(out) == pruned(entries(*over), entries(*old_base), entries(*new_base)),
        well_keyed(entries(*over)),
        well_keyed(entries(out)),
        texts(final(removed)@) == texts(old(removed)@) + voided(
            entries(*over),
            entries(*old_base),
            entries(*new_base),
            prefix@,
        ),
    decreases entries(*over),
{
    let ghost o = entries(*over);
    let ghost was = entries(*old_base);
    let ghost is = entries(*new_base);
    let ghost before_removed = texts(removed@);
    let mut out: toml::Table = new_table();
    let keys: Vec<String> = table_keys(over);
    proof {
        lemma_listed(*over, keys@);
        assert(before_removed + Seq::<Seq<char>>::empty() =~= before_removed);
    }
    let mut i: usize = 0;
    while i < keys.len()
        invariant
            o == entries(*over),
            was == entries(*old_base),
            is == entries(*new_base),
            i <= keys@.len() == o.len(),
            forall|j: int| 0 <= j < keys@.len() ==> (#[trigger] keys@[j])@ == o[j].0,
            in_order(o),
            forall|j: int| 0 <= j < i ==> keyed((#[trigger] o[j]).1),
            entries(out) == pruned(o.subrange(0, i as int), was, is),
            texts(removed@) == before_removed + voided(
                o.subrange(0, i as int),
                was,
                is,
                prefix@,
            ),
        decreases keys@.len() - i,
    {
        let k: &String = &keys[i];
        let ghost front = o.subrange(0, i as int);
        proof {
            lemma_find_each(o, i as int);
            assert(o.subrange(0, i + 1).drop_last() =~= front);
            assert forall|j: int| 0 <= j < front.len() implies before(
                (#[trigger] front[j]).0,
                k@,
            ) by {
                assert(front[j] == o[j]);
                assert(before(o[j].0, o[i as int].0));
            }
            lemma_pruned_keys(front, was, is, k@);
        }
        let path: String = path_under(prefix, k.as_str());
        let old_value: Option<&toml::Value> = table_get(old_base, k.as_str());
        let new_value: Option<&toml::Value> = table_get(new_base, k.as_str());
        let old_table: Option<&toml::Table> = match old_value {
            Some(v) => value_as_table(v),
            None => None,
        };
        let new_table_value: Option<&toml::Table> = match new_value {
            Some(v) => value_as_table(v),
            None => None,
        };
        match table_get(over, k.as_str()) {
            None => {},
            Some(v) => match (value_as_table(v), old_table, new_table_value) {
                (Some(sub), Some(ot), Some(nt)) => {
                    proof {
                        assert(decreases_to!(o => o[i as int]));
                        assert(decreases_to!(o[i as int] => o[i as int].1));
                        assert(o[i as int].1 == Tree::Table(entries(*sub)));
                        assert(decreases_to!(o[i as int].1 => o[i as int].1->Table_0));
                    }
                    let left: toml::Table = prune_into(sub, ot, nt, path.as_str(), removed);
                    proof {
                        assert(texts(removed@) =~= before_removed + voided(
                            o.subrange(0, i + 1),
                            was,
                            is,
                            prefix@,
                        ));
                    }
                    if !table_is_empty(&left) {
                        let x: toml::Value = value_of_table(left);
                        proof {
                            lemma_put_last(entries(out), k@, value_tree(x));
                        }
                        table_insert(&mut out, k.clone(), x);
                    }
                },
                _ => {
                    if optional_eq(old_value, new_value) {
                        proof {
                            lemma_put_last(entries(out), k@, value_tree(*v));
                        }
                        table_insert(&mut out, k.clone(), value_clone(v));
                    } else {
                        let ghost texts_before = texts(removed@);
                        removed.push(path);
                        proof {
                            assert(texts(removed@) =~= texts_before.push(path@));
                            assert(texts(removed@) =~= before_removed + voided(
                                o.subrange(0, i + 1),
                                was,
                                is,
                                prefix@,
                            ));
                        }
                    }
                },
            },
        }
        i = i + 1;
    }
    proof {
        assert(o.subrange(0, i as int) =~= o);
        lemma_pruned_well_keyed(o, was, is);
    }
    out
}

/// Voids the overrides of the keys that changed from `old_base` to `new_base`. The paths of
/// those, such as `panel.opacity`.
pub fn prune(over: &mut toml::Table, old_base: &toml::Table, new_base: &toml::Table) -> (removed:
    Vec<String>)
    ensures
        entries(*final(over)) == pruned(
            entries(*old(over)),
            entries(*old_base),
            entries(*new_base),
        ),
        texts(removed@) == voided(
            entries(*old(over)),
            entries(*old_base),
            entries(*new_base),
            Seq::empty(),
        ),
        well_keyed(entries(*old(over))),
        well_keyed(entries(*final(over))),
{
    let mut removed: Vec<String> = Vec::new();
    proof {
        reveal_strlit("");
        assert(""@ =~= Seq::empty());
        assert(texts(removed@) =~= Seq::empty());
    }
    let out: toml::Table = prune_into(over, old_base, new_base, "", &mut removed);
    *over = out;
    proof {
        assert(texts(removed@) =~= voided(
            entries(*old(over)),
            entries(*old_base),
            entries(*new_base),
            Seq::empty(),
        ));
    }
    removed
}

/// What a new base leads to.
pub struct Reloaded {
    /// The overrides that the new base makes void, by their paths.
    pub removed: Vec<String>,
    /// The table in force, where there are overrides left; else the base is.
    pub effective: Option<toml::Table>,
}

/// Takes a new base up: what was done last counts, so that an override of a key that the base
/// changed is void, and what is left is laid over the new base.
pub fn reload(overrides: &mut toml::Table, old_base: &toml::Table, new_base: &toml::Table) -> (r:
    Reloaded)
    ensures
        entries(*final(overrides)) == pruned(
            entries(*old(overrides)),
            entries(*old_base),
            entries(*new_base),
        ),
        texts(r.removed@) == voided(
            entries(*old(overrides)),
            entries(*old_base),
            entries(*new_base),
            Seq::empty(),
        ),
        r.effective is None <==> entries(*final(overrides)).len() == 0,
        r.effective is Some ==> entries(r.effective->0) == merged(
            entries(*new_base),
            entries(*final(overrides)),
        ),
        well_keyed(entries(*final(overrides))),
        r.effective is Some ==> well_keyed(entries(r.effective->0)),
{
    let removed: Vec<String> = prune(overrides, old_base, new_base);
    let in_force: Option<toml::Table> = effective(new_base, overrides);
    Reloaded { removed, effective: in_force }
}

/// Whether a path leads to a value that is not a table.
pub open spec fn leaf_at(e: Seq<(Seq<char>, Tree)>, p: Seq<Seq<char>>) -> bool
    decreases p.len(),
{
    if p.len() == 0 {
        false
    } else {
        match find(e, p[0]) {
            None => false,
            Some(Tree::Table(t)) => p.len() > 1 && leaf_at(t, p.drop_first()),
            Some(_) => p.len() == 1,
        }
    }
}

/// Whether a table has a value at a path such as `beat.style`, and not a table.
pub fn has_leaf(table: &toml::Table, path: &str) -> (b: bool)
    ensures
        b == leaf_at(entries(*table), parts(path@, '.')),
{
    let names: Vec<String> = split(path, '.');
    let ghost p = parts(path@, '.');
    let mut here: &toml::Table = table;
    let mut i: usize = 0;
    proof {
        assert(p.skip(0) =~= p);
    }
    loop
        invariant
            i < names@.len(),
            p == parts(path@, '.'),
            texts(names@) == p,
            leaf_at(entries(*table), p) == leaf_at(entries(*here), p.skip(i as int)),
        decreases names@.len() - i,
    {
        assert(texts(names@)[i as int] == names@[i as int]@);
        assert(p.skip(i as int)[0] == names@[i as int]@);
        assert(p.skip(i as int).len() == names@.len() - i);
        assert(p.skip(i as int).drop_first() =~= p.skip(i + 1));
        match table_get(here, names[i].as_str()) {
            None => {
                return false;
            },
            Some(v) => match value_as_table(v) {
                Some(t) => {
                    if names.len() - i == 1 {
                        return false;
                    }
                    here = t;
                    i = i + 1;
                },
                None => {
                    return names.len() - i == 1;
                },
            },
        }
    }
}

/// The values of a table that are not tables, with their paths, in order.
pub open spec fn leaves(e: Seq<(Seq<char>, Tree)>, prefix: Seq<char>) -> Seq<(Seq<char>, Tree)>
    decreases e,
{
    if e.len() == 0 {
        Seq::empty()
    } else {
        let (k, v) = e[e.len() - 1];
        let front = leaves(e.drop_last(), prefix);
        match v {
            Tree::Table(t) => front + leaves(t, path_of(prefix, k)),
            _ => front.push((path_of(prefix, k), v)),
        }
    }
}

/// A leaf on its way into words: its path, and its value as TOML writes it.
struct Leaf {
    path: String,
    text: Option<String>,
}

/// Whether leaves were collected as they are.
spec fn collected(v: Seq<Leaf>, l: Seq<(Seq<char>, Tree)>) -> bool {
    &&& v.len() == l.len()
    &&& forall|i: int|
        #![trigger v[i]]
        0 <= i < v.len() ==> {
            &&& v[i].path@ == l[i].0
            &&& crate::sync::stats::text_of(v[i].text) == toml_text(l[i].1)
        }
}

fn collect_leaves(table: &toml::Table, prefix: &str, out: &mut Vec<Leaf>, Ghost(before_list): Ghost<Seq<(Seq<char>, Tree)>>)
    requires
        collected(old(out)@, before_list),
    ensures
        collected(final(out)@, before_list + leaves(entries(*table), prefix@)),
    decreases entries(*table),
{
    let ghost e = entries(*table);
    let keys: Vec<String> = table_keys(table);
    proof {
        lemma_listed(*table, keys@);
        assert(before_list + Seq::<(Seq<char>, Tree)>::empty() =~= before_list);
    }
    let mut i: usize = 0;
    while i < keys.len()
        invariant
            e == entries(*table),
            i <= keys@.len() == e.len(),
            forall|j: int| 0 <= j < keys@.len() ==> (#[trigger] keys@[j])@ == e[j].0,
            in_order(e),
            collected(out@, before_list + leaves(e.subrange(0, i as int), prefix@)),
        decreases keys@.len() - i,
    {
        let k: &String = &keys[i];
        let ghost here = before_list + leaves(e.subrange(0, i as int), prefix@);
        let ghost next = before_list + leaves(e.subrange(0, i + 1), prefix@);
        proof {
            lemma_find_each(e, i as int);
            assert(e.subrange(0, i + 1).drop_last() =~= e.subrange(0, i as int));
        }
        let path: String = path_under(prefix, k.as_str());
        match table_get(table, k.as_str()) {
            None => {},
            Some(v) => match value_as_table(v) {
                Some(t) => {
                    proof {
                        assert(decreases_to!(e => e[i as int]));
                        assert(decreases_to!(e[i as int] => e[i as int].1));
                        assert(e[i as int].1 == Tree::Table(entries(*t)));
                        assert(decreases_to!(e[i as int].1 => e[i as int].1->Table_0));
                    }
                    collect_leaves(t, path.as_str(), out, Ghost(here));
                    proof {
                        assert(next =~= here + leaves(entries(*t), path@));
                    }
                },
                None => {
                    let text: Option<String> = value_text(v);
                    out.push(Leaf { path, text });
                    proof {
                        assert(next =~= here.push((path@, value_tree(*v))));
                    }
                },
            },
        }
        i = i + 1;
    }
    proof {
        assert(e.subrange(0, i as int) =~= e);
    }
}

/// How many values, not tables, a table holds.
pub fn leaf_count(table: &toml::Table) -> (n: usize)
    ensures
        n == leaves(entries(*table), Seq::empty()).len(),
{
    let mut out: Vec<Leaf> = Vec::new();
    proof {
        reveal_strlit("");
        assert(""@ =~= Seq::empty());
    }
    collect_leaves(table, "", &mut out, Ghost(Seq::empty()));
    proof {
        assert(Seq::empty() + leaves(entries(*table), Seq::empty()) =~= leaves(
            entries(*table),
            Seq::empty(),
        ));
    }
    out.len()
}

/// A leaf in words: its path and its value.
pub open spec fn leaf_line(l: (Seq<char>, Tree)) -> Seq<char> {
    l.0 + " = "@ + (match toml_text(l.1) {
        Some(t) => t,
        None => Seq::empty(),
    })
}

/// Whether every value can be written in TOML.
pub open spec fn writable(l: Seq<(Seq<char>, Tree)>) -> bool {
    forall|i: int| 0 <= i < l.len() ==> toml_text((#[trigger] l[i]).1) is Some
}

/// The overrides in words: `panel.opacity = 0.7、beat.style = "ring"`, or that there are none.
/// `None` where a value cannot be written in TOML.
pub fn describe(table: &toml::Table) -> (s: Option<String>)
    ensures
        ({
            let l = leaves(entries(*table), Seq::empty());
            &&& s is Some <==> writable(l)
            &&& s is Some ==> s->0@ == if l.len() == 0 {
                "沒有覆寫"@
            } else {
                joined(l.map_values(|x: (Seq<char>, Tree)| leaf_line(x)), "、"@)
            }
        }),
{
    let ghost l = leaves(entries(*table), Seq::empty());
    let mut out: Vec<Leaf> = Vec::new();
    proof {
        reveal_strlit("");
        assert(""@ =~= Seq::empty());
    }
    collect_leaves(table, "", &mut out, Ghost(Seq::empty()));
    proof {
        assert(Seq::empty() + l =~= l);
    }
    if out.len() == 0 {
        return Some("沒有覆寫".to_owned());
    }
    let mut lines: Vec<String> = Vec::new();
    let mut i: usize = 0;
    while i < out.len()
        invariant
            i <= out@.len(),
            l == leaves(entries(*table), Seq::empty()),
            collected(out@, l),
            lines@.len() == i,
            forall|j: int| 0 <= j < i ==> toml_text((#[trigger] l[j]).1) is Some,
            forall|j: int| 0 <= j < i ==> (#[trigger] lines@[j])@ == leaf_line(l[j]),
        decreases out@.len() - i,
    {
        assert(out@[i as int].path@ == l[i as int].0);
        match &out[i].text {
            None => {
                assert(toml_text(l[i as int].1) is None);
                assert(!writable(l));
                return None;
            },
            Some(t) => {
                let mut line: String = out[i].path.clone();
                line.append(" = ");
                line.append(t.as_str());
                lines.push(line);
            },
        }
        i = i + 1;
    }
    proof {
        assert(texts(lines@) =~= l.map_values(|x: (Seq<char>, Tree)| leaf_line(x)));
    }
    Some(join(&lines, "、"))
}

/// The value that a path leads to.
pub open spec fn lookup(e: Seq<(Seq<char>, Tree)>, p: Seq<Seq<char>>) -> Option<Tree>
    decreases p.len(),
{
    if p.len() == 0 {
        None
    } else if p.len() == 1 {
        find(e, p[0])
    } else {
        match find(e, p[0]) {
            Some(Tree::Table(t)) => lookup(t, p.drop_first()),
            _ => None,
        }
    }
}

/// What is found is one of the entries.
proof fn lemma_found(e: Seq<(Seq<char>, Tree)>, k: Seq<char>)
    requires
        find(e, k) is Some,
    ensures
        exists|i: int| 0 <= i < e.len() && #[trigger] e[i] == (k, find(e, k)->0),
    decreases e.len(),
{
    if e.last().0 == k {
        assert(e[e.len() - 1] == (k, find(e, k)->0));
    } else {
        let front = e.drop_last();
        lemma_found(front, k);
        let i = choose|i: int| 0 <= i < front.len() && #[trigger] front[i] == (k, find(front, k)->0);
        assert(e[i] == front[i]);
    }
}

/// The tables inside a table with keys in order have theirs in order.
proof fn lemma_well_keyed_inside(e: Seq<(Seq<char>, Tree)>, k: Seq<char>)
    requires
        well_keyed(e),
        find(e, k) is Some,
        find(e, k)->0 is Table,
    ensures
        well_keyed(find(e, k)->0->Table_0),
{
    lemma_found(e, k);
    let i = choose|i: int| 0 <= i < e.len() && #[trigger] e[i] == (k, find(e, k)->0);
    assert(e[i].1 is Table);
}

/// A front of entries in order is in order, and does not have the keys that follow.
proof fn lemma_front_in_order(e: Seq<(Seq<char>, Tree)>)
    requires
        in_order(e),
        e.len() > 0,
    ensures
        in_order(e.drop_last()),
        find(e.drop_last(), e.last().0) is None,
{
    let front = e.drop_last();
    assert forall|a: int, b: int| 0 <= a < b < front.len() implies before(
        (#[trigger] front[a]).0,
        (#[trigger] front[b]).0,
    ) by {
        assert(front[a] == e[a] && front[b] == e[b]);
    }
    if find(front, e.last().0) is Some {
        lemma_found(front, e.last().0);
        let i = choose|i: int|
            0 <= i < front.len() && #[trigger] front[i] == (
                e.last().0,
                find(front, e.last().0)->0,
            );
        assert(e[i] == front[i]);
        assert(before(e[i].0, e[e.len() - 1].0));
        lemma_before_is_strict(e[i].0, e.last().0);
    }
}

/// Setting a key changes what that key leads to and nothing else.
pub proof fn lemma_find_put(e: Seq<(Seq<char>, Tree)>, k: Seq<char>, v: Tree, j: Seq<char>)
    ensures
        find(put(e, k, v), j) == if j == k {
            Some(v)
        } else {
            find(e, j)
        },
    decreases e.len(),
{
    if e.len() == 0 || before(e.last().0, k) {
        assert(e.push((k, v)).drop_last() =~= e);
        if e.len() > 0 {
            lemma_before_is_strict(e.last().0, k);
        }
    } else if e.last().0 == k {
        assert(e.drop_last().push((k, v)).drop_last() =~= e.drop_last());
    } else {
        lemma_find_put(e.drop_last(), k, v, j);
        assert(put(e.drop_last(), k, v).push(e.last()).drop_last() =~= put(e.drop_last(), k, v));
    }
}

/// What a key leads to once a table is laid over another: what the upper table says, laid
/// over table by table, else what the lower one says.
pub proof fn find_in_merged(
    b: Seq<(Seq<char>, Tree)>,
    o: Seq<(Seq<char>, Tree)>,
    k: Seq<char>,
)
    ensures
        find(merged(b, o), k) == (match find(o, k) {
            None => find(b, k),
            Some(v) => match (find(b, k), v) {
                (Some(Tree::Table(bt)), Tree::Table(ot)) => Some(Tree::Table(merged(bt, ot))),
                _ => Some(v),
            },
        }),
    decreases o.len(),
{
    if o.len() > 0 {
        let (j, v) = o[o.len() - 1];
        let front = merged(b, o.drop_last());
        find_in_merged(b, o.drop_last(), k);
        match (find(b, j), v) {
            (Some(Tree::Table(bt)), Tree::Table(ot)) => {
                lemma_find_put(front, j, Tree::Table(merged(bt, ot)), k);
            },
            _ => {
                lemma_find_put(front, j, v, k);
            },
        }
    }
}

/// What a key leads to among the differences: its value where it differs, the differences
/// inside where it is a table in both.
pub proof fn find_in_differing(
    b: Seq<(Seq<char>, Tree)>,
    e: Seq<(Seq<char>, Tree)>,
    k: Seq<char>,
)
    requires
        in_order(e),
    ensures
        find(differing(b, e), k) == (match find(e, k) {
            None => None,
            Some(v) => match (find(b, k), v) {
                (Some(Tree::Table(bt)), Tree::Table(et)) => if differing(bt, et).len() == 0 {
                    None
                } else {
                    Some(Tree::Table(differing(bt, et)))
                },
                (Some(bv), _) => if same(bv, v) {
                    None
                } else {
                    Some(v)
                },
                (None, _) => Some(v),
            },
        }),
    decreases e.len(),
{
    if e.len() > 0 {
        let (j, v) = e[e.len() - 1];
        lemma_front_in_order(e);
        find_in_differing(b, e.drop_last(), k);
        find_in_differing(b, e.drop_last(), j);
        let front = differing(b, e.drop_last());
        let d = differing(b, e);
        if d.len() > front.len() {
            assert(d.drop_last() =~= front);
        }
    }
}

/// The overrides bring the effective theme back: wherever a path leads to a value in
/// `effective`, it leads to that value, or one equal to it, once the differences are laid over
/// the base again.
pub proof fn overrides_restore_the_effective_values(
    b: Seq<(Seq<char>, Tree)>,
    e: Seq<(Seq<char>, Tree)>,
    p: Seq<Seq<char>>,
)
    requires
        well_keyed(e),
        lookup(e, p) is Some,
        !(lookup(e, p)->0 is Table),
    ensures
        lookup(merged(b, differing(b, e)), p) is Some,
        lookup(merged(b, differing(b, e)), p) == lookup(e, p) || same(
            lookup(merged(b, differing(b, e)), p)->0,
            lookup(e, p)->0,
        ),
    decreases p.len(),
{
    let k = p[0];
    let d = differing(b, e);
    find_in_differing(b, e, k);
    find_in_merged(b, d, k);
    if p.len() > 1 {
        let v = find(e, k)->0;
        lemma_well_keyed_inside(e, k);
        let et = v->Table_0;
        match find(b, k) {
            Some(Tree::Table(bt)) => {
                overrides_restore_the_effective_values(bt, et, p.drop_first());
                if differing(bt, et).len() == 0 {
                    assert(differing(bt, et) =~= Seq::empty());
                    assert(merged(bt, Seq::empty()) == bt);
                }
            },
            _ => {},
        }
    }
}

/// Whether every key of `b` is a key of `e`, in the tables inside too where a key leads to a
/// table in both.
pub open spec fn keys_within(b: Seq<(Seq<char>, Tree)>, e: Seq<(Seq<char>, Tree)>) -> bool
    decreases b,
{
    forall|i: int|
        #![trigger b[i]]
        0 <= i < b.len() ==> match (b[i].1, find(e, b[i].0)) {
            (_, None) => false,
            (Tree::Table(bt), Some(Tree::Table(et))) => keys_within(bt, et),
            _ => true,
        }
}

/// A key that is among the entries is found.
proof fn lemma_finds(e: Seq<(Seq<char>, Tree)>, i: int)
    requires
        0 <= i < e.len(),
    ensures
        find(e, e[i].0) is Some,
    decreases e.len(),
{
    if i < e.len() - 1 {
        assert(e.drop_last()[i] == e[i]);
        lemma_finds(e.drop_last(), i);
    }
}

/// A table with the last key of another does not end before that key.
proof fn lemma_last_keys_agree(a: Seq<(Seq<char>, Tree)>, b: Seq<(Seq<char>, Tree)>)
    requires
        in_order(a),
        in_order(b),
        a.len() > 0,
        b.len() > 0,
        find(a, b.last().0) is Some,
    ensures
        !before(a.last().0, b.last().0),
{
    let k = b.last().0;
    lemma_found(a, k);
    let i = choose|i: int| 0 <= i < a.len() && #[trigger] a[i] == (k, find(a, k)->0);
    if i < a.len() - 1 {
        assert(before(a[i].0, a[a.len() - 1].0));
        if before(a.last().0, k) {
            lemma_before_is_strict(a.last().0, k);
        }
    } else if before(a.last().0, k) {
        lemma_before_is_strict(a.last().0, k);
    }
}

/// Tables with keys in order are the same where every key leads to the same.
proof fn lemma_same_by_keys(a: Seq<(Seq<char>, Tree)>, b: Seq<(Seq<char>, Tree)>)
    requires
        in_order(a),
        in_order(b),
        forall|k: Seq<char>| same_or_none(#[trigger] find(a, k), find(b, k)),
    ensures
        same(Tree::Table(a), Tree::Table(b)),
    decreases a.len(),
{
    if a.len() == 0 || b.len() == 0 {
        if a.len() > 0 {
            lemma_finds(a, a.len() - 1);
            assert(same_or_none(find(a, a.last().0), find(b, a.last().0)));
        }
        if b.len() > 0 {
            lemma_finds(b, b.len() - 1);
            assert(same_or_none(find(a, b.last().0), find(b, b.last().0)));
        }
    } else {
        let (k, j) = (a.last().0, b.last().0);
        lemma_finds(a, a.len() - 1);
        lemma_finds(b, b.len() - 1);
        assert(same_or_none(find(a, k), find(b, k)));
        assert(same_or_none(find(a, j), find(b, j)));
        lemma_last_keys_agree(a, b);
        lemma_last_keys_agree(b, a);
        lemma_before_decides(k, j);
        let (fa, fb) = (a.drop_last(), b.drop_last());
        lemma_front_in_order(a);
        lemma_front_in_order(b);
        assert forall|x: Seq<char>| same_or_none(#[trigger] find(fa, x), find(fb, x)) by {
            if x != k {
                assert(find(a, x) == find(fa, x));
                assert(find(b, x) == find(fb, x));
            }
        }
        lemma_same_by_keys(fa, fb);
        assert forall|i: int| 0 <= i < a.len() implies (#[trigger] a[i]).0 == b[i].0 && same(
            a[i].1,
            b[i].1,
        ) by {
            if i < fa.len() {
                assert(fa[i] == a[i] && fb[i] == b[i]);
            }
        }
    }
}

/// Overrides hold what differs and lose nothing: laid over the base, the differences give a
/// table that is the same as the effective one, wherever the effective one has the keys of the
/// base and every value in it equals itself.
///
/// Differences cannot take a key away, and a number that is not a number equals nothing.
pub proof fn the_base_and_the_differences_make_the_effective_table(
    b: Seq<(Seq<char>, Tree)>,
    e: Seq<(Seq<char>, Tree)>,
)
    requires
        well_keyed(b),
        well_keyed(e),
        keys_within(b, e),
        same(Tree::Table(e), Tree::Table(e)),
    ensures
        same(Tree::Table(merged(b, differing(b, e))), Tree::Table(e)),
    decreases e,
{
    let d = differing(b, e);
    let m = merged(b, d);
    lemma_differing_well_keyed(b, e);
    lemma_merged_well_keyed(b, d);
    assert forall|k: Seq<char>| same_or_none(#[trigger] find(m, k), find(e, k)) by {
        find_in_differing(b, e, k);
        find_in_merged(b, d, k);
        if find(b, k) is Some {
            lemma_found(b, k);
            let i = choose|i: int| 0 <= i < b.len() && #[trigger] b[i] == (k, find(b, k)->0);
            assert(b[i].0 == k);
        }
        if find(e, k) is Some {
            lemma_found(e, k);
            let i = choose|i: int| 0 <= i < e.len() && #[trigger] e[i] == (k, find(e, k)->0);
            let v = e[i].1;
            assert(same(v, v));
            match (find(b, k), v) {
                (Some(Tree::Table(bt)), Tree::Table(et)) => {
                    lemma_well_keyed_inside(b, k);
                    lemma_well_keyed_inside(e, k);
                    assert(decreases_to!(e => e[i]));
                    assert(decreases_to!(e[i] => e[i].1));
                    assert(decreases_to!(e[i].1 => e[i].1->Table_0));
                    the_base_and_the_differences_make_the_effective_table(bt, et);
                    if differing(bt, et).len() == 0 {
                        assert(differing(bt, et) =~= Seq::empty());
                        assert(merged(bt, Seq::empty()) == bt);
                    }
                },
                _ => {},
            }
        }
    }
    lemma_same_by_keys(m, e);
}

/// A table has its own keys.
proof fn lemma_keys_within_itself(b: Seq<(Seq<char>, Tree)>)
    requires
        well_keyed(b),
    ensures
        keys_within(b, b),
    decreases b,
{
    assert forall|i: int| #![trigger b[i]] 0 <= i < b.len() implies match (
        b[i].1,
        find(b, b[i].0),
    ) {
        (_, None) => false,
        (Tree::Table(bt), Some(Tree::Table(et))) => keys_within(bt, et),
        _ => true,
    } by {
        lemma_find_each(b, i);
        if let Tree::Table(t) = b[i].1 {
            assert(decreases_to!(b => b[i]));
            assert(decreases_to!(b[i] => b[i].1));
            assert(decreases_to!(b[i].1 => b[i].1->Table_0));
            lemma_keys_within_itself(t);
        }
    }
}

/// Laying a table over a base takes no key away: an effective theme has the keys of its base.
pub proof fn the_effective_table_has_the_keys_of_its_base(
    b: Seq<(Seq<char>, Tree)>,
    o: Seq<(Seq<char>, Tree)>,
)
    requires
        well_keyed(b),
    ensures
        keys_within(b, merged(b, o)),
    decreases b,
{
    let m = merged(b, o);
    assert forall|i: int| #![trigger b[i]] 0 <= i < b.len() implies match (
        b[i].1,
        find(m, b[i].0),
    ) {
        (_, None) => false,
        (Tree::Table(bt), Some(Tree::Table(et))) => keys_within(bt, et),
        _ => true,
    } by {
        let k = b[i].0;
        lemma_find_each(b, i);
        find_in_merged(b, o, k);
        if let Tree::Table(bt) = b[i].1 {
            assert(decreases_to!(b => b[i]));
            assert(decreases_to!(b[i] => b[i].1));
            assert(decreases_to!(b[i].1 => b[i].1->Table_0));
            match find(o, k) {
                Some(Tree::Table(ot)) => the_effective_table_has_the_keys_of_its_base(bt, ot),
                None => lemma_keys_within_itself(bt),
                _ => {},
            }
        }
    }
}

/// The overrides that are remembered bring the theme in force back: what differs from the base
/// once some table was laid over it gives, laid over the base, the same again, as long as
/// every value in it equals itself.
pub proof fn remembered_overrides_bring_the_theme_back(
    b: Seq<(Seq<char>, Tree)>,
    o: Seq<(Seq<char>, Tree)>,
)
    requires
        well_keyed(b),
        well_keyed(o),
        same(Tree::Table(merged(b, o)), Tree::Table(merged(b, o))),
    ensures
        same(
            Tree::Table(merged(b, differing(b, merged(b, o)))),
            Tree::Table(merged(b, o)),
        ),
{
    lemma_merged_well_keyed(b, o);
    the_effective_table_has_the_keys_of_its_base(b, o);
    the_base_and_the_differences_make_the_effective_table(b, merged(b, o));
}

/// A theme has no differences from itself, as long as every value in it equals itself.
pub proof fn no_differences_from_itself(b: Seq<(Seq<char>, Tree)>)
    requires
        well_keyed(b),
        same(Tree::Table(b), Tree::Table(b)),
    ensures
        differing(b, b).len() == 0,
    decreases b, 1int,
{
    lemma_no_differences_up_to(b, b.len() as int);
    assert(b.subrange(0, b.len() as int) =~= b);
}

proof fn lemma_no_differences_up_to(b: Seq<(Seq<char>, Tree)>, n: int)
    requires
        well_keyed(b),
        same(Tree::Table(b), Tree::Table(b)),
        0 <= n <= b.len(),
    ensures
        differing(b, b.subrange(0, n)).len() == 0,
    decreases b, 0int, n,
{
    if n > 0 {
        let e = b.subrange(0, n);
        assert(e.drop_last() =~= b.subrange(0, n - 1));
        lemma_no_differences_up_to(b, n - 1);
        lemma_find_each(b, n - 1);
        assert(e[e.len() - 1] == b[n - 1]);
        assert(same(b[n - 1].1, b[n - 1].1));
        if let Tree::Table(t) = b[n - 1].1 {
            assert(decreases_to!(b => b[n - 1]));
            assert(decreases_to!(b[n - 1] => b[n - 1].1));
            assert(decreases_to!(b[n - 1].1 => b[n - 1].1->Table_0));
            no_differences_from_itself(t);
        }
    }
}

/// What a key leads to after pruning.
pub proof fn find_in_pruned(
    o: Seq<(Seq<char>, Tree)>,
    was: Seq<(Seq<char>, Tree)>,
    is: Seq<(Seq<char>, Tree)>,
    k: Seq<char>,
)
    requires
        in_order(o),
    ensures
        find(pruned(o, was, is), k) == (match find(o, k) {
            None => None,
            Some(v) => match (v, find(was, k), find(is, k)) {
                (Tree::Table(ot), Some(Tree::Table(wt)), Some(Tree::Table(it))) => if pruned(
                    ot,
                    wt,
                    it,
                ).len() == 0 {
                    None
                } else {
                    Some(Tree::Table(pruned(ot, wt, it)))
                },
                _ => if same_or_none(find(was, k), find(is, k)) {
                    Some(v)
                } else {
                    None
                },
            },
        }),
    decreases o.len(),
{
    if o.len() > 0 {
        let (j, v) = o[o.len() - 1];
        lemma_front_in_order(o);
        find_in_pruned(o.drop_last(), was, is, k);
        find_in_pruned(o.drop_last(), was, is, j);
        let front = pruned(o.drop_last(), was, is);
        let d = pruned(o, was, is);
        if d.len() > front.len() {
            assert(d.drop_last() =~= front);
        }
    }
}

/// Whether every proper front of a path leads to a table.
pub open spec fn through_tables(e: Seq<(Seq<char>, Tree)>, p: Seq<Seq<char>>) -> bool
    decreases p.len(),
{
    p.len() <= 1 || match find(e, p[0]) {
        Some(Tree::Table(t)) => through_tables(t, p.drop_first()),
        _ => false,
    }
}

/// The last change counts: when the base changes, the override at a path survives just where
/// the base's own value at that path is the same before and after.
pub proof fn an_override_survives_where_the_base_is_unchanged(
    o: Seq<(Seq<char>, Tree)>,
    was: Seq<(Seq<char>, Tree)>,
    is: Seq<(Seq<char>, Tree)>,
    p: Seq<Seq<char>>,
)
    requires
        well_keyed(o),
        p.len() > 0,
        lookup(o, p) is Some,
        !(lookup(o, p)->0 is Table),
        through_tables(was, p),
        through_tables(is, p),
    ensures
        same_or_none(lookup(was, p), lookup(is, p)) ==> lookup(pruned(o, was, is), p) == lookup(
            o,
            p,
        ),
        !same_or_none(lookup(was, p), lookup(is, p)) ==> lookup(pruned(o, was, is), p) is None,
    decreases p.len(),
{
    let k = p[0];
    find_in_pruned(o, was, is, k);
    if p.len() > 1 {
        lemma_well_keyed_inside(o, k);
        let ot = find(o, k)->0->Table_0;
        let wt = find(was, k)->0->Table_0;
        let it = find(is, k)->0->Table_0;
        an_override_survives_where_the_base_is_unchanged(ot, wt, it, p.drop_first());
    }
}

/// Asking for a leaf asks for a value at the path that is not a table.
pub proof fn a_leaf_is_a_value_at_its_path(e: Seq<(Seq<char>, Tree)>, p: Seq<Seq<char>>)
    ensures
        leaf_at(e, p) <==> lookup(e, p) is Some && !(lookup(e, p)->0 is Table),
    decreases p.len(),
{
    if p.len() > 1 {
        match find(e, p[0]) {
            Some(Tree::Table(t)) => a_leaf_is_a_value_at_its_path(t, p.drop_first()),
            _ => {},
        }
    }
}

/// Values of different kinds are never equal; texts, whole numbers and truth values are equal
/// just where they are the same.
pub proof fn values_are_equal_kind_by_kind(a: Tree, b: Tree)
    requires
        same(a, b),
    ensures
        a is Text <==> b is Text,
        a is Integer <==> b is Integer,
        a is Float <==> b is Float,
        a is Boolean <==> b is Boolean,
        a is Datetime <==> b is Datetime,
        a is List <==> b is List,
        a is Table <==> b is Table,
        a is Text || a is Integer || a is Boolean || a is Datetime ==> a == b,
        a matches Tree::List(x) ==> x.len() == b->List_0.len(),
        a matches Tree::Table(x) ==> x.len() == b->Table_0.len(),
{
}

/// What is voided is told key by key: an override of a value is told by its path where the base
/// changed there, and not where it did not; inside a table that all three have, what is told is
/// what is voided inside it.
pub proof fn what_is_voided_is_told_key_by_key(
    o: Seq<(Seq<char>, Tree)>,
    was: Seq<(Seq<char>, Tree)>,
    is: Seq<(Seq<char>, Tree)>,
    prefix: Seq<char>,
    k: Seq<char>,
    v: Tree,
)
    ensures
        voided(Seq::<(Seq<char>, Tree)>::empty(), was, is, prefix) == Seq::<Seq<char>>::empty(),
        !(v is Table) && same_or_none(find(was, k), find(is, k)) ==> voided(
            o.push((k, v)),
            was,
            is,
            prefix,
        ) == voided(o, was, is, prefix),
        !(v is Table) && !same_or_none(find(was, k), find(is, k)) ==> voided(
            o.push((k, v)),
            was,
            is,
            prefix,
        ) == voided(o, was, is, prefix).push(path_of(prefix, k)),
        v is Table && find(was, k) is Some && find(was, k)->0 is Table && find(is, k) is Some
            && find(is, k)->0 is Table ==> voided(o.push((k, v)), was, is, prefix) == voided(
            o,
            was,
            is,
            prefix,
        ) + voided(
            v->Table_0,
            find(was, k)->0->Table_0,
            find(is, k)->0->Table_0,
            path_of(prefix, k),
        ),
{
    assert(o.push((k, v)).drop_last() =~= o);
}

/// Leaves are listed key by key: a value by its path, a table by the leaves inside it.
pub proof fn leaves_are_listed_key_by_key(
    e: Seq<(Seq<char>, Tree)>,
    prefix: Seq<char>,
    k: Seq<char>,
    v: Tree,
)
    ensures
        leaves(Seq::<(Seq<char>, Tree)>::empty(), prefix) == Seq::<(Seq<char>, Tree)>::empty(),
        !(v is Table) ==> leaves(e.push((k, v)), prefix) == leaves(e, prefix).push(
            (path_of(prefix, k), v),
        ),
        v is Table ==> leaves(e.push((k, v)), prefix) == leaves(e, prefix) + leaves(
            v->Table_0,
            path_of(prefix, k),
        ),
        path_of(Seq::empty(), k) == k,
        prefix.len() > 0 ==> path_of(prefix, k) == prefix + "."@ + k,
{
    assert(e.push((k, v)).drop_last() =~= e);
}

/// A single key can always be set; behind a table the rest of the path decides, and behind
/// anything else, or nothing, no key can be.
pub proof fn only_tables_lead_on(e: Seq<(Seq<char>, Tree)>, p: Seq<Seq<char>>)
    ensures
        p.len() <= 1 ==> through_tables(e, p),
        p.len() > 1 && find(e, p[0]) is None ==> !through_tables(e, p),
        p.len() > 1 && find(e, p[0]) is Some && !(find(e, p[0])->0 is Table)
            ==> !through_tables(e, p),
        p.len() > 1 ==> (find(e, p[0]) matches Some(Tree::Table(t)) ==> (through_tables(e, p)
            <==> through_tables(t, p.subrange(1, p.len() as int)))),
{
    if p.len() > 1 {
        assert(p.drop_first() =~= p.subrange(1, p.len() as int));
    }
}

/// Without overrides the theme stands as it is, and with any it is merged with them.
pub proof fn without_overrides_nothing_is_merged(
    base: toml::Table,
    overrides: toml::Table,
    out: Option<toml::Table>,
)
    requires
        call_ensures(effective, (&base, &overrides), out),
    ensures
        out is Some <==> entries(overrides).len() > 0,
        out matches Some(t) ==> entries(t) == merged(entries(base), entries(overrides)),
{
}

} // verus!
