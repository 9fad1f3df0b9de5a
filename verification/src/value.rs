use crate::format::Format;
use vstd::prelude::*;

verus! {

/// A value of a structured-data document, whatever the format it was read
/// from or will be written in.
#[derive(Debug, PartialEq, Eq)]
pub enum Node {
    Null,
    Bool(bool),
    Integer(i64),
    /// A number that is no integer, held as its decimal text.
    Float(String),
    String(String),
    Sequence(Vec<Node>),
    /// Keys with their values, in the order of the document.
    Mapping(Vec<(String, Node)>),
    /// A native date-time, held as its canonical text.
    Datetime(String),
}

/// The mathematical value of a [`Node`].
pub ghost enum Tree {
    Null,
    Bool(bool),
    Integer(i64),
    Float(Seq<char>),
    Text(Seq<char>),
    Sequence(Seq<Tree>),
    Mapping(Seq<(Seq<char>, Tree)>),
    Datetime(Seq<char>),
}

/// The mathematical value of `v`: the same shape, with every string and
/// every collection taken as a sequence.
pub open spec fn tree_of(v: Node) -> Tree
    decreases v,
{
    match v {
        Node::Null => Tree::Null,
        Node::Bool(b) => Tree::Bool(b),
        Node::Integer(i) => Tree::Integer(i),
        Node::Float(f) => Tree::Float(f@),
        Node::String(s) => Tree::Text(s@),
        Node::Sequence(items) => Tree::Sequence(
            Seq::new(
                items@.len(),
                |i: int|
                    if 0 <= i < items@.len() {
                        tree_of(items@[i])
                    } else {
                        Tree::Null
                    },
            ),
        ),
        Node::Mapping(entries) => Tree::Mapping(
            Seq::new(
                entries@.len(),
                |i: int|
                    if 0 <= i < entries@.len() {
                        (entries@[i].0@, tree_of(entries@[i].1))
                    } else {
                        (Seq::<char>::empty(), Tree::Null)
                    },
            ),
        ),
        Node::Datetime(s) => Tree::Datetime(s@),
    }
}

impl View for Node {
    type V = Tree;

    open spec fn view(&self) -> Tree {
        tree_of(*self)
    }
}

/// Whether values of format `f` can hold a native date-time.
pub open spec fn has_native_datetime(f: Format) -> bool {
    f == Format::Toml
}

/// `t` as a value for the format `to`: the same value, but that every native
/// date-time that `to` cannot hold has become the text of that date-time.
pub open spec fn map_tree(t: Tree, to: Format) -> Tree
    decreases t,
{
    match t {
        Tree::Datetime(s) => if has_native_datetime(to) {
            t
        } else {
            Tree::Text(s)
        },
        Tree::Sequence(items) => Tree::Sequence(
            Seq::new(
                items.len(),
                |i: int|
                    if 0 <= i < items.len() {
                        map_tree(items[i], to)
                    } else {
                        Tree::Null
                    },
            ),
        ),
        Tree::Mapping(entries) => Tree::Mapping(
            Seq::new(
                entries.len(),
                |i: int|
                    if 0 <= i < entries.len() {
                        (entries[i].0, map_tree(entries[i].1, to))
                    } else {
                        (Seq::<char>::empty(), Tree::Null)
                    },
            ),
        ),
        _ => t,
    }
}

/// The value that stands for `value`, read from format `from`, in format `to`.
/// Only `to` decides: whatever `to` can hold stays as it is, in its place and
/// order, and a native date-time that `to` cannot hold becomes its text.
pub fn map_value(value: &Node, from: Format, to: Format) -> (mapped: Node)
    ensures
        mapped@ == map_tree(value@, to),
    decreases value,
{
    match value {
        Node::Null => Node::Null,
        Node::Bool(b) => Node::Bool(*b),
        Node::Integer(i) => Node::Integer(*i),
        Node::Float(f) => Node::Float(f.clone()),
        Node::String(s) => Node::String(s.clone()),
        Node::Datetime(s) => match to {
            Format::Toml => Node::Datetime(s.clone()),
            Format::Yaml => Node::String(s.clone()),
        },
        Node::Sequence(items) => {
            let mut out: Vec<Node> = Vec::new();
            let mut i: usize = 0;
            while i < items.len()
                invariant
                    i <= items.len(),
                    value@ is Sequence,
                    value@->Sequence_0.len() == items@.len(),
                    forall|k: int|
                        0 <= k < items@.len() ==> (#[trigger] value@->Sequence_0[k]) == items@[k]@,
                    decreases_to!(value => items),
                    out@.len() == i,
                    forall|k: int| 0 <= k < i ==> (#[trigger] out@[k])@ == map_tree(items@[k]@, to),
                decreases items.len() - i,
            {
                proof {
                    vstd::std_specs::vec::axiom_vec_index_decreases(*items, i as int);
                }
                let m = map_value(&items[i], from, to);
                out.push(m);
                i = i + 1;
            }
            let r = Node::Sequence(out);
            assert(r@ =~= map_tree(value@, to)) by {
                assert(r@->Sequence_0 =~= map_tree(value@, to)->Sequence_0);
            }
            r
        },
        Node::Mapping(entries) => {
            let mut out: Vec<(String, Node)> = Vec::new();
            let mut i: usize = 0;
            while i < entries.len()
                invariant
                    i <= entries.len(),
                    value@ is Mapping,
                    value@->Mapping_0.len() == entries@.len(),
                    forall|k: int|
                        0 <= k < entries@.len() ==> (#[trigger] value@->Mapping_0[k]) == (
                            entries@[k].0@,
                            entries@[k].1@,
                        ),
                    decreases_to!(value => entries),
                    out@.len() == i,
                    forall|k: int|
                        0 <= k < i ==> (#[trigger] out@[k]).0@ == entries@[k].0@ && out@[k].1@
                            == map_tree(entries@[k].1@, to),
                decreases entries.len() - i,
            {
                proof {
                    vstd::std_specs::vec::axiom_vec_index_decreases(*entries, i as int);
                }
                let m = map_value(&entries[i].1, from, to);
                out.push((entries[i].0.clone(), m));
                i = i + 1;
            }
            let r = Node::Mapping(out);
            assert(r@ =~= map_tree(value@, to)) by {
                assert(r@->Mapping_0 =~= map_tree(value@, to)->Mapping_0);
            }
            r
        },
    }
}


/// Whether no mapping in `t` has a key twice.
pub open spec fn distinct_keys(t: Tree) -> bool
    decreases t,
{
    match t {
        Tree::Sequence(items) => forall|i: int|
            0 <= i < items.len() ==> distinct_keys(#[trigger] items[i]),
        Tree::Mapping(entries) => {
            &&& forall|i: int, j: int|
                0 <= i < j < entries.len() ==> (#[trigger] entries[i]).0 != (
                #[trigger] entries[j]).0
            &&& forall|i: int| 0 <= i < entries.len() ==> distinct_keys((#[trigger] entries[i]).1)
        },
        _ => true,
    }
}

/// Whether a value of this one kind, whatever it holds, can stand in a
/// document of format `f`: TOML has no null, YAML has no native date-time.
pub open spec fn kind_fits(t: Tree, f: Format) -> bool {
    match f {
        Format::Toml => !(t is Null),
        Format::Yaml => !(t is Datetime),
    }
}

/// Whether `t` and everything in it is of a kind that format `f` has.
pub open spec fn fits(t: Tree, f: Format) -> bool
    decreases t,
{
    &&& kind_fits(t, f)
    &&& match t {
        Tree::Sequence(items) => forall|i: int| 0 <= i < items.len() ==> fits(#[trigger] items[i], f),
        Tree::Mapping(entries) => forall|i: int|
            0 <= i < entries.len() ==> fits((#[trigger] entries[i]).1, f),
        _ => true,
    }
}

/// Whether `value` and everything in it is of a kind that format `f` has.
pub fn fits_format(value: &Node, f: Format) -> (yes: bool)
    ensures
        yes == fits(value@, f),
    decreases value,
{
    match value {
        Node::Null => match f {
            Format::Toml => false,
            Format::Yaml => true,
        },
        Node::Datetime(_) => match f {
            Format::Toml => true,
            Format::Yaml => false,
        },
        Node::Bool(_) => true,
        Node::Integer(_) => true,
        Node::Float(_) => true,
        Node::String(_) => true,
        Node::Sequence(items) => {
            let mut i: usize = 0;
            while i < items.len()
                invariant
                    i <= items.len(),
                    value@ is Sequence,
                    value@->Sequence_0.len() == items@.len(),
                    forall|k: int|
                        0 <= k < items@.len() ==> (#[trigger] value@->Sequence_0[k]) == items@[k]@,
                    decreases_to!(value => items),
                    forall|k: int| 0 <= k < i ==> fits(#[trigger] value@->Sequence_0[k], f),
                decreases items.len() - i,
            {
                proof {
                    vstd::std_specs::vec::axiom_vec_index_decreases(*items, i as int);
                }
                if !fits_format(&items[i], f) {
                    assert(!fits(value@->Sequence_0[i as int], f));
                    return false;
                }
                i = i + 1;
            }
            true
        },
        Node::Mapping(entries) => {
            let mut i: usize = 0;
            while i < entries.len()
                invariant
                    i <= entries.len(),
                    value@ is Mapping,
                    value@->Mapping_0.len() == entries@.len(),
                    forall|k: int|
                        0 <= k < entries@.len() ==> (#[trigger] value@->Mapping_0[k]) == (
                            entries@[k].0@,
                            entries@[k].1@,
                        ),
                    decreases_to!(value => entries),
                    forall|k: int| 0 <= k < i ==> fits((#[trigger] value@->Mapping_0[k]).1, f),
                decreases entries.len() - i,
            {
                proof {
                    vstd::std_specs::vec::axiom_vec_index_decreases(*entries, i as int);
                }
                if !fits_format(&entries[i].1, f) {
                    assert(!fits(value@->Mapping_0[i as int].1, f));
                    return false;
                }
                i = i + 1;
            }
            true
        },
    }
}


/// A value mapped for a format without native date-times holds none.
pub proof fn lemma_mapped_fits_yaml(t: Tree)
    ensures
        fits(map_tree(t, Format::Yaml), Format::Yaml),
    decreases t,
{
    let f = Format::Yaml;
    let m = map_tree(t, f);
    match t {
        Tree::Sequence(items) => {
            let ms = m->Sequence_0;
            assert(ms.len() == items.len());
            assert forall|i: int| 0 <= i < ms.len() implies fits(#[trigger] ms[i], f) by {
                assert(ms[i] == map_tree(items[i], f));
                lemma_mapped_fits_yaml(items[i]);
            }
        },
        Tree::Mapping(entries) => {
            let ms = m->Mapping_0;
            assert(ms.len() == entries.len());
            assert forall|i: int| 0 <= i < ms.len() implies fits((#[trigger] ms[i]).1, f) by {
                assert(ms[i].1 == map_tree(entries[i].1, f));
                lemma_mapped_fits_yaml(entries[i].1);
            }
        },
        _ => {},
    }
}

/// Mapping neither brings a null into a value nor takes one out of it: a
/// value mapped for TOML can be held by TOML exactly where it could before.
pub proof fn lemma_mapped_fits_toml(t: Tree)
    ensures
        fits(map_tree(t, Format::Toml), Format::Toml) == fits(t, Format::Toml),
{
    lemma_map_keeps(t, Format::Toml);
}

/// Mapping changes nothing in a value that holds no native date-time, and
/// nothing at all where the format has native date-times.
pub proof fn lemma_map_keeps(t: Tree, to: Format)
    requires
        fits(t, Format::Yaml) || has_native_datetime(to),
    ensures
        map_tree(t, to) == t,
    decreases t,
{
    match t {
        Tree::Sequence(items) => {
            assert forall|i: int| 0 <= i < items.len() implies map_tree(items[i], to)
                == items[i] by {
                lemma_map_keeps(items[i], to);
            }
            assert(map_tree(t, to)->Sequence_0 =~= items);
        },
        Tree::Mapping(entries) => {
            assert forall|i: int| 0 <= i < entries.len() implies (
                entries[i].0,
                map_tree(entries[i].1, to),
            ) == entries[i] by {
                lemma_map_keeps(entries[i].1, to);
            }
            assert(map_tree(t, to)->Mapping_0 =~= entries);
        },
        _ => {},
    }
}

/// Mapping keeps every mapping's keys apart: where no mapping has a key
/// twice, none has after mapping.
pub proof fn lemma_map_keeps_keys(t: Tree, to: Format)
    requires
        distinct_keys(t),
    ensures
        distinct_keys(map_tree(t, to)),
    decreases t,
{
    let m = map_tree(t, to);
    match t {
        Tree::Sequence(items) => {
            let ms = m->Sequence_0;
            assert(ms.len() == items.len());
            assert forall|i: int| 0 <= i < ms.len() implies distinct_keys(#[trigger] ms[i]) by {
                assert(ms[i] == map_tree(items[i], to));
                assert(distinct_keys(items[i]));
                lemma_map_keeps_keys(items[i], to);
            }
        },
        Tree::Mapping(entries) => {
            let ms = m->Mapping_0;
            assert(ms.len() == entries.len());
            assert forall|i: int| 0 <= i < ms.len() implies distinct_keys((#[trigger] ms[i]).1) by {
                assert(ms[i].1 == map_tree(entries[i].1, to));
                assert(distinct_keys(entries[i].1));
                lemma_map_keeps_keys(entries[i].1, to);
            }
            assert forall|i: int, j: int| 0 <= i < j < ms.len() implies (#[trigger] ms[i]).0 != (
            #[trigger] ms[j]).0 by {
                assert(ms[i].0 == entries[i].0 && ms[j].0 == entries[j].0);
            }
        },
        _ => {},
    }
}

/// Mapping runs once: a value that was mapped for a format is not changed
/// by mapping it for that format again.
pub proof fn lemma_map_idempotent(t: Tree, to: Format)
    ensures
        map_tree(map_tree(t, to), to) == map_tree(t, to),
{
    if !has_native_datetime(to) {
        lemma_mapped_fits_yaml(t);
    }
    lemma_map_keeps(map_tree(t, to), to);
}

/// A value that both formats can hold as it is, one without a native
/// date-time, comes back unchanged from being mapped for one format and
/// then for the other.
pub proof fn lemma_map_round_trip(t: Tree, there: Format, back: Format)
    requires
        fits(t, Format::Yaml),
    ensures
        map_tree(map_tree(t, there), back) == t,
{
    lemma_map_keeps(t, there);
    lemma_map_keeps(t, back);
}

/// Mapping keeps the shape of a value: a sequence stays a sequence of as
/// many items, a mapping keeps its keys in their order, and only a native
/// date-time can change its kind, to text.
pub proof fn lemma_map_keeps_shape(t: Tree, to: Format)
    ensures
        t is Sequence ==> map_tree(t, to) is Sequence && map_tree(t, to)->Sequence_0.len()
            == t->Sequence_0.len(),
        t is Mapping ==> map_tree(t, to) is Mapping && map_tree(t, to)->Mapping_0.len()
            == t->Mapping_0.len() && forall|i: int|
            0 <= i < t->Mapping_0.len() ==> (#[trigger] map_tree(t, to)->Mapping_0[i]).0
                == t->Mapping_0[i].0,
        t is Datetime ==> map_tree(t, to) == if has_native_datetime(to) {
            t
        } else {
            Tree::Text(t->Datetime_0)
        },
        !(t is Sequence || t is Mapping || t is Datetime) ==> map_tree(t, to) == t,
{
}

} // verus!
