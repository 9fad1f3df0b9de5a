use crate::value::{Node, Tree};
use vstd::prelude::*;
use vstd::string::StringExecFns;

verus! {

/// Whether `from_str` of the 64-bit floating-point type takes `text` as a
/// number.
pub uninterp spec fn float_text(text: Seq<char>) -> bool;

/// Whether `toml::value::Datetime::from_str` takes `text` as a date-time.
pub uninterp spec fn datetime_text(text: Seq<char>) -> bool;

/// `str::parse` to the type that `toml::Value::Float` holds: whether the
/// text is a number.
#[verifier::external_body]
fn is_float_text(text: &str) -> (yes: bool)
    ensures
        yes == float_text(text@),
{
    text.parse().map(::toml::Value::Float).is_ok()
}

/// `str::parse` to `toml::value::Datetime`: whether the text is a date-time.
#[verifier::external_body]
fn is_datetime_text(text: &str) -> (yes: bool)
    ensures
        yes == datetime_text(text@),
{
    text.parse().map(::toml::Value::Datetime).is_ok()
}

/// Whether every number in `t` that is held as text is held as the text of
/// a number, and every date-time as the text of a date-time.
pub open spec fn literals_hold(t: Tree) -> bool
    decreases t,
{
    match t {
        Tree::Float(s) => float_text(s),
        Tree::Datetime(s) => datetime_text(s),
        Tree::Sequence(items) => forall|i: int|
            0 <= i < items.len() ==> literals_hold(#[trigger] items[i]),
        Tree::Mapping(entries) => forall|i: int|
            0 <= i < entries.len() ==> literals_hold((#[trigger] entries[i]).1),
        _ => true,
    }
}

/// The cause given where a value is to be written that holds, as a number
/// or as a date-time, text that is none.
pub open spec fn bad_literal() -> Seq<char> {
    "a number or a date-time is held as text that is none"@
}

/// The cause given where a value is to be written that holds, as a number
/// or as a date-time, text that is none.
pub fn bad_literal_cause() -> (cause: String)
    ensures
        cause@ == bad_literal(),
{
    String::from_str("a number or a date-time is held as text that is none")
}

/// Whether every number in `value` that is held as text is held as the text
/// of a number, and every date-time as the text of a date-time.
pub fn has_literals(value: &Node) -> (yes: bool)
    ensures
        yes == literals_hold(value@),
    decreases value,
{
    match value {
        Node::Float(s) => is_float_text(s.as_str()),
        Node::Datetime(s) => is_datetime_text(s.as_str()),
        Node::Null => true,
        Node::Bool(_) => true,
        Node::Integer(_) => true,
        Node::String(_) => true,
        Node::Sequence(items) => {
            let mut i: usize = 0;
            while i < items.len()
                invariant
                    i <= items.len(),
                    value@ is Sequence,
                    value@->Sequence_0.len() == items@.len(),
                    forall|k: int|
                        0 <= k < items@.len() ==> (#[trigger] value@->Sequence_0[k]) == items@[k]@,
                    decreases_to!(value => items),
                    forall|k: int| 0 <= k < i ==> literals_hold(#[trigger] value@->Sequence_0[k]),
                decreases items.len() - i,
            {
                proof {
                    vstd::std_specs::vec::axiom_vec_index_decreases(*items, i as int);
                }
                if !has_literals(&items[i]) {
                    assert(!literals_hold(value@->Sequence_0[i as int]));
                    return false;
                }
                i = i + 1;
            }
            true
        },
        Node::Mapping(entries) => {
            let mut i: usize = 0;
            while i < entries.len()
                invariant
                    i <= entries.len(),
                    value@ is Mapping,
                    value@->Mapping_0.len() == entries@.len(),
                    forall|k: int|
                        0 <= k < entries@.len() ==> (#[trigger] value@->Mapping_0[k]) == (
                            entries@[k].0@,
                            entries@[k].1@,
                        ),
                    decreases_to!(value => entries),
                    forall|k: int|
                        0 <= k < i ==> literals_hold((#[trigger] value@->Mapping_0[k]).1),
                decreases entries.len() - i,
            {
                proof {
                    vstd::std_specs::vec::axiom_vec_index_decreases(*entries, i as int);
                }
                if !has_literals(&entries[i].1) {
                    assert(!literals_hold(value@->Mapping_0[i as int].1));
                    return false;
                }
                i = i + 1;
            }
            true
        },
    }
}

} // verus!
