use ::toml::Value as Toml;
use crate::errors::{Error, Failure};
use crate::text::said;
use crate::format::Format;
use crate::literal::{bad_literal, bad_literal_cause, has_literals, literals_hold};
use crate::value::{
    distinct_keys, fits, fits_format, lemma_map_keeps_keys, lemma_mapped_fits_yaml, map_tree,
    map_value, Node, Tree,
};
use vstd::prelude::*;
use vstd::string::StringExecFns;

verus! {

/// `toml::Value`, a value of a TOML document as the parser holds it.
#[verifier::external_type_specification]
#[verifier::external_body]
pub struct ExTomlValue(::toml::Value);

/// What `toml::from_str` makes of a text: the document it holds, or the
/// parser's message where the text is no TOML document.
pub uninterp spec fn toml_parsed(text: Seq<char>) -> Result<Tree, Seq<char>>;

/// What `toml::to_string` makes of a value that holds no null, and as
/// numbers and date-times only text that is one: its TOML text, or the
/// serializer's message where it has none.
pub uninterp spec fn toml_written(tree: Tree) -> Result<Seq<char>, Seq<char>>;

/// A `toml::Value` as a [`Node`], variant by variant: a float and a
/// date-time by the text that `Display` gives them, a table by its entries in
/// the order in which it hands them out.
#[verifier::external_body]
fn node_of_toml(v: Toml) -> Node {
    match v {
        Toml::String(s) => Node::String(s),
        Toml::Integer(i) => Node::Integer(i),
        Toml::Float(f) => Node::Float(f.to_string()),
        Toml::Boolean(b) => Node::Bool(b),
        Toml::Datetime(d) => Node::Datetime(d.to_string()),
        Toml::Array(a) => Node::Sequence(a.into_iter().map(node_of_toml).collect()),
        Toml::Table(t) => Node::Mapping(
            t.into_iter().map(|(k, x)| (k, node_of_toml(x))).collect(),
        ),
    }
}

/// A [`Node`] that holds no other as a `toml::Value`, variant by variant: a
/// float and a date-time by `from_str` on their text, whose refusal is handed
/// on as its message. TOML has no null: there the refusal of
/// `toml::Value::try_from` is handed on. [`write`] hands over no value on
/// which either refuses.
#[verifier::external_body]
fn toml_of_leaf(v: &Node) -> Result<Toml, String> {
    Ok(match v {
        Node::Bool(b) => Toml::Boolean(*b),
        Node::Integer(i) => Toml::Integer(*i),
        Node::Float(s) => Toml::Float(s.parse().map_err(said)?),
        Node::String(s) => Toml::String(s.clone()),
        Node::Datetime(s) => Toml::Datetime(s.parse().map_err(said)?),
        _ => Toml::try_from(()).map_err(said)?,
    })
}

/// A [`Node`] as a `toml::Value`: a sequence as an array of its items, a
/// mapping by collecting its entries into a table, which orders them by
/// key, anything else as [`toml_of_leaf`] gives it.
#[verifier::external_body]
fn toml_of_node(v: &Node) -> Result<Toml, String> {
    match v {
        Node::Sequence(a) => a.iter().map(toml_of_node).collect::<Result<_, _>>().map(Toml::Array),
        Node::Mapping(m) => m.iter().map(|(k, x)| Ok((k.clone(), toml_of_node(x)?))).collect::<
            Result<_, _>,
        >().map(Toml::Table),
        _ => toml_of_leaf(v),
    }
}

/// `toml::from_str` for a whole document, handed back as a [`Node`]; the
/// parser's refusal as the message that its `Display` gives. A table holds
/// each key once.
#[verifier::external_body]
fn parse(text: &str) -> (r: Result<Node, String>)
    ensures
        match toml_parsed(text@) {
            Ok(t) => r is Ok && r->Ok_0@ == t,
            Err(m) => r is Err && r->Err_0@ == m,
        },
        r is Ok ==> distinct_keys(r->Ok_0@),
{
    match ::toml::from_str::<Toml>(text) {
        Ok(v) => Ok(node_of_toml(v)),
        Err(e) => Err(said(e)),
    }
}

/// `toml::to_string` on a value that holds no null, and as numbers and
/// date-times only text that is one; a refusal as the message that its
/// `Display` gives.
#[verifier::external_body]
fn write(value: &Node) -> (r: Result<String, String>)
    requires
        fits(value@, Format::Toml),
        literals_hold(value@),
    ensures
        match toml_written(value@) {
            Ok(t) => r is Ok && r->Ok_0@ == t,
            Err(m) => r is Err && r->Err_0@ == m,
        },
{
    ::toml::to_string(&toml_of_node(value)?).map_err(said)
}

/// The cause given where the text of a TOML document is read as something
/// other than a table.
pub open spec fn no_table() -> Seq<char> {
    "the document is no table"@
}

/// What reading `text` as a TOML document gives: the table that the parser
/// reads, with every date-time in it, at any depth, as the text of that
/// date-time and all else as the parser read it.
pub open spec fn read(text: Seq<char>) -> Result<Tree, Failure> {
    match toml_parsed(text) {
        Ok(t) => if t is Mapping {
            Ok(map_tree(t, Format::Yaml))
        } else {
            Err(Failure::Deserialization(no_table()))
        },
        Err(m) => Err(Failure::Deserialization(m)),
    }
}

/// The cause given where a value that holds a null is to be written as TOML.
pub open spec fn no_null() -> Seq<char> {
    "TOML has no null value"@
}

/// What writing `tree` as a TOML document gives.
pub open spec fn written(tree: Tree) -> Result<Seq<char>, Failure> {
    if !fits(tree, Format::Toml) {
        Err(Failure::Serialization(no_null()))
    } else if !literals_hold(tree) {
        Err(Failure::Serialization(bad_literal()))
    } else {
        match toml_written(tree) {
            Ok(t) => Ok(t),
            Err(m) => Err(Failure::Serialization(m)),
        }
    }
}

/// A value read from a TOML document is a table and holds no native
/// date-time at any depth; it holds no key twice in a table where what the
/// parser read held none twice.
pub proof fn lemma_read(text: Seq<char>)
    requires
        read(text) is Ok,
    ensures
        read(text)->Ok_0 is Mapping,
        fits(read(text)->Ok_0, Format::Yaml),
        distinct_keys(toml_parsed(text)->Ok_0) ==> distinct_keys(read(text)->Ok_0),
{
    let t = toml_parsed(text)->Ok_0;
    lemma_mapped_fits_yaml(t);
    if distinct_keys(t) {
        lemma_map_keeps_keys(t, Format::Yaml);
    }
}

/// The value of the TOML document `s`: the table that the parser reads,
/// with every date-time in it, at any depth, turned into the text of that
/// date-time, and all else kept. A text that is no TOML document is an error
/// that carries the parser's message, and so is one that the parser reads as
/// something other than a table.
pub fn deserialize(s: &str) -> (r: Result<Node, Error>)
    ensures
        match read(s@) {
            Ok(t) => r is Ok && r->Ok_0@ == t,
            Err(f) => r is Err && r->Err_0@ == f,
        },
        r is Ok ==> r->Ok_0@ is Mapping && fits(r->Ok_0@, Format::Yaml) && distinct_keys(
            r->Ok_0@,
        ),
{
    match parse(s) {
        Ok(v) => match v {
            Node::Mapping(_) => {
                proof {
                    lemma_read(s@);
                }
                Ok(map_value(&v, Format::Toml, Format::Yaml))
            },
            _ => Err(Error::Deserialization(String::from_str("the document is no table"))),
        },
        Err(m) => Err(Error::Deserialization(m)),
    }
}

/// The TOML text of `value`. A value that holds a null anywhere has none,
/// nor has one that holds, as a number or as a date-time, text that is none;
/// what the serializer refuses is an error that carries its message.
pub fn serialize(value: &Node) -> (r: Result<String, Error>)
    ensures
        match written(value@) {
            Ok(t) => r is Ok && r->Ok_0@ == t,
            Err(f) => r is Err && r->Err_0@ == f,
        },
{
    if !fits_format(value, Format::Toml) {
        return Err(Error::Serialization(String::from_str("TOML has no null value")));
    }
    if !has_literals(value) {
        return Err(Error::Serialization(bad_literal_cause()));
    }
    match write(value) {
        Ok(t) => Ok(t),
        Err(m) => Err(Error::Serialization(m)),
    }
}

} // verus!
