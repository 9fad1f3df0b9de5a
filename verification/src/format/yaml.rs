use ::serde_yaml::Value as Yaml;
use crate::errors::{Error, Failure};
use crate::text::said;
use crate::format::Format;
use crate::literal::{bad_literal, bad_literal_cause, has_literals, literals_hold};
use crate::value::{distinct_keys, fits, fits_format, Node, Tree};
use vstd::prelude::*;
use vstd::string::StringExecFns;

verus! {

/// `serde_yaml::Value`, a value of a YAML document as the parser holds it.
#[verifier::external_type_specification]
#[verifier::external_body]
pub struct ExYamlValue(::serde_yaml::Value);

/// What `serde_yaml::from_str` makes of a text: the document it holds, or
/// the parser's message where the text is no YAML document. A document is
/// `None` where it holds what a [`Node`] has no place for: a key that is no
/// string, or an integer beyond 64 signed bits.
pub uninterp spec fn yaml_parsed(text: Seq<char>) -> Result<Option<Tree>, Seq<char>>;

/// What `serde_yaml::to_string` makes of a value that holds no date-time,
/// and as numbers only text that is one: its YAML text, or the serializer's
/// message where it has none.
pub uninterp spec fn yaml_written(tree: Tree) -> Result<Seq<char>, Seq<char>>;

/// A `serde_yaml::Value` that holds no other as a [`Node`], variant by
/// variant: a number that is a float by the text that `Display` gives the
/// float, any other number by `as_i64`. `None` where `as_i64` gives none.
#[verifier::external_body]
fn leaf_of_yaml(v: Yaml) -> Option<Node> {
    Some(match v {
        Yaml::Bool(b) => Node::Bool(b),
        Yaml::Number(n) if n.is_f64() => Node::Float(n.as_f64()?.to_string()),
        Yaml::Number(n) => Node::Integer(n.as_i64()?),
        Yaml::String(s) => Node::String(s),
        _ => Node::Null,
    })
}

/// A `serde_yaml::Value` as a [`Node`]: a sequence by its items, a mapping
/// by its entries in their order, each key by `as_str`, anything else as
/// [`leaf_of_yaml`] gives it. `None` where a key is no string or something
/// inside has no [`Node`].
#[verifier::external_body]
fn node_of_yaml(v: Yaml) -> Option<Node> {
    match v {
        Yaml::Sequence(a) => a.into_iter().map(node_of_yaml).collect::<Option<_>>().map(Node::Sequence),
        Yaml::Mapping(m) => m.into_iter().map(
            |(k, x)| Some((k.as_str()?.into(), node_of_yaml(x)?)),
        ).collect::<Option<_>>().map(Node::Mapping),
        _ => leaf_of_yaml(v),
    }
}

/// A [`Node`] that holds no other as a `serde_yaml::Value`, variant by
/// variant: a float by `from_str` on its text, whose refusal is handed on as
/// its message and whose result `toml::Value::Float` and `as_float` carry
/// through. [`write`] hands over no value on which it refuses, and none with
/// a date-time, for which YAML has no variant.
#[verifier::external_body]
fn yaml_of_leaf(v: &Node) -> Result<Yaml, String> {
    Ok(match v {
        Node::Bool(b) => Yaml::Bool(*b),
        Node::Integer(i) => Yaml::Number((*i).into()),
        Node::Float(s) => ::toml::Value::Float(s.parse().map_err(said)?).as_float().unwrap_or_default().into(),
        Node::String(s) => Yaml::String(s.clone()),
        _ => Yaml::Null,
    })
}

/// A [`Node`] as a `serde_yaml::Value`: a sequence by its items, a mapping
/// by collecting its entries in their order, each key a string, anything
/// else as [`yaml_of_leaf`] gives it.
#[verifier::external_body]
fn yaml_of_node(v: &Node) -> Result<Yaml, String> {
    match v {
        Node::Sequence(a) => a.iter().map(yaml_of_node).collect::<Result<_, _>>().map(Yaml::Sequence),
        Node::Mapping(m) => m.iter().map(
            |(k, x)| Ok((k.as_str().into(), yaml_of_node(x)?)),
        ).collect::<Result<_, _>>().map(Yaml::Mapping),
        _ => yaml_of_leaf(v),
    }
}

/// `serde_yaml::from_str` for a whole document, handed back as a [`Node`]
/// where it has one; the parser's refusal as the message that its `Display`
/// gives. A mapping holds each key once.
#[verifier::external_body]
fn parse(text: &str) -> (r: Result<Option<Node>, String>)
    ensures
        match yaml_parsed(text@) {
            Ok(Some(t)) => r is Ok && r->Ok_0 is Some && r->Ok_0->Some_0@ == t,
            Ok(None) => r is Ok && r->Ok_0 is None,
            Err(m) => r is Err && r->Err_0@ == m,
        },
        r is Ok && r->Ok_0 is Some ==> distinct_keys(r->Ok_0->Some_0@),
{
    match ::serde_yaml::from_str::<Yaml>(text) {
        Ok(v) => Ok(node_of_yaml(v)),
        Err(e) => Err(said(e)),
    }
}

/// `serde_yaml::to_string` on a value that holds no date-time, and as
/// numbers only text that is one; a refusal as the message that its
/// `Display` gives. The text it writes starts with the line of the document
/// start and ends with a line feed.
#[verifier::external_body]
fn write(value: &Node) -> (r: Result<String, String>)
    requires
        fits(value@, Format::Yaml),
        literals_hold(value@),
    ensures
        match yaml_written(value@) {
            Ok(t) => r is Ok && r->Ok_0@ == t,
            Err(m) => r is Err && r->Err_0@ == m,
        },
        r is Ok ==> is_document(r->Ok_0@),
{
    ::serde_yaml::to_string(&yaml_of_node(value)?).map_err(said)
}

/// The cause given where a YAML document holds what a [`Node`] cannot.
pub open spec fn not_held() -> Seq<char> {
    "a key that is no string, or an integer beyond 64 bits"@
}

/// The cause given where a value that holds a date-time is to be written as
/// YAML.
pub open spec fn no_datetime() -> Seq<char> {
    "YAML has no native date-time"@
}

/// The line that starts a YAML document.
pub open spec fn document_start() -> Seq<char> {
    seq!['-', '-', '-', '\n']
}

/// Whether `text` starts with the line that starts a YAML document.
pub open spec fn starts_document(text: Seq<char>) -> bool {
    document_start().is_prefix_of(text)
}

/// Whether `text` ends with a line feed.
pub open spec fn ends_line(text: Seq<char>) -> bool {
    text.len() > 0 && text[text.len() - 1] == '\n'
}

/// Whether `text` has the frame of a written YAML document: it starts with
/// the line of the document start and ends with a line feed.
pub open spec fn is_document(text: Seq<char>) -> bool {
    starts_document(text) && ends_line(text)
}

/// The text of a YAML document that holds nothing: the document start and
/// an empty line.
pub open spec fn empty_document() -> Seq<char> {
    seq!['-', '-', '-', '\n', '\n']
}

/// The mapping without entries.
pub open spec fn empty_mapping() -> Tree {
    Tree::Mapping(Seq::empty())
}

/// What reading `text` as a YAML document gives. A document that holds
/// nothing at all is the mapping without entries.
pub open spec fn read(text: Seq<char>) -> Result<Tree, Failure> {
    match yaml_parsed(text) {
        Ok(Some(t)) => Ok(
            if t is Null {
                empty_mapping()
            } else {
                t
            },
        ),
        Ok(None) => Err(Failure::Deserialization(not_held())),
        Err(m) => Err(Failure::Deserialization(m)),
    }
}

/// What writing `tree` as a YAML document gives.
pub open spec fn written(tree: Tree) -> Result<Seq<char>, Failure> {
    if !fits(tree, Format::Yaml) {
        Err(Failure::Serialization(no_datetime()))
    } else if !literals_hold(tree) {
        Err(Failure::Serialization(bad_literal()))
    } else if tree == empty_mapping() {
        Ok(empty_document())
    } else {
        match yaml_written(tree) {
            Ok(t) => Ok(t),
            Err(m) => Err(Failure::Serialization(m)),
        }
    }
}

/// The value of the YAML document `s`; a document that holds nothing, or a
/// null alone, is the mapping without entries. A text that is no YAML
/// document is an error that carries the parser's message, and so is one
/// with a key that is no string or an integer beyond 64 signed bits.
pub fn deserialize(s: &str) -> (r: Result<Node, Error>)
    ensures
        match read(s@) {
            Ok(t) => r is Ok && r->Ok_0@ == t,
            Err(f) => r is Err && r->Err_0@ == f,
        },
        r is Ok ==> distinct_keys(r->Ok_0@),
{
    match parse(s) {
        Ok(Some(v)) => match v {
            Node::Null => {
                let r = Node::Mapping(Vec::new());
                assert(r@->Mapping_0 =~= Seq::empty());
                Ok(r)
            },
            _ => Ok(v),
        },
        Ok(None) => Err(
            Error::Deserialization(
                String::from_str("a key that is no string, or an integer beyond 64 bits"),
            ),
        ),
        Err(m) => Err(Error::Deserialization(m)),
    }
}

/// Whether `value` is the mapping without entries.
fn is_empty_mapping(value: &Node) -> (yes: bool)
    ensures
        yes == (value@ == empty_mapping()),
{
    match value {
        Node::Mapping(entries) => {
            let yes = entries.len() == 0;
            proof {
                if yes {
                    assert(value@->Mapping_0 =~= Seq::empty());
                } else {
                    assert(value@->Mapping_0.len() > 0);
                }
            }
            yes
        },
        _ => false,
    }
}

/// The YAML text of `value`, which starts with the line of the document
/// start and ends with a line feed. The mapping without entries is written as the document start and
/// an empty line. A value that holds a native date-time anywhere has no YAML
/// text, nor has one that holds as a number text that is none; what the
/// serializer refuses is an error that carries its message.
pub fn serialize(value: &Node) -> (r: Result<String, Error>)
    ensures
        match written(value@) {
            Ok(t) => r is Ok && r->Ok_0@ == t,
            Err(f) => r is Err && r->Err_0@ == f,
        },
        r is Ok ==> is_document(r->Ok_0@),
{
    if !fits_format(value, Format::Yaml) {
        return Err(Error::Serialization(String::from_str("YAML has no native date-time")));
    }
    if !has_literals(value) {
        return Err(Error::Serialization(bad_literal_cause()));
    }
    if is_empty_mapping(value) {
        proof {
            reveal_strlit("---\n\n");
            assert("---\n\n"@ =~= empty_document());
            assert(empty_document().subrange(0, 4) =~= document_start());
            assert(empty_document()[4] == '\n');
        }
        return Ok(String::from_str("---\n\n"));
    }
    match write(value) {
        Ok(t) => Ok(t),
        Err(m) => Err(Error::Serialization(m)),
    }
}

} // verus!
