use frontmatter::errors::Error;
use frontmatter::format::toml;
use frontmatter::format::yaml;
use frontmatter::value::Node;

fn text(s: &str) -> Node {
    Node::String(s.to_string())
}

fn entry(k: &str, v: Node) -> (String, Node) {
    (k.to_string(), v)
}

#[test]
fn toml_deserialize_reads_every_kind() {
    let doc = "b = true\nd = 1979-05-27T07:32:00Z\nf = 1.5\ng = 2.0\nn = -3\ns = \"x\"\nv = [1, 2]\n\n[t]\nk = \"v\"\n";
    let got = toml::deserialize(doc);
    let want = Node::Mapping(vec![
        entry("b", Node::Bool(true)),
        entry("d", text("1979-05-27T07:32:00Z")),
        entry("f", Node::Float("1.5".to_string())),
        entry("g", Node::Float("2".to_string())),
        entry("n", Node::Integer(-3)),
        entry("s", text("x")),
        entry("t", Node::Mapping(vec![entry("k", text("v"))])),
        entry("v", Node::Sequence(vec![Node::Integer(1), Node::Integer(2)])),
    ]);
    assert_eq!(got, Ok(want));
}

#[test]
fn toml_deserialize_turns_date_times_into_text_at_any_depth() {
    let got = toml::deserialize("d = 1979-05-27T07:32:00Z\n");
    assert_eq!(got, Ok(Node::Mapping(vec![entry("d", text("1979-05-27T07:32:00Z"))])));
    let got = toml::deserialize("[t]\nd = 1979-05-27T07:32:00Z\nv = [07:32:00, 1979-05-27]\n");
    let want = Node::Mapping(vec![entry(
        "t",
        Node::Mapping(vec![
            entry("d", text("1979-05-27T07:32:00Z")),
            entry("v", Node::Sequence(vec![text("07:32:00"), text("1979-05-27")])),
        ]),
    )]);
    assert_eq!(got, Ok(want));
}

#[test]
fn toml_deserialize_gives_a_table() {
    assert_eq!(toml::deserialize(""), Ok(Node::Mapping(vec![])));
    assert_eq!(
        toml::deserialize("\"$__toml_private_datetime\" = \"1979-05-27\"\n"),
        Err(Error::Deserialization("the document is no table".to_string()))
    );
}

#[test]
fn toml_deserialize_orders_keys() {
    let got = toml::deserialize("z = 1\na = 2\n");
    let want = Node::Mapping(vec![entry("a", Node::Integer(2)), entry("z", Node::Integer(1))]);
    assert_eq!(got, Ok(want));
}

#[test]
fn toml_deserialize_rejects_bad_text() {
    assert_eq!(
        toml::deserialize("a = \n"),
        Err(Error::Deserialization("expected a value, found a newline at line 1 column 5".to_string()))
    );
}

#[test]
fn toml_serialize_writes_values_before_tables() {
    let v = Node::Mapping(vec![
        entry("t", Node::Mapping(vec![entry("k", Node::Integer(1))])),
        entry("title", text("x")),
        entry("z", Node::Float("1".to_string())),
    ]);
    assert_eq!(toml::serialize(&v), Ok("title = \"x\"\nz = 1.0\n\n[t]\nk = 1\n".to_string()));
}

#[test]
fn toml_serialize_of_empty_mapping_is_empty() {
    assert_eq!(toml::serialize(&Node::Mapping(vec![])), Ok(String::new()));
}

#[test]
fn toml_serialize_refuses_null() {
    let v = Node::Mapping(vec![entry("a", Node::Sequence(vec![Node::Null]))]);
    assert_eq!(toml::serialize(&v), Err(Error::Serialization("TOML has no null value".to_string())));
}

#[test]
fn toml_serialize_refuses_text_that_is_no_number() {
    let v = Node::Mapping(vec![entry("a", Node::Float("abc".to_string()))]);
    let cause = "a number or a date-time is held as text that is none".to_string();
    assert_eq!(toml::serialize(&v), Err(Error::Serialization(cause.clone())));
    let v = Node::Mapping(vec![entry("a", Node::Sequence(vec![Node::Datetime("abc".to_string())]))]);
    assert_eq!(toml::serialize(&v), Err(Error::Serialization(cause)));
}

#[test]
fn toml_serialize_keeps_date_time() {
    let v = Node::Mapping(vec![entry("a", Node::Datetime("1979-05-27T07:32:00Z".to_string()))]);
    assert_eq!(toml::serialize(&v), Ok("a = 1979-05-27T07:32:00Z\n".to_string()));
}

#[test]
fn yaml_deserialize_reads_every_kind() {
    let got = yaml::deserialize("---\ntitle: x\nk: [1, 2.5, ~, true]\nm:\n  a: -1\n");
    let want = Node::Mapping(vec![
        entry("title", text("x")),
        entry(
            "k",
            Node::Sequence(vec![
                Node::Integer(1),
                Node::Float("2.5".to_string()),
                Node::Null,
                Node::Bool(true),
            ]),
        ),
        entry("m", Node::Mapping(vec![entry("a", Node::Integer(-1))])),
    ]);
    assert_eq!(got, Ok(want));
}

#[test]
fn yaml_deserialize_keeps_the_order_of_keys() {
    let got = yaml::deserialize("z: 1\na: 2\n");
    let want = Node::Mapping(vec![entry("z", Node::Integer(1)), entry("a", Node::Integer(2))]);
    assert_eq!(got, Ok(want));
}

#[test]
fn yaml_empty_document_is_the_empty_mapping() {
    assert_eq!(yaml::deserialize("---\n\n"), Ok(Node::Mapping(vec![])));
    assert_eq!(yaml::deserialize("---\n"), Ok(Node::Mapping(vec![])));
    assert_eq!(yaml::deserialize("---\n{}\n"), Ok(Node::Mapping(vec![])));
}

#[test]
fn yaml_deserialize_rejects_what_a_node_cannot_hold() {
    let cause = "a key that is no string, or an integer beyond 64 bits".to_string();
    assert_eq!(yaml::deserialize("1: a\n"), Err(Error::Deserialization(cause.clone())));
    assert_eq!(
        yaml::deserialize("a: 18446744073709551615\n"),
        Err(Error::Deserialization(cause))
    );
}

#[test]
fn yaml_deserialize_rejects_bad_text() {
    assert_eq!(yaml::deserialize(""), Err(Error::Deserialization("EOF while parsing a value".to_string())));
    assert!(matches!(yaml::deserialize("a: [\n"), Err(Error::Deserialization(_))));
}

#[test]
fn yaml_serialize_starts_the_document() {
    let v = Node::Mapping(vec![
        entry("title", text("x")),
        entry("f", Node::Float("1".to_string())),
        entry("n", Node::Null),
        entry("k", Node::Sequence(vec![Node::Integer(1), Node::Bool(false)])),
    ]);
    assert_eq!(
        yaml::serialize(&v),
        Ok("---\ntitle: x\nf: 1.0\nn: ~\nk:\n  - 1\n  - false\n".to_string())
    );
}

#[test]
fn yaml_serialize_of_empty_mapping_is_a_document() {
    assert_eq!(yaml::serialize(&Node::Mapping(vec![])), Ok("---\n\n".to_string()));
    assert_eq!(yaml::serialize(&Node::Sequence(vec![])), Ok("---\n[]\n".to_string()));
}

#[test]
fn yaml_serialize_refuses_date_time() {
    let v = Node::Mapping(vec![entry("d", Node::Datetime("1979-05-27".to_string()))]);
    assert_eq!(
        yaml::serialize(&v),
        Err(Error::Serialization("YAML has no native date-time".to_string()))
    );
}

#[test]
fn yaml_serialize_refuses_text_that_is_no_number() {
    let v = Node::Mapping(vec![entry("a", Node::Float("abc".to_string()))]);
    let cause = "a number or a date-time is held as text that is none".to_string();
    assert_eq!(yaml::serialize(&v), Err(Error::Serialization(cause)));
    let v = Node::Mapping(vec![entry("a", Node::Float("inf".to_string()))]);
    assert_eq!(yaml::serialize(&v), Ok("---\na: .inf\n".to_string()));
}
