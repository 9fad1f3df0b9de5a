use frontmatter::errors::Error;
use frontmatter::format::Format;
use frontmatter::markdown::is_markdown;
use frontmatter::matter::{
    convert_text, convert_to, deserialize, serialize, FrontMatter, ToFormat, TomlMatter,
    YamlMatter,
};
use frontmatter::value::{fits_format, map_value, Node};
use std::str::FromStr;

fn entry(k: &str, v: Node) -> (String, Node) {
    (k.to_string(), v)
}

#[test]
fn front_matter_converts_by_its_own_format() {
    let m = FrontMatter::new(Format::Toml, "title = \"x\"\n".to_string());
    let y = m.convert_to(Format::Yaml).unwrap();
    assert_eq!(y.format, Format::Yaml);
    assert_eq!(y.text, "---\ntitle: x\n");
    let t = y.convert_to(Format::Toml).unwrap();
    assert_eq!(t.format, Format::Toml);
    assert_eq!(t.text, "title = \"x\"\n");
}

#[test]
fn front_matter_is_written_anew_in_its_own_format() {
    let m = FrontMatter::new(Format::Toml, "z = 1\na   =   2\n".to_string());
    assert_eq!(m.convert_to(Format::Toml).unwrap().text, "a = 2\nz = 1\n");
    assert_eq!(m.to_toml(), Ok("a = 2\nz = 1\n".to_string()));
    assert_eq!(m.to_yaml(), Ok("---\na: 2\nz: 1\n".to_string()));
}

#[test]
fn front_matter_in_the_wrong_format_fails_to_read() {
    let m = FrontMatter::new(Format::Toml, "title: x\n".to_string());
    assert!(matches!(m.convert_to(Format::Yaml), Err(Error::Deserialization(_))));
    assert!(matches!(m.deserialize("a = "), Err(Error::Deserialization(_))));
    assert_eq!(m.deserialize("a = 1"), Ok(Node::Mapping(vec![entry("a", Node::Integer(1))])));
}

#[test]
fn matter_in_its_own_format_is_handed_back() {
    let t = TomlMatter("this is = not even toml".to_string());
    assert_eq!(t.to_toml(), Ok("this is = not even toml".to_string()));
    assert_eq!(t.to(Format::Toml), Ok("this is = not even toml".to_string()));
    let y = YamlMatter("a: [".to_string());
    assert_eq!(y.to_yaml(), Ok("a: [".to_string()));
}

#[test]
fn matter_in_the_other_format_is_converted() {
    let t = TomlMatter("title = \"x\"\n".to_string());
    assert_eq!(t.to_yaml(), Ok("---\ntitle: x\n".to_string()));
    assert_eq!(t.to(Format::Yaml), Ok("---\ntitle: x\n".to_string()));
    assert_eq!(
        TomlMatter("d = 1979-05-27\n".to_string()).to_yaml(),
        Ok("---\nd: 1979-05-27\n".to_string())
    );
    let y = YamlMatter("---\ntitle: x\n".to_string());
    assert_eq!(y.to_toml(), Ok("title = \"x\"\n".to_string()));
    assert_eq!(TomlMatter(String::new()).to_yaml(), Ok("---\n\n".to_string()));
}

#[test]
fn front_matter_of_a_format_dispatches() {
    let m = Format::Toml.front_matter("a = 1\n");
    assert_eq!(m.to(Format::Yaml), Ok("---\na: 1\n".to_string()));
    assert_eq!(m.to_toml(), Ok("a = 1\n".to_string()));
    let m = Format::Yaml.front_matter("a: 1\n");
    assert_eq!(m.to_toml(), Ok("a = 1\n".to_string()));
    assert_eq!(m.to_yaml(), Ok("a: 1\n".to_string()));
}

#[test]
fn convert_to_goes_from_source_to_destination() {
    assert_eq!(convert_to("a = 1\n", Format::Toml, Format::Yaml), Ok("---\na: 1\n".to_string()));
    assert_eq!(convert_to("a: 1\n", Format::Yaml, Format::Toml), Ok("a = 1\n".to_string()));
    assert_eq!(convert_to("a = 1\n", Format::Toml, Format::Toml), Ok("a = 1\n".to_string()));
    assert!(matches!(
        convert_to("a = ", Format::Toml, Format::Yaml),
        Err(Error::Deserialization(_))
    ));
}

#[test]
fn convert_text_reads_maps_and_writes() {
    assert_eq!(
        convert_text("d = 1979-05-27\n", Format::Toml, Format::Yaml),
        Ok("---\nd: 1979-05-27\n".to_string())
    );
    assert_eq!(
        convert_text("d = 1979-05-27\n", Format::Toml, Format::Toml),
        Ok("d = \"1979-05-27\"\n".to_string())
    );
    assert_eq!(
        convert_text("a: ~\n", Format::Yaml, Format::Toml),
        Err(Error::Serialization("TOML has no null value".to_string()))
    );
}

#[test]
fn deserialize_and_serialize_go_by_format() {
    let v = Node::Mapping(vec![entry("a", Node::Integer(1))]);
    assert_eq!(deserialize(Format::Toml, "a = 1"), Ok(Node::Mapping(vec![entry("a", Node::Integer(1))])));
    assert_eq!(deserialize(Format::Yaml, "a: 1"), Ok(Node::Mapping(vec![entry("a", Node::Integer(1))])));
    assert_eq!(serialize(Format::Toml, &v), Ok("a = 1\n".to_string()));
    assert_eq!(serialize(Format::Yaml, &v), Ok("---\na: 1\n".to_string()));
}

#[test]
fn map_value_turns_date_times_into_text_for_yaml() {
    let v = Node::Mapping(vec![
        entry("d", Node::Datetime("1979-05-27".to_string())),
        entry(
            "s",
            Node::Sequence(vec![Node::Datetime("07:32:00".to_string()), Node::Null, Node::Integer(1)]),
        ),
        entry("m", Node::Mapping(vec![entry("f", Node::Float("1.5".to_string()))])),
    ]);
    let want = Node::Mapping(vec![
        entry("d", Node::String("1979-05-27".to_string())),
        entry(
            "s",
            Node::Sequence(vec![Node::String("07:32:00".to_string()), Node::Null, Node::Integer(1)]),
        ),
        entry("m", Node::Mapping(vec![entry("f", Node::Float("1.5".to_string()))])),
    ]);
    let mapped = map_value(&v, Format::Toml, Format::Yaml);
    assert_eq!(mapped, want);
    assert_eq!(map_value(&mapped, Format::Toml, Format::Yaml), want);
    assert_eq!(map_value(&mapped, Format::Yaml, Format::Toml), want);
    assert_eq!(map_value(&v, Format::Toml, Format::Toml), v);
}

#[test]
fn fits_format_finds_what_a_format_lacks() {
    let with_null = Node::Sequence(vec![Node::Mapping(vec![entry("a", Node::Null)])]);
    let with_date = Node::Mapping(vec![entry("a", Node::Sequence(vec![Node::Datetime("x".to_string())]))]);
    assert!(!fits_format(&with_null, Format::Toml));
    assert!(fits_format(&with_null, Format::Yaml));
    assert!(fits_format(&with_date, Format::Toml));
    assert!(!fits_format(&with_date, Format::Yaml));
    assert!(fits_format(&Node::Integer(1), Format::Toml));
    assert!(fits_format(&Node::Integer(1), Format::Yaml));
}

#[test]
fn format_parses_through_from_str() {
    assert_eq!("Yaml".parse::<Format>(), Ok(Format::Yaml));
    assert_eq!(<Format as FromStr>::from_str("toml"), Ok(Format::Toml));
    assert_eq!("json".parse::<Format>(), Err(Error::FormatName("json".to_string())));
}

#[test]
fn error_messages() {
    assert_eq!(Error::Serialization("x".to_string()).message(), "Any errors occurred during serialization");
    assert_eq!(Error::Deserialization("x".to_string()).message(), "Any errors occurred during deserialization");
    assert_eq!(Error::FormatName("xml".to_string()).message(), "Unsupported format name. name:xml");
    assert_eq!(Error::InferFormat.message(), "Cannot infer format. Please specify either FILE or FORMAT");
    assert_eq!(Error::Deserialization("why".to_string()).detail(), "why");
    assert_eq!(Error::InferFormat.detail(), "");
}

#[test]
fn markdown_names() {
    assert!(is_markdown("post.md"));
    assert!(is_markdown("post.markdown"));
    assert!(is_markdown("a.b.md"));
    assert!(!is_markdown(".md"));
    assert!(!is_markdown(".hidden.md"));
    assert!(!is_markdown("post.MD"));
    assert!(!is_markdown("post.txt"));
    assert!(!is_markdown("md"));
    assert!(!is_markdown(""));
    assert!(!is_markdown("post.md.bak"));
}
