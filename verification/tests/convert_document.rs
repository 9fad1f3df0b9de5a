use frontmatter::convert::{assemble, convert};
use frontmatter::errors::Error;
use frontmatter::extract::extract;
use frontmatter::format::Format;

#[test]
fn toml_block_becomes_yaml_block() {
    let out = convert("+++\ntitle = \"x\"\n+++\nBody\n", Format::Yaml);
    assert_eq!(out, Ok(Some("---\ntitle: x\n---\nBody\n".to_string())));
}

#[test]
fn yaml_block_becomes_toml_block() {
    let out = convert("---\ntitle: x\n---\nBody\n", Format::Toml);
    assert_eq!(out, Ok(Some("+++\ntitle = \"x\"\n+++\nBody\n".to_string())));
}

#[test]
fn leading_blank_lines_are_not_kept() {
    let out = convert("\n  \n\t\n+++\ntitle = \"x\"\n+++\nBody\n", Format::Yaml);
    assert_eq!(out, Ok(Some("---\ntitle: x\n---\nBody\n".to_string())));
}

#[test]
fn document_in_target_format_is_left_alone() {
    assert_eq!(convert("---\ntitle: x\n---\nBody\n", Format::Yaml), Ok(None));
    assert_eq!(convert("+++\ntitle = \"x\"\n+++\nBody\n", Format::Toml), Ok(None));
    assert_eq!(convert("\n\n  +++ \nnot even closed", Format::Toml), Ok(None));
}

#[test]
fn blank_document_cannot_be_inferred() {
    assert_eq!(convert("", Format::Yaml), Err(Error::InferFormat));
    assert_eq!(convert("\n \n\t", Format::Toml), Err(Error::InferFormat));
    assert_eq!(convert("\n  \n\t\n", Format::Yaml), Err(Error::InferFormat));
}

#[test]
fn prose_first_line_cannot_be_inferred() {
    assert_eq!(convert("Hello\n+++\na = 1\n+++\n", Format::Yaml), Err(Error::InferFormat));
    assert_eq!(convert("++ +\n", Format::Yaml), Err(Error::InferFormat));
}

#[test]
fn unclosed_block_cannot_be_inferred() {
    assert_eq!(convert("+++\ntitle = \"x\"\nBody\n", Format::Yaml), Err(Error::InferFormat));
    assert_eq!(convert("+++", Format::Yaml), Err(Error::InferFormat));
}

#[test]
fn other_delimiter_does_not_close() {
    assert_eq!(convert("+++\ntitle = \"x\"\n---\nBody\n", Format::Yaml), Err(Error::InferFormat));
    let found = extract("+++\na = '''\n---\n'''\n+++\nBody\n", Format::Yaml).unwrap().unwrap();
    assert_eq!(found.matter.format, Format::Toml);
    assert_eq!(found.matter.text, "a = '''\n---\n'''\n");
    assert_eq!(found.rest, "\nBody\n");
}

#[test]
fn yaml_block_keeps_its_opening_line() {
    let found = extract("\n---\ntitle: x\n---\nBody\n", Format::Toml).unwrap().unwrap();
    assert_eq!(found.matter.format, Format::Yaml);
    assert_eq!(found.matter.text, "---\ntitle: x\n");
    assert_eq!(found.rest, "\nBody\n");
}

#[test]
fn toml_block_loses_its_opening_line() {
    let found = extract("  +++ anything\ntitle = \"x\"\n  +++\nBody\n", Format::Yaml).unwrap().unwrap();
    assert_eq!(found.matter.text, "title = \"x\"\n");
    assert_eq!(found.rest, "\nBody\n");
}

#[test]
fn rest_of_closing_line_is_kept() {
    let out = convert("+++\ntitle = \"x\"\n+++ end\nBody", Format::Yaml);
    assert_eq!(out, Ok(Some("---\ntitle: x\n--- end\nBody".to_string())));
}

#[test]
fn closing_delimiter_gets_its_line_feed() {
    let out = convert("+++\ntitle = \"x\"\n+++", Format::Yaml);
    assert_eq!(out, Ok(Some("---\ntitle: x\n---\n".to_string())));
    let out = convert("---\ntitle: x\n---", Format::Toml);
    assert_eq!(out, Ok(Some("+++\ntitle = \"x\"\n+++\n".to_string())));
    assert_eq!(assemble(Format::Toml, "a = 1\n", ""), "+++\na = 1\n+++\n");
    assert_eq!(assemble(Format::Yaml, "---\na: 1\n", ""), "---\na: 1\n---\n");
    assert_eq!(assemble(Format::Yaml, "---\na: 1\n", " "), "---\na: 1\n--- ");
}

#[test]
fn body_is_kept_byte_for_byte() {
    let body = "\n\n# Title\r\n\ttext \u{00e9}\u{4e2d}\n+++\n---\n";
    let doc = format!("+++\na = 1\n+++{}", body);
    let out = convert(&doc, Format::Yaml).unwrap().unwrap();
    assert!(out.ends_with(body));
    assert_eq!(out, format!("---\na: 1\n---{}", body));
}

#[test]
fn empty_toml_block_becomes_empty_yaml_document() {
    let out = convert("+++\n+++\nBody\n", Format::Yaml);
    assert_eq!(out, Ok(Some("---\n\n---\nBody\n".to_string())));
    let back = convert("---\n\n---\nBody\n", Format::Toml);
    assert_eq!(back, Ok(Some("+++\n+++\nBody\n".to_string())));
}

#[test]
fn bad_block_is_a_deserialization_error() {
    let out = convert("+++\ntitle = \n+++\nBody\n", Format::Yaml);
    assert!(matches!(out, Err(Error::Deserialization(_))));
    let out = convert("---\na: [\n---\nBody\n", Format::Toml);
    assert!(matches!(out, Err(Error::Deserialization(_))));
}

#[test]
fn null_has_no_toml_form() {
    let out = convert("---\na: ~\n---\n", Format::Toml);
    assert_eq!(out, Err(Error::Serialization("TOML has no null value".to_string())));
}

#[test]
fn date_time_becomes_text_in_yaml() {
    let out = convert("+++\nd = 1979-05-27T07:32:00Z\n+++\n", Format::Yaml);
    assert_eq!(out, Ok(Some("---\nd: \"1979-05-27T07:32:00Z\"\n---\n".to_string())));
}

#[test]
fn date_time_below_the_top_becomes_text_too() {
    let out = convert("+++\n[t]\nd = 1979-05-27T07:32:00Z\n+++\n", Format::Yaml);
    assert_eq!(out, Ok(Some("---\nt:\n  d: \"1979-05-27T07:32:00Z\"\n---\n".to_string())));
}

#[test]
fn assemble_puts_the_parts_together() {
    assert_eq!(assemble(Format::Toml, "a = 1\n", "\nBody"), "+++\na = 1\n+++\nBody");
    assert_eq!(assemble(Format::Yaml, "---\na: 1\n", "\nBody"), "---\na: 1\n---\nBody");
}

#[test]
fn round_trip_gives_the_document_back() {
    let doc = "+++\nn = 3\nname = \"x\"\nratio = 1.5\ntags = [\"a\", \"b\"]\n\n[owner]\nok = true\n+++\nBody\n";
    let yaml = convert(doc, Format::Yaml).unwrap().unwrap();
    let back = convert(&yaml, Format::Toml).unwrap().unwrap();
    assert_eq!(back, doc);
}

#[test]
fn converted_document_is_in_the_target_format() {
    let yaml = convert("\n+++\ntitle = \"x\"\n+++\nBody\n", Format::Yaml).unwrap().unwrap();
    assert!(yaml.starts_with("---\n"));
    assert_eq!(convert(&yaml, Format::Yaml), Ok(None));
    let toml = convert(&yaml, Format::Toml).unwrap().unwrap();
    assert!(toml.starts_with("+++\n"));
    assert_eq!(convert(&toml, Format::Toml), Ok(None));
}

#[test]
fn extract_says_when_there_is_nothing_to_do() {
    assert_eq!(extract("", Format::Toml), Err(Error::InferFormat));
    assert_eq!(extract(" \n\n", Format::Toml), Err(Error::InferFormat));
    assert_eq!(extract("---\na: 1\n---\n", Format::Yaml), Ok(None));
    assert_eq!(extract("text\n", Format::Yaml), Err(Error::InferFormat));
    assert_eq!(extract("---\na: 1\n", Format::Toml), Err(Error::InferFormat));
}

#[test]
fn delimiter_counts_only_at_the_start_of_a_line() {
    let found = extract("+++\na = \"+++\"\nb = 1 # +++\n \t+++\n", Format::Yaml).unwrap().unwrap();
    assert_eq!(found.matter.text, "a = \"+++\"\nb = 1 # +++\n");
    assert_eq!(found.rest, "\n");
}
