use frontmatter::errors::Error;
use frontmatter::format::Format;

#[test]
fn name_and_delimiter_of_each_format() {
    assert_eq!(Format::Toml.name(), "toml");
    assert_eq!(Format::Yaml.name(), "yaml");
    assert_eq!(Format::Toml.delimiter(), "+++");
    assert_eq!(Format::Yaml.delimiter(), "---");
}

#[test]
fn from_delim_knows_the_two_tokens() {
    assert_eq!(Format::from_delim("+++"), Ok(Format::Toml));
    assert_eq!(Format::from_delim("---"), Ok(Format::Yaml));
    assert_eq!(Format::from_delim("+++ "), Err(Error::FormatName("+++ ".to_string())));
    assert_eq!(Format::from_delim(""), Err(Error::FormatName(String::new())));
}

#[test]
fn from_str_ignores_ascii_case() {
    assert_eq!(Format::from_str("toml"), Ok(Format::Toml));
    assert_eq!(Format::from_str("YAML"), Ok(Format::Yaml));
    assert_eq!(Format::from_str("ToMl"), Ok(Format::Toml));
}

#[test]
fn from_str_rejects_xml() {
    assert_eq!(Format::from_str("xml"), Err(Error::FormatName("xml".to_string())));
    assert_eq!(Format::from_str("XML"), Err(Error::FormatName("xml".to_string())));
}
