use crate::errors::{Error, Failure};
use crate::format::Format;
use crate::value::{distinct_keys, fits, map_tree, map_value, Node, Tree};
use vstd::prelude::*;

verus! {

/// What reading `text` as a document of format `f` gives.
pub open spec fn read(f: Format, text: Seq<char>) -> Result<Tree, Failure> {
    match f {
        Format::Toml => crate::format::toml::read(text),
        Format::Yaml => crate::format::yaml::read(text),
    }
}

/// What writing `tree` as a document of format `f` gives.
pub open spec fn written(f: Format, tree: Tree) -> Result<Seq<char>, Failure> {
    match f {
        Format::Toml => crate::format::toml::written(tree),
        Format::Yaml => crate::format::yaml::written(tree),
    }
}

/// The block `text` of format `from` as a block of format `to`: read as
/// `from`, then mapped for `to`, then written as `to`. The first failure on
/// that way is the result.
pub open spec fn converted(text: Seq<char>, from: Format, to: Format) -> Result<
    Seq<char>,
    Failure,
> {
    match read(from, text) {
        Ok(tree) => written(to, map_tree(tree, to)),
        Err(f) => Err(f),
    }
}

/// The block `text` of format `from` for a reader of format `to`: itself
/// where the two are the same format, else converted.
pub open spec fn presented(text: Seq<char>, from: Format, to: Format) -> Result<
    Seq<char>,
    Failure,
> {
    if from == to {
        Ok(text)
    } else {
        converted(text, from, to)
    }
}

/// Whether `r` is the outcome that `expected` describes.
pub open spec fn is_text(r: Result<String, Error>, expected: Result<Seq<char>, Failure>) -> bool {
    match expected {
        Ok(t) => r is Ok && r->Ok_0@ == t,
        Err(f) => r is Err && r->Err_0@ == f,
    }
}

/// The value of the document `text` of format `f`.
pub fn deserialize(f: Format, text: &str) -> (r: Result<Node, Error>)
    ensures
        match read(f, text@) {
            Ok(t) => r is Ok && r->Ok_0@ == t,
            Err(e) => r is Err && r->Err_0@ == e,
        },
        r is Ok ==> distinct_keys(r->Ok_0@),
        f == Format::Toml && r is Ok ==> r->Ok_0@ is Mapping && fits(r->Ok_0@, Format::Yaml),
{
    match f {
        Format::Toml => crate::format::toml::deserialize(text),
        Format::Yaml => crate::format::yaml::deserialize(text),
    }
}

/// The text of `value` as a document of format `f`.
pub fn serialize(f: Format, value: &Node) -> (r: Result<String, Error>)
    ensures
        is_text(r, written(f, value@)),
        f == Format::Yaml && r is Ok ==> crate::format::yaml::is_document(r->Ok_0@),
{
    match f {
        Format::Toml => crate::format::toml::serialize(value),
        Format::Yaml => crate::format::yaml::serialize(value),
    }
}

/// The block `text` of format `from`, read, mapped and written as a block of
/// format `to`.
pub fn convert_text(text: &str, from: Format, to: Format) -> (r: Result<String, Error>)
    ensures
        is_text(r, converted(text@, from, to)),
        to == Format::Yaml && r is Ok ==> crate::format::yaml::is_document(r->Ok_0@),
{
    match deserialize(from, text) {
        Ok(value) => {
            let mapped = map_value(&value, from, to);
            serialize(to, &mapped)
        },
        Err(e) => Err(e),
    }
}

/// The text of a front-matter block with the format it is written in.
#[derive(Debug, PartialEq, Eq)]
pub struct FrontMatter {
    pub format: Format,
    pub text: String,
}

impl FrontMatter {
    /// The block `text`, taken to be written in `format`.
    pub fn new(format: Format, text: String) -> (m: FrontMatter)
        ensures
            m.format == format,
            m.text == text,
    {
        FrontMatter { format, text }
    }

    /// This block in `format`: read in its own format, mapped, and written
    /// anew, also where `format` is its own.
    pub fn convert_to(&self, format: Format) -> (r: Result<FrontMatter, Error>)
        ensures
            match converted(self.text@, self.format, format) {
                Ok(t) => r is Ok && r->Ok_0.format == format && r->Ok_0.text@ == t,
                Err(f) => r is Err && r->Err_0@ == f,
            },
            format == Format::Yaml && r is Ok ==> crate::format::yaml::is_document(
                r->Ok_0.text@,
            ),
    {
        let text = match format {
            Format::Toml => self.to_toml(),
            Format::Yaml => self.to_yaml(),
        };
        match text {
            Ok(text) => Ok(FrontMatter { text, format }),
            Err(e) => Err(e),
        }
    }

    /// This block as TOML text.
    pub fn to_toml(&self) -> (r: Result<String, Error>)
        ensures
            is_text(r, converted(self.text@, self.format, Format::Toml)),
    {
        convert_text(self.text.as_str(), self.format, Format::Toml)
    }

    /// This block as YAML text.
    pub fn to_yaml(&self) -> (r: Result<String, Error>)
        ensures
            is_text(r, converted(self.text@, self.format, Format::Yaml)),
            r is Ok ==> crate::format::yaml::is_document(r->Ok_0@),
    {
        convert_text(self.text.as_str(), self.format, Format::Yaml)
    }

    /// The value of `s`, read as a document of this block's format.
    pub fn deserialize(&self, s: &str) -> (r: Result<Node, Error>)
        ensures
            match read(self.format, s@) {
                Ok(t) => r is Ok && r->Ok_0@ == t,
                Err(e) => r is Err && r->Err_0@ == e,
            },
    {
        deserialize(self.format, s)
    }
}

/// A block of one fixed format that can be had in either format.
pub trait ToFormat {
    /// The format that the block is written in.
    spec fn source(&self) -> Format;

    /// The text of the block.
    spec fn block(&self) -> Seq<char>;

    /// The block as TOML: itself where it is TOML, else converted.
    fn to_toml(&self) -> (r: Result<String, Error>)
        ensures
            is_text(r, presented(self.block(), self.source(), Format::Toml)),
    ;

    /// The block as YAML: itself where it is YAML, else converted, and then
    /// a text that starts with the line of the document start and ends with
    /// a line feed.
    fn to_yaml(&self) -> (r: Result<String, Error>)
        ensures
            is_text(r, presented(self.block(), self.source(), Format::Yaml)),
            self.source() != Format::Yaml && r is Ok ==> crate::format::yaml::is_document(
                r->Ok_0@,
            ),
    ;

    /// The block in format `f`: itself where that is its format, else
    /// converted.
    fn to(&self, f: Format) -> (r: Result<String, Error>)
        ensures
            is_text(r, presented(self.block(), self.source(), f)),
            f == Format::Yaml && self.source() != Format::Yaml && r is Ok
                ==> crate::format::yaml::is_document(r->Ok_0@),
    {
        match f {
            Format::Toml => self.to_toml(),
            Format::Yaml => self.to_yaml(),
        }
    }
}

/// A block of TOML text.
#[derive(Debug, PartialEq, Eq)]
pub struct TomlMatter(pub String);

impl ToFormat for TomlMatter {
    open spec fn source(&self) -> Format {
        Format::Toml
    }

    open spec fn block(&self) -> Seq<char> {
        self.0@
    }

    fn to_toml(&self) -> (r: Result<String, Error>) {
        Ok(self.0.clone())
    }

    fn to_yaml(&self) -> (r: Result<String, Error>) {
        convert_text(self.0.as_str(), Format::Toml, Format::Yaml)
    }
}

/// A block of YAML text.
#[derive(Debug, PartialEq, Eq)]
pub struct YamlMatter(pub String);

impl ToFormat for YamlMatter {
    open spec fn source(&self) -> Format {
        Format::Yaml
    }

    open spec fn block(&self) -> Seq<char> {
        self.0@
    }

    fn to_yaml(&self) -> (r: Result<String, Error>) {
        Ok(self.0.clone())
    }

    fn to_toml(&self) -> (r: Result<String, Error>) {
        convert_text(self.0.as_str(), Format::Yaml, Format::Toml)
    }
}

/// A block of either format, behind the one interface.
#[derive(Debug, PartialEq, Eq)]
pub enum Matter {
    Toml(TomlMatter),
    Yaml(YamlMatter),
}

impl ToFormat for Matter {
    open spec fn source(&self) -> Format {
        match self {
            Matter::Toml(m) => m.source(),
            Matter::Yaml(m) => m.source(),
        }
    }

    open spec fn block(&self) -> Seq<char> {
        match self {
            Matter::Toml(m) => m.block(),
            Matter::Yaml(m) => m.block(),
        }
    }

    fn to_toml(&self) -> (r: Result<String, Error>) {
        match self {
            Matter::Toml(m) => m.to_toml(),
            Matter::Yaml(m) => m.to_toml(),
        }
    }

    fn to_yaml(&self) -> (r: Result<String, Error>) {
        match self {
            Matter::Toml(m) => m.to_yaml(),
            Matter::Yaml(m) => m.to_yaml(),
        }
    }
}

impl Format {
    /// The text `s` as a block of this format.
    pub fn front_matter(&self, s: &str) -> (m: Matter)
        ensures
            m.source() == *self,
            m.block() == s@,
    {
        match self {
            Format::Toml => Matter::Toml(TomlMatter(s.to_owned())),
            Format::Yaml => Matter::Yaml(YamlMatter(s.to_owned())),
        }
    }
}

/// The block `s` of format `src` in format `dst`: itself where the two are
/// the same format, else converted.
pub fn convert_to(s: &str, src: Format, dst: Format) -> (r: Result<String, Error>)
    ensures
        is_text(r, presented(s@, src, dst)),
        dst == Format::Yaml && src != Format::Yaml && r is Ok
            ==> crate::format::yaml::is_document(r->Ok_0@),
{
    let fr = src.front_matter(s);
    fr.to(dst)
}


/// A block that holds the mapping without entries becomes, in YAML, the
/// document start and an empty line, not the empty text.
pub proof fn lemma_empty_block_in_yaml(text: Seq<char>, from: Format)
    requires
        read(from, text) == Ok::<Tree, Failure>(crate::format::yaml::empty_mapping()),
    ensures
        converted(text, from, Format::Yaml) == Ok::<Seq<char>, Failure>(
            crate::format::yaml::empty_document(),
        ),
{
    let empty = crate::format::yaml::empty_mapping();
    assert(map_tree(empty, Format::Yaml)->Mapping_0 =~= Seq::empty());
}

} // verus!
