use crate::errors::{Error, Failure};
use crate::text::{chars_of, string_of};
use vstd::prelude::*;

pub mod toml;
pub mod yaml;

verus! {

/// A structured-data format that a front-matter block can be written in.
#[derive(Debug, Copy, Clone, PartialEq, Eq, Structural)]
pub enum Format {
    Toml,
    Yaml,
}

/// The lower-case form of an ASCII capital letter; any other character itself.
pub open spec fn ascii_lower(c: char) -> char {
    if 'A' <= c && c <= 'Z' {
        ((c as u8) + 32) as char
    } else {
        c
    }
}

/// `s` with every ASCII capital letter replaced by its lower-case form.
pub open spec fn lowered(s: Seq<char>) -> Seq<char> {
    Seq::new(s.len(), |i: int| ascii_lower(s[i]))
}

/// The format whose delimiter is exactly `d`, if there is one.
pub open spec fn format_of_delimiter(d: Seq<char>) -> Option<Format> {
    if d == Format::Toml.delimiter_chars() {
        Some(Format::Toml)
    } else if d == Format::Yaml.delimiter_chars() {
        Some(Format::Yaml)
    } else {
        None
    }
}

/// The format whose canonical name is `s` once lowered, if there is one.
pub open spec fn format_of_name(s: Seq<char>) -> Option<Format> {
    if lowered(s) == Format::Toml.name_chars() {
        Some(Format::Toml)
    } else if lowered(s) == Format::Yaml.name_chars() {
        Some(Format::Yaml)
    } else {
        None
    }
}

/// Whether `v` holds exactly the four characters given.
fn is_word(v: &Vec<char>, a: char, b: char, c: char, d: char) -> (yes: bool)
    ensures
        yes == (v@ == seq![a, b, c, d]),
{
    let yes = v.len() == 4 && v[0] == a && v[1] == b && v[2] == c && v[3] == d;
    proof {
        if yes {
            assert(v@ =~= seq![a, b, c, d]);
        } else if v.len() == 4 {
            let w = seq![a, b, c, d];
            assert(w[0] == a && w[1] == b && w[2] == c && w[3] == d);
        } else {
            assert(seq![a, b, c, d].len() == 4);
        }
    }
    yes
}

/// Whether `v` holds exactly three times the character `c`.
fn is_triple(v: &Vec<char>, c: char) -> (yes: bool)
    ensures
        yes == (v@ == seq![c, c, c]),
{
    let yes = v.len() == 3 && v[0] == c && v[1] == c && v[2] == c;
    proof {
        if yes {
            assert(v@ =~= seq![c, c, c]);
        } else if v.len() == 3 {
            let w = seq![c, c, c];
            assert(w[0] == c && w[1] == c && w[2] == c);
        } else {
            assert(seq![c, c, c].len() == 3);
        }
    }
    yes
}

/// The lower-case form of `c` where it is an ASCII capital letter.
fn to_ascii_lower(c: char) -> (l: char)
    ensures
        l == ascii_lower(c),
{
    if 'A' <= c && c <= 'Z' {
        let b: u8 = c as u8;
        (b + 32) as char
    } else {
        c
    }
}

impl Format {
    /// The canonical, lower-case name of the format.
    pub open spec fn name_chars(self) -> Seq<char> {
        match self {
            Format::Toml => seq!['t', 'o', 'm', 'l'],
            Format::Yaml => seq!['y', 'a', 'm', 'l'],
        }
    }

    /// The marker that opens and closes a block of the format.
    pub open spec fn delimiter_chars(self) -> Seq<char> {
        match self {
            Format::Toml => seq!['+', '+', '+'],
            Format::Yaml => seq!['-', '-', '-'],
        }
    }

    /// The format that uses exactly `d` as its delimiter; an unknown token is
    /// an error that carries the token.
    pub fn from_delim(d: &str) -> (r: Result<Format, Error>)
        ensures
            match format_of_delimiter(d@) {
                Some(f) => r == Ok::<Format, Error>(f),
                None => r is Err && r->Err_0@ == Failure::FormatName(d@),
            },
    {
        let v = chars_of(d);
        if is_triple(&v, '+') {
            Ok(Format::Toml)
        } else if is_triple(&v, '-') {
            Ok(Format::Yaml)
        } else {
            Err(Error::FormatName(d.to_owned()))
        }
    }

    /// The format named `s`, whatever the case of its ASCII letters; an unknown
    /// name is an error that carries the name in lower case.
    pub fn from_str(s: &str) -> (r: Result<Format, Error>)
        ensures
            match format_of_name(s@) {
                Some(f) => r == Ok::<Format, Error>(f),
                None => r is Err && r->Err_0@ == Failure::FormatName(lowered(s@)),
            },
    {
        let v = chars_of(s);
        let mut lower: Vec<char> = Vec::new();
        let mut i: usize = 0;
        while i < v.len()
            invariant
                i <= v.len(),
                lower@ == lowered(v@).take(i as int),
            decreases v.len() - i,
        {
            lower.push(to_ascii_lower(v[i]));
            assert(lower@ =~= lowered(v@).take(i + 1));
            i = i + 1;
        }
        assert(lower@ =~= lowered(s@));
        if is_word(&lower, 't', 'o', 'm', 'l') {
            Ok(Format::Toml)
        } else if is_word(&lower, 'y', 'a', 'm', 'l') {
            Ok(Format::Yaml)
        } else {
            Err(Error::FormatName(string_of(&lower)))
        }
    }

    /// The canonical name: `toml` or `yaml`.
    pub fn name(&self) -> (n: &'static str)
        ensures
            n@ == self.name_chars(),
    {
        proof {
            reveal_strlit("toml");
            reveal_strlit("yaml");
        }
        match *self {
            Format::Toml => {
                assert("toml"@ =~= seq!['t', 'o', 'm', 'l']);
                "toml"
            },
            Format::Yaml => {
                assert("yaml"@ =~= seq!['y', 'a', 'm', 'l']);
                "yaml"
            },
        }
    }

    /// The delimiter: `+++` for TOML, `---` for YAML.
    pub fn delimiter(&self) -> (d: &'static str)
        ensures
            d@ == self.delimiter_chars(),
    {
        proof {
            reveal_strlit("+++");
            reveal_strlit("---");
        }
        match *self {
            Format::Toml => {
                assert("+++"@ =~= seq!['+', '+', '+']);
                "+++"
            },
            Format::Yaml => {
                assert("---"@ =~= seq!['-', '-', '-']);
                "---"
            },
        }
    }
}

impl std::str::FromStr for Format {
    type Err = Error;

    /// The format named `s`, whatever the case of its ASCII letters; an unknown
    /// name is an error that carries the name in lower case.
    fn from_str(s: &str) -> (r: Result<Format, Error>)
        ensures
            match format_of_name(s@) {
                Some(f) => r == Ok::<Format, Error>(f),
                None => r is Err && r->Err_0@ == Failure::FormatName(lowered(s@)),
            },
    {
        Format::from_str(s)
    }
}

/// The two formats have different names and different delimiters, and each
/// is found again by its own name and by its own delimiter.
pub proof fn lemma_formats_distinct(a: Format, b: Format)
    ensures
        a.delimiter_chars() == b.delimiter_chars() <==> a == b,
        a.name_chars() == b.name_chars() <==> a == b,
        format_of_delimiter(a.delimiter_chars()) == Some(a),
        format_of_name(a.name_chars()) == Some(a),
{
    let t = Format::Toml;
    let y = Format::Yaml;
    assert(t.delimiter_chars()[0] == '+' && y.delimiter_chars()[0] == '-');
    assert(t.name_chars()[0] == 't' && y.name_chars()[0] == 'y');
    assert(lowered(t.name_chars()) =~= t.name_chars());
    assert(lowered(y.name_chars()) =~= y.name_chars());
}

} // verus!
