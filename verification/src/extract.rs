use crate::errors::{Error, Failure};
use crate::format::Format;
use crate::matter::FrontMatter;
use crate::text::{
    chars_of, content_start, find_content, find_line_end, is_blank_line, lemma_line_end,
    lemma_skip_spaces, line_end, line_opens_with, next_line, opens_with,
};
use vstd::string::StrSliceExecFns;
use vstd::prelude::*;

verus! {

/// Where the first line starts, among the line that starts at `from` and
/// those after it, that holds more than white space; `None` where every one
/// of them is blank.
pub open spec fn first_content_line(s: Seq<char>, from: int) -> Option<int>
    decreases s.len() - from,
{
    if from < 0 || from >= s.len() {
        None
    } else if is_blank_line(s, from) {
        proof {
            lemma_line_end(s, from);
        }
        first_content_line(s, next_line(s, from))
    } else {
        Some(from)
    }
}

/// Where the first line starts, among the line that starts at `from` and
/// those after it, that opens with `token`; `None` where none does.
pub open spec fn closing_line(s: Seq<char>, from: int, token: Seq<char>) -> Option<int>
    decreases s.len() - from,
{
    if from < 0 || from >= s.len() {
        None
    } else if opens_with(s, from, token) {
        Some(from)
    } else {
        proof {
            lemma_line_end(s, from);
        }
        closing_line(s, next_line(s, from), token)
    }
}

/// The format whose delimiter the line that starts at `from` opens with.
pub open spec fn line_format(s: Seq<char>, from: int) -> Option<Format> {
    if opens_with(s, from, Format::Toml.delimiter_chars()) {
        Some(Format::Toml)
    } else if opens_with(s, from, Format::Yaml.delimiter_chars()) {
        Some(Format::Yaml)
    } else {
        None
    }
}

/// How the scan of a document for its front matter ends.
pub ghost enum Scan {
    /// Every line is blank: no line opens a block.
    Blank,
    /// The first line that is not blank opens with the delimiter of the
    /// format asked for: nothing to do.
    Same,
    /// The first line that is not blank opens with no delimiter.
    Unknown,
    /// A delimiter opens a block, and no later line opens with it again.
    Unclosed,
    /// A block of format `source`. Its text runs from `body_start` up to
    /// `body_end`, where the closing line starts, and what follows the
    /// closing delimiter starts at `rest_start`.
    Block { source: Format, body_start: int, body_end: int, rest_start: int },
}

/// The scan of the document `doc` when a block of format `target` is asked
/// for.
///
/// Leading blank lines are passed over. The first other line has to open
/// with a delimiter, which names the source format. The block then ends
/// before the first later line that opens with that same delimiter. A TOML
/// block starts after its opening line; a YAML block starts with its opening
/// line, white space before the delimiter included, since that line starts a
/// YAML document. The rest of the document starts right after the closing
/// delimiter: what stands behind it on its line belongs to the rest.
pub open spec fn scan(doc: Seq<char>, target: Format) -> Scan {
    match first_content_line(doc, 0) {
        None => Scan::Blank,
        Some(open) => match line_format(doc, open) {
            None => Scan::Unknown,
            Some(source) => if source == target {
                Scan::Same
            } else {
                match closing_line(doc, next_line(doc, open), source.delimiter_chars()) {
                    None => Scan::Unclosed,
                    Some(close) => Scan::Block {
                        source,
                        body_start: if source == Format::Yaml {
                            open
                        } else {
                            next_line(doc, open)
                        },
                        body_end: close,
                        rest_start: content_start(doc, close) + 3,
                    },
                }
            },
        },
    }
}

/// The first line, from the one that starts at `from` on, that holds more
/// than white space.
fn find_first_content_line(v: &Vec<char>, from: usize) -> (r: Option<usize>)
    requires
        from <= v.len(),
    ensures
        match first_content_line(v@, from as int) {
            Some(p) => r == Some(p as usize) && from <= p < v.len(),
            None => r is None,
        },
{
    let mut p: usize = from;
    while p < v.len()
        invariant
            from <= p <= v.len(),
            first_content_line(v@, from as int) == first_content_line(v@, p as int),
        decreases v.len() - p,
    {
        proof {
            lemma_line_end(v@, p as int);
        }
        let end = find_line_end(v, p);
        let at = find_content(v, p, end);
        if at != end {
            return Some(p);
        }
        p = if end < v.len() {
            end + 1
        } else {
            end
        };
    }
    None
}

/// The first line, from the one that starts at `from` on, that opens with
/// three times the character `mark`.
fn find_closing_line(v: &Vec<char>, from: usize, mark: char) -> (r: Option<usize>)
    requires
        from <= v.len(),
    ensures
        match closing_line(v@, from as int, seq![mark, mark, mark]) {
            Some(p) => r == Some(p as usize) && from <= p < v.len() && opens_with(
                v@,
                p,
                seq![mark, mark, mark],
            ),
            None => r is None,
        },
{
    let mut p: usize = from;
    while p < v.len()
        invariant
            from <= p <= v.len(),
            closing_line(v@, from as int, seq![mark, mark, mark]) == closing_line(
                v@,
                p as int,
                seq![mark, mark, mark],
            ),
        decreases v.len() - p,
    {
        proof {
            lemma_line_end(v@, p as int);
        }
        let end = find_line_end(v, p);
        if line_opens_with(v, p, end, mark) {
            return Some(p);
        }
        p = if end < v.len() {
            end + 1
        } else {
            end
        };
    }
    None
}

/// A front-matter block taken out of a document, and what the document
/// holds after the block's closing delimiter.
#[derive(Debug, PartialEq, Eq)]
pub struct Extraction {
    pub matter: FrontMatter,
    pub rest: String,
}

/// Whether `r` is what the scan `s` of `doc` asks for: nothing where the
/// block is in the format asked for already, [`Error::InferFormat`] where no
/// block is found, else the block's format and text and the rest of the
/// document.
pub open spec fn is_extraction(
    r: Result<Option<Extraction>, Error>,
    doc: Seq<char>,
    s: Scan,
) -> bool {
    match s {
        Scan::Same => r is Ok && r->Ok_0 is None,
        Scan::Blank | Scan::Unknown | Scan::Unclosed => r is Err && r->Err_0@
            == Failure::InferFormat,
        Scan::Block { source, body_start, body_end, rest_start } => {
            &&& r is Ok
            &&& r->Ok_0 is Some
            &&& r->Ok_0->Some_0.matter.format == source
            &&& r->Ok_0->Some_0.matter.text@ == doc.subrange(body_start, body_end)
            &&& r->Ok_0->Some_0.rest@ == doc.subrange(rest_start, doc.len() as int)
        },
    }
}

/// Finds the front-matter block at the head of `document`, for a conversion
/// to `target`.
///
/// `Ok(None)` where nothing is to be done: the block is of format `target`
/// already. [`Error::InferFormat`] where every line is blank, where the first
/// line that is not blank opens with no delimiter, and where the block is
/// never closed.
pub fn extract(document: &str, target: Format) -> (r: Result<Option<Extraction>, Error>)
    ensures
        is_extraction(r, document@, scan(document@, target)),
{
    let v = chars_of(document);
    let open = match find_first_content_line(&v, 0) {
        Some(p) => p,
        None => {
            return Err(Error::InferFormat);
        },
    };
    proof {
        lemma_line_end(v@, open as int);
    }
    let open_end = find_line_end(&v, open);
    let source = if line_opens_with(&v, open, open_end, '+') {
        Format::Toml
    } else if line_opens_with(&v, open, open_end, '-') {
        Format::Yaml
    } else {
        return Err(Error::InferFormat);
    };
    let mark = match source {
        Format::Toml => '+',
        Format::Yaml => '-',
    };
    assert(source.delimiter_chars() == seq![mark, mark, mark]);
    match (source, target) {
        (Format::Toml, Format::Toml) => {
            return Ok(None);
        },
        (Format::Yaml, Format::Yaml) => {
            return Ok(None);
        },
        _ => {},
    }
    let after = if open_end < v.len() {
        open_end + 1
    } else {
        open_end
    };
    let close = match find_closing_line(&v, after, mark) {
        Some(q) => q,
        None => {
            return Err(Error::InferFormat);
        },
    };
    proof {
        lemma_line_end(v@, close as int);
        lemma_skip_spaces(v@, close as int, line_end(v@, close as int));
        assert(seq![mark, mark, mark].len() == 3);
    }
    let close_end = find_line_end(&v, close);
    let token_at = find_content(&v, close, close_end);
    let body_start = match source {
        Format::Toml => after,
        Format::Yaml => open,
    };
    let text = document.substring_char(body_start, close).to_owned();
    let rest = document.substring_char(token_at + 3, v.len()).to_owned();
    Ok(Some(Extraction { matter: FrontMatter::new(source, text), rest }))
}


/// Whether `x` is where a line starts, among the line that starts at `from`
/// and those after it.
pub open spec fn is_line_start(s: Seq<char>, from: int, x: int) -> bool
    decreases s.len() - from,
{
    if from < 0 || from >= s.len() || x < from {
        false
    } else if x == from {
        true
    } else {
        proof {
            lemma_line_end(s, from);
        }
        is_line_start(s, next_line(s, from), x)
    }
}

/// What follows a line feed starts a line.
pub proof fn lemma_line_start(s: Seq<char>, from: int, x: int)
    requires
        0 <= from < x < s.len(),
        s[x - 1] == '\n',
    ensures
        is_line_start(s, from, x),
    decreases x - from,
{
    lemma_line_end(s, from);
    let end = line_end(s, from);
    if end > x - 1 {
        assert(s[x - 1] != '\n');
    }
    assert(next_line(s, from) == end + 1);
    if end < x - 1 {
        lemma_line_start(s, end + 1, x);
    } else {
        assert(is_line_start(s, x, x));
    }
    assert(is_line_start(s, from, x) == is_line_start(s, end + 1, x));
}

/// The first line that holds more than white space lies in the text, is no
/// blank line, and every line before it is blank.
pub proof fn lemma_first_content_line(s: Seq<char>, from: int)
    requires
        0 <= from <= s.len(),
    ensures
        match first_content_line(s, from) {
            Some(p) => {
                &&& from <= p < s.len()
                &&& is_line_start(s, from, p)
                &&& !is_blank_line(s, p)
                &&& forall|x: int| #[trigger] is_line_start(s, from, x) && x < p ==> is_blank_line(s, x)
            },
            None => forall|x: int| #[trigger] is_line_start(s, from, x) ==> is_blank_line(s, x),
        },
    decreases s.len() - from,
{
    if from < s.len() && is_blank_line(s, from) {
        lemma_line_end(s, from);
        let n = next_line(s, from);
        lemma_first_content_line(s, n);
        assert forall|x: int| #[trigger] is_line_start(s, from, x) && x != from implies is_line_start(
            s,
            n,
            x,
        ) by {}
    }
}

/// A block is closed by the first line that opens with its own delimiter:
/// the closing line opens with `token`, no line between `from` and it does,
/// whatever else such a line opens with, and where there is no closing line
/// no line from `from` on opens with `token`.
pub proof fn lemma_closing_line(s: Seq<char>, from: int, token: Seq<char>)
    requires
        0 <= from <= s.len(),
    ensures
        match closing_line(s, from, token) {
            Some(q) => {
                &&& from <= q < s.len()
                &&& is_line_start(s, from, q)
                &&& opens_with(s, q, token)
                &&& forall|x: int| #[trigger]
                    is_line_start(s, from, x) && x < q ==> !opens_with(s, x, token)
            },
            None => forall|x: int| #[trigger] is_line_start(s, from, x) ==> !opens_with(s, x, token),
        },
    decreases s.len() - from,
{
    if from < s.len() && !opens_with(s, from, token) {
        lemma_line_end(s, from);
        let n = next_line(s, from);
        lemma_closing_line(s, n, token);
        assert forall|x: int| #[trigger] is_line_start(s, from, x) && x != from implies is_line_start(
            s,
            n,
            x,
        ) by {}
    }
}

/// A line that starts with a delimiter opens with it.
pub proof fn lemma_opens_at(s: Seq<char>, at: int, f: Format)
    requires
        0 <= at,
        at + 3 <= s.len(),
        s.subrange(at, at + 3) == f.delimiter_chars(),
    ensures
        opens_with(s, at, f.delimiter_chars()),
{
    let token = f.delimiter_chars();
    assert(token.len() == 3);
    assert forall|i: int| 0 <= i < 3 implies s[at + i] == #[trigger] token[i] by {
        assert(s.subrange(at, at + 3)[i] == s[at + i]);
    }
    assert(token[0] != '\n' && token[1] != '\n' && token[2] != '\n');
    lemma_line_end(s, at + 3);
    assert(line_end(s, at + 2) == line_end(s, at + 3));
    assert(line_end(s, at + 1) == line_end(s, at + 3));
    assert(line_end(s, at) == line_end(s, at + 3));
    assert(!crate::text::is_space(s[at]));
    assert(content_start(s, at) == at);
}

/// A line opens with the delimiter of one format at most.
pub proof fn lemma_one_delimiter(s: Seq<char>, from: int, f: Format)
    requires
        opens_with(s, from, f.delimiter_chars()),
    ensures
        line_format(s, from) == Some(f),
{
    let at = content_start(s, from);
    let toml = Format::Toml.delimiter_chars();
    let yaml = Format::Yaml.delimiter_chars();
    assert(toml[0] == '+' && yaml[0] == '-');
    assert(s.subrange(at, at + 3)[0] == f.delimiter_chars()[0]);
}

/// Where the scan finds a block, the block is not of the format asked for,
/// its parts lie in the document in their order, it is closed by a line
/// that opens with the delimiter of its own format, and no line between the
/// opening line and that one opens with that delimiter. Where the scan finds
/// a block unclosed, no line after the opening line opens with the delimiter
/// of the block's format.
pub proof fn lemma_scan(doc: Seq<char>, target: Format)
    ensures
        match scan(doc, target) {
            Scan::Block { source, body_start, body_end, rest_start } => {
                let open = first_content_line(doc, 0)->Some_0;
                &&& source != target
                &&& line_format(doc, open) == Some(source)
                &&& 0 <= open <= body_start <= body_end < rest_start <= doc.len()
                &&& body_start <= next_line(doc, open) <= body_end
                &&& opens_with(doc, body_end, source.delimiter_chars())
                &&& rest_start <= line_end(doc, body_end)
                &&& doc.subrange(rest_start - 3, rest_start) == source.delimiter_chars()
                &&& forall|x: int| #[trigger]
                    is_line_start(doc, next_line(doc, open), x) && x < body_end ==> !opens_with(
                        doc,
                        x,
                        source.delimiter_chars(),
                    )
            },
            Scan::Unclosed => {
                let open = first_content_line(doc, 0)->Some_0;
                let source = line_format(doc, open)->Some_0;
                &&& line_format(doc, open) is Some
                &&& source != target
                &&& forall|x: int| #[trigger]
                    is_line_start(doc, next_line(doc, open), x) ==> !opens_with(
                        doc,
                        x,
                        source.delimiter_chars(),
                    )
            },
            Scan::Same => {
                let open = first_content_line(doc, 0)->Some_0;
                opens_with(doc, open, target.delimiter_chars())
            },
            Scan::Unknown => {
                let open = first_content_line(doc, 0)->Some_0;
                &&& !opens_with(doc, open, Format::Toml.delimiter_chars())
                &&& !opens_with(doc, open, Format::Yaml.delimiter_chars())
            },
            Scan::Blank => forall|x: int| #[trigger] is_line_start(doc, 0, x) ==> is_blank_line(doc, x),
        },
{
    lemma_first_content_line(doc, 0);
    if let Some(open) = first_content_line(doc, 0) {
        lemma_line_end(doc, open);
        if let Some(source) = line_format(doc, open) {
            let token = source.delimiter_chars();
            assert(token.len() == 3);
            let after = next_line(doc, open);
            lemma_closing_line(doc, after, token);
            if let Some(close) = closing_line(doc, after, token) {
                lemma_line_end(doc, close);
                lemma_skip_spaces(doc, close, line_end(doc, close));
            }
        }
    }
}

/// A document that starts with the delimiter of the format asked for, on a
/// line of its own, is scanned as being in that format already.
pub proof fn lemma_scan_opening(doc: Seq<char>, target: Format)
    requires
        target.delimiter_chars().push('\n').is_prefix_of(doc),
    ensures
        first_content_line(doc, 0) == Some(0int),
        opens_with(doc, 0, target.delimiter_chars()),
        scan(doc, target) == Scan::Same,
{
    let token = target.delimiter_chars();
    let head = token.push('\n');
    assert(head.len() == 4 && token.len() == 3);
    assert(doc.subrange(0, 4) == head);
    assert forall|i: int| 0 <= i < 4 implies doc[i] == #[trigger] head[i] by {
        assert(doc.subrange(0, 4)[i] == doc[i]);
    }
    assert(head[3] == '\n');
    assert(head[0] == token[0] && head[1] == token[1] && head[2] == token[2]);
    assert(token[0] != '\n' && token[1] != '\n' && token[2] != '\n');
    assert(line_end(doc, 3) == 3);
    assert(line_end(doc, 2) == 3);
    assert(line_end(doc, 1) == 3);
    assert(line_end(doc, 0) == 3);
    assert(!crate::text::is_space(doc[0]));
    assert(content_start(doc, 0) == 0);
    assert(doc.subrange(0, 3) =~= token);
    lemma_one_delimiter(doc, 0, target);
}

/// A document whose first line that is not blank opens with the delimiter
/// of the format asked for is scanned as being in that format already.
pub proof fn lemma_scan_same(doc: Seq<char>, target: Format)
    requires
        first_content_line(doc, 0) is Some,
        opens_with(doc, first_content_line(doc, 0)->Some_0, target.delimiter_chars()),
    ensures
        scan(doc, target) == Scan::Same,
{
    lemma_one_delimiter(doc, first_content_line(doc, 0)->Some_0, target);
}

} // verus!
