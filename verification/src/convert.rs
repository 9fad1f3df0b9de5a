use crate::errors::{Error, Failure};
use crate::extract::{
    extract, first_content_line, is_line_start, lemma_line_start, lemma_opens_at, lemma_scan,
    lemma_scan_opening, lemma_scan_same, scan, Scan,
};
use crate::text::opens_with;
use crate::format::Format;
use crate::matter::converted;
use vstd::prelude::*;
use vstd::string::StringExecFns;

verus! {

/// What a document of format `target` has before its block: for TOML the
/// line of the opening delimiter; for YAML nothing, since the text of a YAML
/// block starts with its own opening line.
pub open spec fn opening(target: Format) -> Seq<char> {
    match target {
        Format::Toml => Format::Toml.delimiter_chars().push('\n'),
        Format::Yaml => Seq::empty(),
    }
}

/// What follows the closing delimiter in the new text: `rest`, which is
/// what the document held after its closing delimiter, and a line feed
/// where it held nothing there, so that the delimiter has a line.
pub open spec fn closing(rest: Seq<char>) -> Seq<char> {
    if rest.len() == 0 {
        seq!['\n']
    } else {
        rest
    }
}

/// The document made of the block `block` in format `target` and of `rest`,
/// which is what the document held after its closing delimiter.
pub open spec fn assembled(target: Format, block: Seq<char>, rest: Seq<char>) -> Seq<char> {
    opening(target) + block + target.delimiter_chars() + closing(rest)
}

/// What the conversion of the document `doc` to format `target` gives:
/// nothing to write where its block is in that format already, the new text
/// of the document where its block was converted, else the failure.
pub open spec fn conversion(doc: Seq<char>, target: Format) -> Result<Option<Seq<char>>, Failure> {
    match scan(doc, target) {
        Scan::Same => Ok(None),
        Scan::Blank | Scan::Unknown | Scan::Unclosed => Err(Failure::InferFormat),
        Scan::Block { source, body_start, body_end, rest_start } => match converted(
            doc.subrange(body_start, body_end),
            source,
            target,
        ) {
            Ok(block) => Ok(
                Some(assembled(target, block, doc.subrange(rest_start, doc.len() as int))),
            ),
            Err(f) => Err(f),
        },
    }
}

/// Where the closing delimiter starts in the new text `out` of the document
/// `doc`, converted to `target`.
pub open spec fn closing_at(doc: Seq<char>, target: Format, out: Seq<char>) -> int {
    out.len() - closing(doc.subrange(scan(doc, target)->rest_start, doc.len() as int)).len() - 3
}

/// The document made of the block `block` in format `target` and of `rest`.
pub fn assemble(target: Format, block: &str, rest: &str) -> (text: String)
    ensures
        text@ == assembled(target, block@, rest@),
        target.delimiter_chars().push('\n').is_prefix_of(opening(target) + block@)
            ==> target.delimiter_chars().push('\n').is_prefix_of(text@),
{
    let mut text = String::new();
    match target {
        Format::Toml => {
            proof {
                reveal_strlit("\n");
            }
            text.append(target.delimiter());
            text.append("\n");
            assert(text@ =~= opening(target));
        },
        Format::Yaml => {
            assert(text@ =~= opening(target));
        },
    }
    text.append(block);
    let ghost head = text@;
    text.append(target.delimiter());
    if rest.is_empty() {
        proof {
            reveal_strlit("\n");
        }
        text.append("\n");
        assert(text@ =~= head + target.delimiter_chars() + closing(rest@));
    } else {
        text.append(rest);
    }
    proof {
        let line = target.delimiter_chars().push('\n');
        if line.is_prefix_of(head) {
            assert(text@.subrange(0, line.len() as int) =~= head.subrange(0, line.len() as int));
        }
    }
    text
}

/// Converts the front matter of `document` to format `target`.
///
/// `Ok(None)` where the document is to stay as it is: its front matter is
/// of format `target` already. `Ok(Some(..))` with the whole new text where
/// the block was converted: the block in its new format between the
/// delimiters of `target`, then everything that followed the closing
/// delimiter, unchanged, or a line feed where nothing followed it. Blank
/// lines before the block are not kept. An error where no block is found,
/// a document of blank lines included, or where the block cannot be read or
/// written.
///
/// The new text starts with the line of the opening delimiter of `target`,
/// so that it is a document in format `target`: converting it to `target`
/// once more leaves it as it is. Where `target` is YAML, whose written text
/// ends with a line feed, the closing delimiter starts a line of the new
/// text.
pub fn convert(document: &str, target: Format) -> (r: Result<Option<String>, Error>)
    ensures
        match conversion(document@, target) {
            Ok(Some(t)) => r is Ok && r->Ok_0 is Some && r->Ok_0->Some_0@ == t,
            Ok(None) => r is Ok && r->Ok_0 is None,
            Err(f) => r is Err && r->Err_0@ == f,
        },
        r is Ok && r->Ok_0 is Some ==> {
            &&& target.delimiter_chars().push('\n').is_prefix_of(r->Ok_0->Some_0@)
            &&& conversion(r->Ok_0->Some_0@, target) == Ok::<Option<Seq<char>>, Failure>(None)
        },
        target == Format::Yaml && r is Ok && r->Ok_0 is Some ==> {
            let out = r->Ok_0->Some_0@;
            let at = closing_at(document@, target, out);
            &&& is_line_start(out, 0, at)
            &&& opens_with(out, at, target.delimiter_chars())
        },
{
    match extract(document, target) {
        Err(e) => Err(e),
        Ok(None) => Ok(None),
        Ok(Some(found)) => match found.matter.convert_to(target) {
            Err(e) => Err(e),
            Ok(block) => {
                let text = assemble(target, block.text.as_str(), found.rest.as_str());
                proof {
                    let line = target.delimiter_chars().push('\n');
                    let head = opening(target) + block.text@;
                    assert(line.len() == 4);
                    match target {
                        Format::Toml => {
                            assert(head.subrange(0, 4) =~= line);
                        },
                        Format::Yaml => {
                            assert(head =~= block.text@);
                            assert(line =~= crate::format::yaml::document_start());
                            let at = closing_at(document@, target, text@);
                            assert(at == head.len());
                            assert(text@[at - 1] == head[at - 1]);
                            assert(text@.subrange(at, at + 3) =~= target.delimiter_chars());
                            lemma_line_start(text@, 0, at);
                            lemma_opens_at(text@, at, target);
                        },
                    }
                    lemma_scan_opening(text@, target);
                }
                Ok(Some(text))
            },
        },
    }
}


/// Converting a document that is in the format asked for already is a
/// no-op: where the first line that is not blank opens with the delimiter
/// of `target`, the conversion gives nothing to write, whatever follows.
pub proof fn lemma_target_format_is_left_alone(doc: Seq<char>, target: Format)
    requires
        first_content_line(doc, 0) is Some,
        opens_with(doc, first_content_line(doc, 0)->Some_0, target.delimiter_chars()),
    ensures
        conversion(doc, target) == Ok::<Option<Seq<char>>, Failure>(None),
{
    lemma_scan_same(doc, target);
}

/// What follows the closing delimiter is kept as it is: the new text of a
/// converted document ends with everything that the document held after the
/// closing delimiter of its block, or with a line feed where it held nothing
/// there, and has the delimiter of `target` right before that.
pub proof fn lemma_rest_is_kept(doc: Seq<char>, target: Format)
    requires
        conversion(doc, target) is Ok,
        conversion(doc, target)->Ok_0 is Some,
    ensures
        scan(doc, target) is Block,
        ({
            let out = conversion(doc, target)->Ok_0->Some_0;
            let rest = doc.subrange(scan(doc, target)->rest_start, doc.len() as int);
            let end = closing(rest);
            &&& rest.len() > 0 ==> end == rest
            &&& rest.len() == 0 ==> end == seq!['\n']
            &&& out.len() >= end.len() + 3
            &&& out.subrange(out.len() - end.len(), out.len() as int) == end
            &&& out.subrange(out.len() - end.len() - 3, out.len() - end.len())
                == target.delimiter_chars()
        }),
{
    lemma_scan(doc, target);
    let out = conversion(doc, target)->Ok_0->Some_0;
    let rest = doc.subrange(scan(doc, target)->rest_start, doc.len() as int);
    let end = closing(rest);
    assert(target.delimiter_chars().len() == 3);
    assert(out.subrange(out.len() - end.len(), out.len() as int) =~= end);
    assert(out.subrange(out.len() - end.len() - 3, out.len() - end.len())
        =~= target.delimiter_chars());
}

/// A document whose block is never closed by the delimiter that opened it,
/// or whose first line that is not blank opens with no delimiter, or that
/// holds blank lines only, is not converted in part: the conversion fails
/// with the one error.
pub proof fn lemma_no_block_no_conversion(doc: Seq<char>, target: Format)
    requires
        scan(doc, target) is Unknown || scan(doc, target) is Unclosed || scan(doc, target)
            is Blank,
    ensures
        conversion(doc, target) == Err::<Option<Seq<char>>, Failure>(Failure::InferFormat),
{
}

} // verus!
