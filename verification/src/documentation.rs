//! Hover documentation: the message a language server returns for the
//! symbol under the cursor, parsed into renderable blocks.
//!
//! The raw message mixes markup tags, HTML entities and fenced code. The
//! parser strips the tags (through a trusted regex call), normalises the
//! non-breaking spaces, splits the text at every code fence, and sorts the
//! pieces into code blocks of the detected language and regular prose.

use vstd::prelude::*;
use vstd::string::StrSliceExecFns;

use crate::str_util::{
    contains_seq, replace_spec, replace_str, split_spec, split_str, str_contains, trim_spec,
    trim_str, ws_prefix,
};
use crate::text_range::{TextPoint, TextRange};

verus! {

/// How one piece of a hover message should be rendered.
#[derive(Clone, Copy, PartialEq, Eq, Structural, Debug)]
pub enum BlockType {
    /// Fenced source code in the detected language.
    CodeBlock,
    /// Ordinary prose.
    RegularBlock,
}

/// A hover message parsed for rendering: the detected language's file
/// extension, and the pieces in order.
#[derive(PartialEq, Eq, Debug)]
pub struct HoverInfo {
    pub language: String,
    pub all_blocks: Vec<(String, BlockType)>,
}

/// What the tag-stripping regex returns: the text with every shortest
/// `<`…`>` span removed.
pub uninterp spec fn strip_tags_of(s: Seq<char>) -> Seq<char>;

/// Relies on `regex::Regex::new` and `Regex::replace_all`: removes every
/// non-greedy `<`…`>` match. The pattern is a fixed valid literal, so
/// compiling it cannot fail; the result depends on the input text alone.
#[verifier::external_body]
fn strip_tags(s: &str) -> (r: String)
    ensures
        r@ == strip_tags_of(s@),
        s@.len() == 0 ==> r@.len() == 0,
{
    let re = regex::Regex::new(r"<.*?>").unwrap();
    re.replace_all(s, "").to_string()
}

/// The marker the language detection looks for, and the file extension it
/// reports: `python`, `rust` and `csharp` are recognized, in that order.
pub open spec fn lang_marker(raw: Seq<char>) -> Seq<char> {
    if contains_seq(raw, "python"@) {
        "python"@
    } else if contains_seq(raw, "rust"@) {
        "rust"@
    } else if contains_seq(raw, "csharp"@) {
        "csharp"@
    } else {
        Seq::empty()
    }
}

/// The extension reported for the detected language.
pub open spec fn lang_ext(raw: Seq<char>) -> Seq<char> {
    if contains_seq(raw, "python"@) {
        "py"@
    } else if contains_seq(raw, "rust"@) {
        "rs"@
    } else if contains_seq(raw, "csharp"@) {
        "cs"@
    } else {
        Seq::empty()
    }
}

/// A piece with the language marker removed, or unchanged when no
/// language was detected.
pub open spec fn piece_without_marker(p: Seq<char>, marker: Seq<char>) -> Seq<char> {
    if marker.len() > 0 {
        replace_spec(p, marker, Seq::empty())
    } else {
        p
    }
}

/// How the pieces between code fences are classified: a piece whose first
/// eight characters name the language becomes a code block with the
/// marker removed and the rest trimmed; an empty piece is dropped; any
/// other piece is trimmed prose.
pub open spec fn classify_pieces(ps: Seq<Seq<char>>, marker: Seq<char>) -> Seq<
    (Seq<char>, BlockType),
>
    decreases ps.len(),
{
    if ps.len() == 0 {
        Seq::empty()
    } else {
        let p = ps[0];
        let rest = classify_pieces(ps.skip(1), marker);
        if p.len() >= 9 && contains_seq(p.take(8), marker) {
            if piece_without_marker(p, marker).len() == 0 {
                rest
            } else {
                seq![(trim_spec(piece_without_marker(p, marker)), BlockType::CodeBlock)] + rest
            }
        } else if p.len() == 0 {
            rest
        } else {
            seq![(trim_spec(p), BlockType::RegularBlock)] + rest
        }
    }
}

/// The blocks of a hover message: the stripped text, with non-breaking
/// spaces normalised, cut at every code fence and classified.
pub open spec fn hover_blocks(raw: Seq<char>) -> Seq<(Seq<char>, BlockType)> {
    classify_pieces(
        split_spec(replace_spec(strip_tags_of(raw), "&nbsp;"@, " "@), "```"@),
        lang_marker(raw),
    )
}

/// Parses a raw hover message into its language extension and blocks.
fn create_hover_info(info: &str) -> (r: HoverInfo)
    ensures
        r.language@ == lang_ext(info@),
        r.all_blocks@.len() == hover_blocks(info@).len(),
        forall|j: int|
            0 <= j < r.all_blocks@.len() ==> #[trigger] r.all_blocks@[j].0@ == hover_blocks(
                info@,
            )[j].0 && r.all_blocks@[j].1 == hover_blocks(info@)[j].1,
{
    let (marker, ext) = if str_contains(info, "python") {
        (String::from_str("python"), String::from_str("py"))
    } else if str_contains(info, "rust") {
        (String::from_str("rust"), String::from_str("rs"))
    } else if str_contains(info, "csharp") {
        (String::from_str("csharp"), String::from_str("cs"))
    } else {
        (String::new(), String::new())
    };
    let stripped = strip_tags(info);
    let cleaned = replace_str(stripped.as_str(), "&nbsp;", " ");
    proof {
        reveal_strlit("&nbsp;");
        reveal_strlit("```");
        assert(marker@ == lang_marker(info@) && ext@ == lang_ext(info@)) by {
            reveal_strlit("python");
            reveal_strlit("rust");
            reveal_strlit("csharp");
            reveal_strlit("py");
            reveal_strlit("rs");
            reveal_strlit("cs");
        }
    }
    let pieces = split_str(cleaned.as_str(), "```");
    let ghost ps = split_spec(cleaned@, "```"@);
    let ghost mk = marker@;
    let ghost fmap = |x: (String, BlockType)| (x.0@, x.1);
    let n = pieces.len();
    let mut out: Vec<(String, BlockType)> = Vec::new();
    let mut i: usize = 0;
    proof {
        assert(ps.skip(0) =~= ps);
        assert(out@.map_values(fmap) =~= Seq::<(Seq<char>, BlockType)>::empty());
    }
    while i < n
        invariant
            i <= n,
            n == pieces@.len(),
            n == ps.len(),
            mk == marker@,
            fmap == (|x: (String, BlockType)| (x.0@, x.1)),
            forall|j: int| 0 <= j < n ==> #[trigger] pieces@[j]@ == ps[j],
            out@.map_values(fmap) + classify_pieces(ps.skip(i as int), mk) =~= classify_pieces(
                ps,
                mk,
            ),
        decreases n - i,
    {
        let ghost p = ps[i as int];
        let ghost out0 = out@.map_values(fmap);
        let ghost rest1 = classify_pieces(ps.skip(i + 1), mk);
        proof {
            assert(ps.skip(i as int)[0] == p);
            assert(ps.skip(i as int).skip(1) =~= ps.skip(i + 1));
            assert(pieces@[i as int]@ == p);
        }
        let piece = &pieces[i];
        let plen = piece.as_str().unicode_len();
        let mklen = marker.as_str().unicode_len();
        let is_code = plen >= 9 && {
            let head = piece.as_str().substring_char(0, 8);
            str_contains(head, marker.as_str())
        };
        proof {
            if p.len() >= 9 {
                assert(p.take(8) =~= p.subrange(0, 8));
            }
            assert(is_code == (p.len() >= 9 && contains_seq(p.take(8), mk)));
        }
        if is_code {
            let without = if mklen > 0 {
                replace_str(piece.as_str(), marker.as_str(), "")
            } else {
                String::from_str(piece.as_str())
            };
            proof {
                reveal_strlit("");
                assert(""@ =~= Seq::<char>::empty());
                assert(without@ == piece_without_marker(p, mk));
            }
            if without.as_str().unicode_len() > 0 {
                let trimmed = trim_str(without.as_str());
                let ghost elem = (trim_spec(piece_without_marker(p, mk)), BlockType::CodeBlock);
                out.push((trimmed, BlockType::CodeBlock));
                proof {
                    assert(out@.map_values(fmap) =~= out0.push(elem));
                    assert(classify_pieces(ps.skip(i as int), mk) =~= seq![elem] + rest1);
                    assert(out0.push(elem) + rest1 =~= out0 + (seq![elem] + rest1));
                }
            } else {
                proof {
                    assert(classify_pieces(ps.skip(i as int), mk) =~= rest1);
                }
            }
        } else if plen > 0 {
            let trimmed = trim_str(piece.as_str());
            let ghost elem = (trim_spec(p), BlockType::RegularBlock);
            out.push((trimmed, BlockType::RegularBlock));
            proof {
                assert(out@.map_values(fmap) =~= out0.push(elem));
                assert(classify_pieces(ps.skip(i as int), mk) =~= seq![elem] + rest1);
                assert(out0.push(elem) + rest1 =~= out0 + (seq![elem] + rest1));
            }
        } else {
            proof {
                assert(classify_pieces(ps.skip(i as int), mk) =~= rest1);
            }
        }
        i = i + 1;
    }
    proof {
        assert(ps.skip(n as int) =~= Seq::<Seq<char>>::empty());
        let m = out@.map_values(fmap);
        assert(m =~= classify_pieces(ps, mk));
        assert forall|j: int| 0 <= j < out@.len() implies out@[j].0@ == hover_blocks(info@)[j].0
            && out@[j].1 == hover_blocks(info@)[j].1 by {
            assert(m[j] == (out@[j].0@, out@[j].1));
        }
    }
    HoverInfo { language: ext, all_blocks: out }
}

/// The hover documentation attached to a position of the document.
#[derive(PartialEq, Eq, Debug)]
pub struct Documentation {
    pub message: String,
    pub range: TextRange,
    pub hover_info: HoverInfo,
}

impl Documentation {
    /// An empty placeholder shown before any hover answer arrives.
    pub fn new() -> (d: Documentation)
        ensures
            d.message@ == " "@,
            d.range.start.line == 0 && d.range.start.col == 0,
            d.range.end.line == 0 && d.range.end.col == 0,
            d.hover_info.language@ == " "@,
            d.hover_info.all_blocks@.len() == 0,
    {
        Documentation {
            message: String::from_str(" "),
            range: TextRange::zero(),
            hover_info: HoverInfo { language: String::from_str(" "), all_blocks: Vec::new() },
        }
    }

    /// Installs a hover answer for a range and parses it for rendering.
    pub fn set_hover(&mut self, message: String, range: TextRange)
        ensures
            final(self).message == message,
            final(self).range == range,
            final(self).hover_info.language@ == lang_ext(message@),
            final(self).hover_info.all_blocks@.len() == hover_blocks(message@).len(),
            forall|j: int|
                0 <= j < hover_blocks(message@).len()
                    ==> #[trigger] final(self).hover_info.all_blocks@[j].0@ == hover_blocks(
                    message@,
                )[j].0 && final(self).hover_info.all_blocks@[j].1 == hover_blocks(message@)[j].1,
    {
        self.hover_info = create_hover_info(message.as_str());
        self.message = message;
        self.range = range;
    }

    /// The position a hover request should name: the line and column of
    /// the cursor. The host performs the request itself.
    pub fn request_hover(&self, line: usize, col: usize) -> (r: (usize, usize))
        ensures
            r.0 == line && r.1 == col,
    {
        (line, col)
    }

    /// A filled-in sample value, handy for previewing the popup.
    pub fn example() -> (d: Documentation)
        ensures
            d.message@ == "example Documentation"@,
            d.hover_info.language@ == "rs"@,
            d.hover_info.all_blocks@.len() == 1,
            d.hover_info.all_blocks@[0].0@ == "fn main() {\n    println!(\"Hello, world!\");\n}"@,
            d.hover_info.all_blocks@[0].1 == BlockType::CodeBlock,
            d.range.start.line == 2 && d.range.start.col == 18,
            d.range.end.line == 2 && d.range.end.col == 25,
    {
        let mut blocks: Vec<(String, BlockType)> = Vec::new();
        blocks.push(
            (
                String::from_str("fn main() {\n    println!(\"Hello, world!\");\n}"),
                BlockType::CodeBlock,
            ),
        );
        Documentation {
            message: String::from_str("example Documentation"),
            range: TextRange::new(TextPoint::new(2, 18), TextPoint::new(2, 25)),
            hover_info: HoverInfo { language: String::from_str("rs"), all_blocks: blocks },
        }
    }
}

/// The state of the hover popup: the last message shown and the cursor it
/// was requested for.
pub struct DocumentationPopup {
    message: String,
    cursor: TextPoint,
}

impl DocumentationPopup {
    pub closed spec fn spec_cursor(&self) -> TextPoint {
        self.cursor
    }

    pub fn new() -> (p: DocumentationPopup)
        ensures
            p.spec_cursor().line == 0 && p.spec_cursor().col == 0,
    {
        DocumentationPopup { message: String::from_str(" "), cursor: TextPoint::new(0, 0) }
    }

    /// Decides whether hover information should be requested for the
    /// selection, and remembers the cursor when it should: only for a
    /// plain cursor that is not sitting at the end of its line's leading
    /// whitespace. Returns the position to request, or `None`.
    pub fn request_hover_info(&mut self, source: &ropey::Rope, selection: TextRange) -> (r:
        Option<TextPoint>)
        requires
            crate::text_edit::range_valid(crate::buffer::rope_text(*source), selection),
        ensures
            ({
                let s = crate::buffer::rope_text(*source);
                let c = selection.start;
                let ls = crate::text_model::line_start_spec(s, c.line);
                if selection.spec_is_cursor() && ws_prefix(s.skip(ls)) != c.col {
                    &&& r == Some(c)
                    &&& final(self).spec_cursor() == c
                } else {
                    &&& r is None
                    &&& final(self).spec_cursor() == old(self).spec_cursor()
                }
            }),
    {
        if !selection.is_cursor() {
            return None;
        }
        let cursor = selection.start;
        let ghost s = crate::buffer::rope_text(*source);
        proof {
            let w = choose|w: int|
                crate::text_model::is_offset_of(s, selection.spec_ordered().start, w);
            crate::text_model::lemma_offset_line(s, selection.spec_ordered().start, w);
            crate::text_model::lemma_count_nl_take_monotone(s, w, s.len() as int);
            assert(s.take(s.len() as int) =~= s);
        }
        let ws = crate::buffer::rope_line_ws(source, cursor.line);
        if ws == cursor.col {
            return None;
        }
        self.cursor = cursor;
        Some(cursor)
    }
}

} // verus!
