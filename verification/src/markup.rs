//! The two body variants of a message: the HTML document and its plain-text
//! fallback.

use vstd::prelude::*;
use crate::text::{append_chars, from_chars, to_chars};

verus! {

/// How the HTML variant of a body starts: the document head and the opening
/// of a body element with the fixed font style.
pub const HTML_OPEN: &'static str =
    "<!DOCTYPE html><html><head><meta charset=\"UTF-8\"></head><body style=\"font-family: Arial, sans-serif; font-size: 14px; color: #222;\">";

/// How the HTML variant of a body ends.
pub const HTML_CLOSE: &'static str = "</body></html>";

/// The markup that stands for a line break.
pub const LINE_BREAK: &'static str = "<br>";

/// The plain text of `html[at..]`, read with `inside` telling whether the
/// scan stands inside a tag. A tag runs from a `<` to the next `>`, both
/// included, and nothing of it is kept; a tag that nothing closes runs to
/// the end of the text. Every character outside a tag is kept, a `>` too.
pub open spec fn strip_from(html: Seq<char>, at: int, inside: bool) -> Seq<char>
    decreases html.len() - at,
{
    if at < 0 || at >= html.len() {
        Seq::empty()
    } else if inside {
        strip_from(html, at + 1, html[at] != '>')
    } else if html[at] == '<' {
        strip_from(html, at + 1, true)
    } else {
        seq![html[at]] + strip_from(html, at + 1, false)
    }
}

/// The plain-text fallback of a body: the body without its tags.
pub open spec fn strip_tags(html: Seq<char>) -> Seq<char> {
    strip_from(html, 0, false)
}

/// The body with each newline replaced by line-break markup.
pub open spec fn with_breaks(text: Seq<char>) -> Seq<char>
    decreases text.len(),
{
    if text.len() == 0 {
        Seq::empty()
    } else if text.last() == '\n' {
        with_breaks(text.drop_last()) + LINE_BREAK@
    } else {
        with_breaks(text.drop_last()).push(text.last())
    }
}

/// The HTML variant of a body: its newlines turned into line breaks, inside
/// the document shell.
pub open spec fn html_document(body: Seq<char>) -> Seq<char> {
    HTML_OPEN@ + with_breaks(body) + HTML_CLOSE@
}

/// Strips the tags from `html`, for the plain-text fallback of a message.
pub fn strip_html_tags(html: &str) -> (plain: String)
    ensures
        plain@ == strip_tags(html@),
{
    let chars = to_chars(html);
    let mut out: Vec<char> = Vec::new();
    let mut inside_tag = false;
    let mut at: usize = 0;
    while at < chars.len()
        invariant
            at <= chars.len(),
            strip_tags(chars@) == out@ + strip_from(chars@, at as int, inside_tag),
        decreases chars.len() - at,
    {
        let c = chars[at];
        let ghost before = out@;
        if inside_tag {
            inside_tag = c != '>';
        } else if c == '<' {
            inside_tag = true;
        } else {
            out.push(c);
            assert(before + (seq![c] + strip_from(chars@, at + 1, false)) =~= before.push(c)
                + strip_from(chars@, at + 1, false));
        }
        at += 1;
    }
    from_chars(&out)
}

/// Wraps a rendered body into the HTML document that is sent.
pub fn html_body(body: &str) -> (html: String)
    ensures
        html@ == html_document(body@),
{
    let chars = to_chars(body);
    let line_break = to_chars(LINE_BREAK);
    let mut out = to_chars(HTML_OPEN);
    let mut at: usize = 0;
    assert(chars@.take(0) =~= Seq::<char>::empty());
    while at < chars.len()
        invariant
            at <= chars.len(),
            line_break@ == LINE_BREAK@,
            out@ == HTML_OPEN@ + with_breaks(chars@.take(at as int)),
        decreases chars.len() - at,
    {
        let ghost before = out@;
        let ghost done = with_breaks(chars@.take(at as int));
        assert(chars@.take(at + 1).drop_last() =~= chars@.take(at as int));
        if chars[at] == '\n' {
            append_chars(&mut out, &line_break);
            assert(HTML_OPEN@ + (done + LINE_BREAK@) =~= before + LINE_BREAK@);
        } else {
            out.push(chars[at]);
            assert(HTML_OPEN@ + done.push(chars@[at as int]) =~= before.push(chars@[at as int]));
        }
        at += 1;
    }
    assert(chars@.take(chars.len() as int) =~= chars@);
    let close = to_chars(HTML_CLOSE);
    append_chars(&mut out, &close);
    from_chars(&out)
}

/// No character of `text` opens a tag.
pub open spec fn has_no_tag(text: Seq<char>) -> bool {
    forall|i: int| 0 <= i < text.len() ==> text[i] != '<'
}

proof fn lemma_strip_from_plain(text: Seq<char>, at: int)
    requires
        0 <= at <= text.len(),
        has_no_tag(text),
    ensures
        strip_from(text, at, false) == text.subrange(at, text.len() as int),
    decreases text.len() - at,
{
    if at < text.len() {
        lemma_strip_from_plain(text, at + 1);
        assert(seq![text[at]] + text.subrange(at + 1, text.len() as int) =~= text.subrange(
            at,
            text.len() as int,
        ));
    } else {
        assert(text.subrange(at, text.len() as int) =~= Seq::<char>::empty());
    }
}

proof fn lemma_strip_from_has_no_tag(html: Seq<char>, at: int, inside: bool)
    requires
        0 <= at <= html.len(),
    ensures
        has_no_tag(strip_from(html, at, inside)),
    decreases html.len() - at,
{
    if at < html.len() {
        lemma_strip_from_has_no_tag(html, at + 1, true);
        lemma_strip_from_has_no_tag(html, at + 1, false);
    }
}

/// Stripping leaves a text in which no tag opens as it is.
pub proof fn strip_keeps_text_without_tags(text: Seq<char>)
    requires
        has_no_tag(text),
    ensures
        strip_tags(text) == text,
{
    lemma_strip_from_plain(text, 0);
    assert(text.subrange(0, text.len() as int) =~= text);
}

/// In stripped text no tag opens, so stripping it again changes nothing.
pub proof fn strip_is_idempotent(html: Seq<char>)
    ensures
        has_no_tag(strip_tags(html)),
        strip_tags(strip_tags(html)) == strip_tags(html),
{
    lemma_strip_from_has_no_tag(html, 0, false);
    strip_keeps_text_without_tags(strip_tags(html));
}

} // verus!
