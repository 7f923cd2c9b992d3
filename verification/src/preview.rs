//! A rough reading of a rendered body, for a preview: the runs of text in
//! it, each with the formatting that the tags around it give.

use vstd::prelude::*;
use crate::text::{begins_with, copy_slice, from_chars, same_text, to_chars};

verus! {

/// A run of text with one formatting, or a line break.
#[derive(Debug, Clone)]
pub struct HtmlSegment {
    pub text: String,
    pub bold: bool,
    pub italic: bool,
    pub underline: bool,
    pub is_link: bool,
    pub is_newline: bool,
}

/// The formatting in force at a place of the text.
#[derive(Debug, Clone, Copy, PartialEq, Eq, Structural)]
pub struct Style {
    pub bold: bool,
    pub italic: bool,
    pub underline: bool,
    pub is_link: bool,
}

/// What a [`HtmlSegment`] stands for.
pub struct SegmentView {
    pub text: Seq<char>,
    pub style: Style,
    pub is_newline: bool,
}

impl View for HtmlSegment {
    type V = SegmentView;

    open spec fn view(&self) -> SegmentView {
        SegmentView {
            text: self.text@,
            style: Style {
                bold: self.bold,
                italic: self.italic,
                underline: self.underline,
                is_link: self.is_link,
            },
            is_newline: self.is_newline,
        }
    }
}

/// The segments that a list of segment values stands for.
pub open spec fn segment_views(list: Seq<HtmlSegment>) -> Seq<SegmentView> {
    Seq::new(list.len(), |i: int| list[i]@)
}

/// What a tag does to the reading.
#[derive(Debug, Clone, Copy, PartialEq, Eq, Structural)]
pub enum TagEffect {
    Bold(bool),
    Italic(bool),
    Underline(bool),
    Link(bool),
    Break,
    Nothing,
}

/// Whether every character of `text` is an ASCII character.
pub open spec fn is_ascii_text(text: Seq<char>) -> bool {
    forall|i: int| 0 <= i < text.len() ==> (text[i] as u32) < 128
}

/// The ASCII capital letters `A` to `Z` as small letters, every other
/// character as it is.
pub open spec fn ascii_lower_char(c: char) -> char {
    if 'A' <= c && c <= 'Z' {
        ((c as u8) + 32) as u8 as char
    } else {
        c
    }
}

/// A text with its ASCII capital letters as small letters.
pub open spec fn ascii_lower(text: Seq<char>) -> Seq<char> {
    Seq::new(text.len(), |i: int| ascii_lower_char(text[i]))
}

/// The lower-case form of a text, as `str::to_lowercase` gives it.
pub uninterp spec fn lowercase_of(text: Seq<char>) -> Seq<char>;

/// Trusted, of `std`: `str::to_lowercase` gives the lower-case form of a
/// text by the Unicode tables. It reads nothing but its argument, so its
/// result has the name `lowercase_of`. Of a text of ASCII characters it
/// gives the text with the letters `A` to `Z` as `a` to `z`; of other texts
/// nothing else is claimed.
pub assume_specification[ str::to_lowercase ](text: &str) -> (lower: String)
    ensures
        lower@ == lowercase_of(text@),
        is_ascii_text(text@) ==> lower@ == ascii_lower(text@),
;

/// The name of a tag in lower case: for ASCII text, its capital letters as
/// small letters; for other text, what `str::to_lowercase` gives.
pub open spec fn lowered(text: Seq<char>) -> Seq<char> {
    if is_ascii_text(text) {
        ascii_lower(text)
    } else {
        lowercase_of(text)
    }
}

/// What the tag with the lower-case name `tag` does: `b` and `strong`,
/// `i` and `em`, `u`, and `a` with or without attributes switch a
/// formatting on, their closing forms switch it off, `br` breaks the line,
/// and any other tag does nothing.
#[verifier::opaque]
pub open spec fn tag_effect(tag: Seq<char>) -> TagEffect {
    if tag == "b"@ || tag == "strong"@ {
        TagEffect::Bold(true)
    } else if tag == "/b"@ || tag == "/strong"@ {
        TagEffect::Bold(false)
    } else if tag == "i"@ || tag == "em"@ {
        TagEffect::Italic(true)
    } else if tag == "/i"@ || tag == "/em"@ {
        TagEffect::Italic(false)
    } else if tag == "u"@ {
        TagEffect::Underline(true)
    } else if tag == "/u"@ {
        TagEffect::Underline(false)
    } else if tag == "/a"@ {
        TagEffect::Link(false)
    } else if tag == "br"@ || tag == "br/"@ || tag == "br /"@ {
        TagEffect::Break
    } else if tag == "a"@ || ("a "@.len() <= tag.len() && tag.take("a "@.len() as int) == "a "@) {
        TagEffect::Link(true)
    } else {
        TagEffect::Nothing
    }
}

/// The formatting after a tag.
pub open spec fn style_after(style: Style, effect: TagEffect) -> Style {
    match effect {
        TagEffect::Bold(on) => Style { bold: on, ..style },
        TagEffect::Italic(on) => Style { italic: on, ..style },
        TagEffect::Underline(on) => Style { underline: on, ..style },
        TagEffect::Link(on) => Style { is_link: on, ..style },
        _ => style,
    }
}

/// The segment of a line break.
pub open spec fn break_segment() -> SegmentView {
    SegmentView {
        text: Seq::empty(),
        style: Style { bold: false, italic: false, underline: false, is_link: false },
        is_newline: true,
    }
}

/// The segment that the text gathered so far makes, if it is not empty.
pub open spec fn flushed(pending: Seq<char>, style: Style) -> Seq<SegmentView> {
    if pending.len() > 0 {
        seq![SegmentView { text: pending, style, is_newline: false }]
    } else {
        Seq::empty()
    }
}

/// The least index at or after `from` that holds `>`, or `html.len()`.
pub open spec fn tag_end(html: Seq<char>, from: int) -> int
    decreases html.len() - from,
{
    if from >= html.len() {
        html.len() as int
    } else if html[from] == '>' {
        from
    } else {
        tag_end(html, from + 1)
    }
}

proof fn lemma_tag_end_range(html: Seq<char>, from: int)
    requires
        0 <= from <= html.len(),
    ensures
        from <= tag_end(html, from) <= html.len(),
    decreases html.len() - from,
{
    if from < html.len() && html[from] != '>' {
        lemma_tag_end_range(html, from + 1);
    }
}

/// The segments of `html[at..]`, read with the formatting `style` in force
/// and the text `pending` gathered and not yet given out.
///
/// A `<` ends the gathered text and opens a tag, which runs to the next `>`
/// or, where there is none, to the end; the tag's name is read in lower
/// case. A newline ends the gathered text and gives a line break. Any other
/// character is gathered.
pub open spec fn segments_from(html: Seq<char>, at: int, style: Style, pending: Seq<char>) -> Seq<
    SegmentView,
>
    decreases html.len() - at,
    via segments_from_decreases
{
    if at < 0 || at >= html.len() {
        flushed(pending, style)
    } else if html[at] == '<' {
        let close = tag_end(html, at + 1);
        let effect = tag_effect(lowered(html.subrange(at + 1, close)));
        flushed(pending, style) + (if effect == TagEffect::Break {
            seq![break_segment()]
        } else {
            Seq::empty()
        }) + (if close < html.len() {
            segments_from(html, close + 1, style_after(style, effect), Seq::empty())
        } else {
            Seq::empty()
        })
    } else if html[at] == '\n' {
        flushed(pending, style) + seq![break_segment()] + segments_from(
            html,
            at + 1,
            style,
            Seq::empty(),
        )
    } else {
        segments_from(html, at + 1, style, pending.push(html[at]))
    }
}

#[via_fn]
proof fn segments_from_decreases(html: Seq<char>, at: int, style: Style, pending: Seq<char>) {
    if 0 <= at < html.len() {
        lemma_tag_end_range(html, at + 1);
    }
}

/// The segments of a whole text, read from plain formatting.
pub open spec fn segments(html: Seq<char>) -> Seq<SegmentView> {
    segments_from(
        html,
        0,
        Style { bold: false, italic: false, underline: false, is_link: false },
        Seq::empty(),
    )
}

/// What the tag with the lower-case name `tag` does.
pub fn classify_tag(tag: &str) -> (effect: TagEffect)
    ensures
        effect == tag_effect(tag@),
{
    proof {
        reveal(tag_effect);
    }
    if same_text(tag, "b") || same_text(tag, "strong") {
        TagEffect::Bold(true)
    } else if same_text(tag, "/b") || same_text(tag, "/strong") {
        TagEffect::Bold(false)
    } else if same_text(tag, "i") || same_text(tag, "em") {
        TagEffect::Italic(true)
    } else if same_text(tag, "/i") || same_text(tag, "/em") {
        TagEffect::Italic(false)
    } else if same_text(tag, "u") {
        TagEffect::Underline(true)
    } else if same_text(tag, "/u") {
        TagEffect::Underline(false)
    } else if same_text(tag, "/a") {
        TagEffect::Link(false)
    } else if same_text(tag, "br") || same_text(tag, "br/") || same_text(tag, "br /") {
        TagEffect::Break
    } else if same_text(tag, "a") || begins_with(tag, "a ") {
        TagEffect::Link(true)
    } else {
        TagEffect::Nothing
    }
}

/// The segment of a line break.
fn line_break() -> (segment: HtmlSegment)
    ensures
        segment@ == break_segment(),
{
    HtmlSegment {
        text: String::new(),
        bold: false,
        italic: false,
        underline: false,
        is_link: false,
        is_newline: true,
    }
}

/// Gives out the gathered text as a segment, if there is any, and starts
/// gathering anew.
fn flush(segments: &mut Vec<HtmlSegment>, pending: &mut Vec<char>, style: Style)
    ensures
        segment_views(final(segments)@) == segment_views(old(segments)@) + flushed(
            old(pending)@,
            style,
        ),
        final(pending)@.len() == 0,
{
    let ghost before = segment_views(segments@);
    if pending.len() > 0 {
        segments.push(
            HtmlSegment {
                text: from_chars(pending),
                bold: style.bold,
                italic: style.italic,
                underline: style.underline,
                is_link: style.is_link,
                is_newline: false,
            },
        );
        pending.clear();
    }
    assert(segment_views(segments@) =~= before + flushed(old(pending)@, style));
}

/// Reads the tag that opens at `at`: gives out the gathered text, then the
/// line break where the tag is one, and puts the tag's formatting in force.
/// Returns where the reading goes on.
fn read_tag(
    chars: &Vec<char>,
    at: usize,
    list: &mut Vec<HtmlSegment>,
    pending: &mut Vec<char>,
    style: &mut Style,
) -> (next: usize)
    requires
        at < chars.len(),
        chars@[at as int] == '<',
    ensures
        at < next <= chars.len(),
        segment_views(old(list)@) + segments_from(chars@, at as int, *old(style), old(pending)@)
            == segment_views(final(list)@) + segments_from(
            chars@,
            next as int,
            *final(style),
            final(pending)@,
        ),
{
    let ghost before = segment_views(list@);
    let ghost gathered = pending@;
    let ghost style_before = *style;
    let mut close: usize = at + 1;
    while close < chars.len() && chars[close] != '>'
        invariant
            at < close <= chars.len(),
            tag_end(chars@, at + 1) == tag_end(chars@, close as int),
        decreases chars.len() - close,
    {
        close += 1;
    }
    let tag = from_chars(&copy_slice(chars, at + 1, close));
    let lower = tag.as_str().to_lowercase();
    assert(lower@ == lowered(tag@));
    let effect = classify_tag(lower.as_str());
    flush(list, pending, *style);
    let ghost breaks = if effect == TagEffect::Break {
        seq![break_segment()]
    } else {
        Seq::<SegmentView>::empty()
    };
    let ghost flushed_now = segment_views(list@);
    if effect == TagEffect::Break {
        list.push(line_break());
    }
    assert(segment_views(list@) =~= flushed_now + breaks);
    match effect {
        TagEffect::Bold(on) => {
            style.bold = on;
        },
        TagEffect::Italic(on) => {
            style.italic = on;
        },
        TagEffect::Underline(on) => {
            style.underline = on;
        },
        TagEffect::Link(on) => {
            style.is_link = on;
        },
        _ => {},
    }
    assert(*style == style_after(style_before, effect));
    let next: usize = if close < chars.len() {
        close + 1
    } else {
        close
    };
    proof {
        let empty = Seq::<char>::empty();
        assert(pending@ =~= empty);
        let rest = segments_from(chars@, next as int, *style, empty);
        let tail = if close < chars.len() {
            segments_from(chars@, close + 1, *style, empty)
        } else {
            Seq::<SegmentView>::empty()
        };
        assert(rest =~= tail);
        assert(segments_from(chars@, at as int, style_before, gathered) == flushed(
            gathered,
            style_before,
        ) + breaks + tail);
        assert(before + (flushed(gathered, style_before) + breaks + rest) =~= (before + flushed(
            gathered,
            style_before,
        ) + breaks) + rest);
    }
    next
}

/// Reads the newline at `at`: gives out the gathered text and a line break.
fn read_newline(
    chars: &Vec<char>,
    at: usize,
    list: &mut Vec<HtmlSegment>,
    pending: &mut Vec<char>,
    style: Style,
)
    requires
        at < chars.len(),
        chars@[at as int] == '\n',
    ensures
        segment_views(old(list)@) + segments_from(chars@, at as int, style, old(pending)@)
            == segment_views(final(list)@) + segments_from(
            chars@,
            at + 1,
            style,
            final(pending)@,
        ),
{
    let ghost before = segment_views(list@);
    let ghost gathered = pending@;
    flush(list, pending, style);
    let ghost flushed_now = segment_views(list@);
    list.push(line_break());
    proof {
        let empty = Seq::<char>::empty();
        assert(pending@ =~= empty);
        let rest = segments_from(chars@, at + 1, style, empty);
        assert(segment_views(list@) =~= flushed_now + seq![break_segment()]);
        assert(before + (flushed(gathered, style) + seq![break_segment()] + rest) =~= (before
            + flushed(gathered, style) + seq![break_segment()]) + rest);
    }
}

/// Reads `html` into the runs of text that a preview shows, each with its
/// formatting, and the line breaks between them.
pub fn parse_html_segments(html: &str) -> (list: Vec<HtmlSegment>)
    ensures
        segment_views(list@) == segments(html@),
{
    let chars = to_chars(html);
    let mut list: Vec<HtmlSegment> = Vec::new();
    let mut style = Style { bold: false, italic: false, underline: false, is_link: false };
    let mut pending: Vec<char> = Vec::new();
    let mut at: usize = 0;
    assert(segment_views(list@) + segments(chars@) =~= segments(chars@));
    while at < chars.len()
        invariant
            at <= chars.len(),
            segments(chars@) == segment_views(list@) + segments_from(
                chars@,
                at as int,
                style,
                pending@,
            ),
        decreases chars.len() - at,
    {
        let c = chars[at];
        if c == '<' {
            at = read_tag(&chars, at, &mut list, &mut pending, &mut style);
        } else if c == '\n' {
            read_newline(&chars, at, &mut list, &mut pending, style);
            at += 1;
        } else {
            pending.push(c);
            at += 1;
        }
    }
    flush(&mut list, &mut pending, style);
    list
}

/// A tag of ASCII characters is read without regard to the case of its
/// letters: it does what the same tag in small letters does.
pub proof fn ascii_tag_is_read_in_any_case(tag: Seq<char>)
    requires
        is_ascii_text(tag),
    ensures
        lowered(tag) == ascii_lower(tag),
        lowered(ascii_lower(tag)) == ascii_lower(tag),
        tag_effect(lowered(tag)) == tag_effect(lowered(ascii_lower(tag))),
{
    let small = ascii_lower(tag);
    assert forall|i: int| 0 <= i < small.len() implies (small[i] as u32) < 128 by {
        assert((tag[i] as u32) < 128);
    }
    assert(ascii_lower(small) =~= small);
}

} // verus!
