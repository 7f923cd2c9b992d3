use bulk_mailer::preview::{classify_tag, parse_html_segments, HtmlSegment, TagEffect};

fn shape(s: &HtmlSegment) -> (String, bool, bool, bool, bool, bool) {
    (s.text.clone(), s.bold, s.italic, s.underline, s.is_link, s.is_newline)
}

fn text(t: &str, bold: bool, italic: bool, underline: bool, link: bool) -> (String, bool, bool, bool, bool, bool) {
    (t.to_string(), bold, italic, underline, link, false)
}

fn newline() -> (String, bool, bool, bool, bool, bool) {
    (String::new(), false, false, false, false, true)
}

fn parse(html: &str) -> Vec<(String, bool, bool, bool, bool, bool)> {
    parse_html_segments(html).iter().map(shape).collect()
}

#[test]
fn plain_text_is_one_segment() {
    assert_eq!(parse("hello world"), vec![text("hello world", false, false, false, false)]);
    assert!(parse("").is_empty());
}

#[test]
fn tags_switch_formatting() {
    assert_eq!(
        parse("a<b>b<i>bi</i></b><u>u</u>z"),
        vec![
            text("a", false, false, false, false),
            text("b", true, false, false, false),
            text("bi", true, true, false, false),
            text("u", false, false, true, false),
            text("z", false, false, false, false),
        ]
    );
}

#[test]
fn strong_and_em_are_read_in_any_case() {
    assert_eq!(
        parse("<STRONG>s</Strong><Em>e</EM>"),
        vec![text("s", true, false, false, false), text("e", false, true, false, false)]
    );
}

#[test]
fn links_and_breaks() {
    assert_eq!(
        parse("see <a href=\"x\">here</a><br>next<br/>last<BR />\nend"),
        vec![
            text("see ", false, false, false, false),
            text("here", false, false, false, true),
            newline(),
            text("next", false, false, false, false),
            newline(),
            text("last", false, false, false, false),
            newline(),
            newline(),
            text("end", false, false, false, false),
        ]
    );
}

#[test]
fn unknown_and_unclosed_tags() {
    assert_eq!(
        parse("a<span>b</span>c<b"),
        vec![
            text("a", false, false, false, false),
            text("b", false, false, false, false),
            text("c", false, false, false, false),
        ]
    );
    assert_eq!(parse("x<abbr>y"), vec![text("x", false, false, false, false), text("y", false, false, false, false)]);
    assert_eq!(parse("x<a>y"), vec![text("x", false, false, false, false), text("y", false, false, false, true)]);
}

#[test]
fn tag_names_are_classified() {
    assert_eq!(classify_tag("b"), TagEffect::Bold(true));
    assert_eq!(classify_tag("/strong"), TagEffect::Bold(false));
    assert_eq!(classify_tag("em"), TagEffect::Italic(true));
    assert_eq!(classify_tag("/i"), TagEffect::Italic(false));
    assert_eq!(classify_tag("u"), TagEffect::Underline(true));
    assert_eq!(classify_tag("/u"), TagEffect::Underline(false));
    assert_eq!(classify_tag("a href=\"x\""), TagEffect::Link(true));
    assert_eq!(classify_tag("a"), TagEffect::Link(true));
    assert_eq!(classify_tag("/a"), TagEffect::Link(false));
    assert_eq!(classify_tag("br /"), TagEffect::Break);
    assert_eq!(classify_tag("B"), TagEffect::Nothing);
    assert_eq!(classify_tag("article"), TagEffect::Nothing);
    assert_eq!(classify_tag(""), TagEffect::Nothing);
}

#[test]
fn ascii_tags_are_read_in_any_case() {
    assert_eq!(parse("<B>x</B>y"), vec![text("x", true, false, false, false), text("y", false, false, false, false)]);
    assert_eq!(parse("a<BR>b"), vec![text("a", false, false, false, false), newline(), text("b", false, false, false, false)]);
    assert_eq!(parse("<A HREF=\"u\">l</a>"), vec![text("l", false, false, false, true)]);
}
