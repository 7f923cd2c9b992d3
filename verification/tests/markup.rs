use bulk_mailer::markup::{html_body, strip_html_tags, HTML_CLOSE, HTML_OPEN};
use bulk_mailer::text::{decimal_chars, from_chars, to_chars};

#[test]
fn strip_removes_trivial_tags() {
    assert_eq!(strip_html_tags("<b>hello</b> world"), "hello world");
}

#[test]
fn strip_keeps_text_without_tags() {
    assert_eq!(strip_html_tags("no markup here"), "no markup here");
    assert_eq!(strip_html_tags(""), "");
}

#[test]
fn strip_consumes_unterminated_tag_to_the_end() {
    assert_eq!(strip_html_tags("before <a href=x and the rest"), "before ");
}

#[test]
fn strip_keeps_a_closing_bracket_outside_a_tag() {
    assert_eq!(strip_html_tags("1 > 0 <b>ok</b>"), "1 > 0 ok");
    assert_eq!(strip_html_tags("a > b"), "a > b");
    assert_eq!(strip_html_tags("<<i>>x"), ">x");
    assert_eq!(strip_html_tags(">"), ">");
}

#[test]
fn strip_keeps_newlines_and_entities() {
    assert_eq!(strip_html_tags("line 1<br>\nline 2 &amp; <u>more</u>"), "line 1\nline 2 &amp; more");
}

#[test]
fn strip_is_idempotent_on_an_example() {
    let once = strip_html_tags("<p>a <b>b</b> > c</p");
    assert_eq!(strip_html_tags(&once), once);
}

#[test]
fn html_body_wraps_and_breaks_lines() {
    let html = html_body("Hi <b>Ada</b>\nBye\n");
    assert_eq!(
        html,
        "<!DOCTYPE html><html><head><meta charset=\"UTF-8\"></head><body style=\"font-family: Arial, sans-serif; font-size: 14px; color: #222;\">Hi <b>Ada</b><br>Bye<br></body></html>"
    );
}

#[test]
fn html_body_of_empty_text_is_the_shell() {
    assert_eq!(html_body(""), format!("{}{}", HTML_OPEN, HTML_CLOSE));
}

#[test]
fn chars_round_trip() {
    let text = "héllo ✓ {x}";
    assert_eq!(from_chars(&to_chars(text)), text);
    assert_eq!(to_chars(text).len(), 11);
}

#[test]
fn decimal_writes_numbers() {
    let s = |n: u128| decimal_chars(n).into_iter().collect::<String>();
    assert_eq!(s(0), "0");
    assert_eq!(s(7), "7");
    assert_eq!(s(10), "10");
    assert_eq!(s(1700000000), "1700000000");
    assert_eq!(s(u64::MAX as u128), "18446744073709551615");
    assert_eq!(s(u128::MAX), "340282366920938463463374607431768211455");
}
