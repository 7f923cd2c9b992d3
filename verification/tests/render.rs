use bulk_mailer::placeholders::extract;
use bulk_mailer::render::render_with;
use bulk_mailer::template::{copy_args, ensure_arg, EmailTemplate, Recipient};
use bulk_mailer::text::copy_strings;

fn recipient(pairs: &[(&str, &str)]) -> Recipient {
    Recipient {
        email: String::from("ada@example.org"),
        args: pairs.iter().map(|(k, v)| (k.to_string(), v.to_string())).collect(),
    }
}

fn template(subject: &str, body: &str) -> EmailTemplate {
    let mut t = EmailTemplate::new(String::from("greeting"));
    t.subject = subject.to_string();
    t.body = body.to_string();
    t
}

#[test]
fn render_replaces_bound_placeholder() {
    let t = template("", "Hi {name}");
    assert_eq!(t.render_body(&recipient(&[("name", "Ada")])), "Hi Ada");
}

#[test]
fn render_keeps_unbound_placeholder() {
    let t = template("", "Hi {name}");
    assert_eq!(t.render_body(&recipient(&[])), "Hi {name}");
}

#[test]
fn render_without_brace_is_identity() {
    let t = template("", "");
    let r = recipient(&[("name", "Ada"), ("", "x")]);
    assert_eq!(t.render_text("plain } text, no opening brace", &r), "plain } text, no opening brace");
    assert_eq!(t.render_text("", &r), "");
}

#[test]
fn render_ignores_keys_without_placeholder() {
    let t = template("", "");
    assert_eq!(t.render_text("Hi {name}", &recipient(&[("city", "Paris")])), "Hi {name}");
}

#[test]
fn render_replaces_every_occurrence() {
    let t = template("", "");
    let r = recipient(&[("a", "1"), ("b", "22")]);
    assert_eq!(t.render_text("{a}{b}{a} {b}-{c}", &r), "1221 22-{c}");
}

#[test]
fn render_does_not_expand_substituted_values() {
    let t = template("", "");
    let r = recipient(&[("a", "{b}"), ("b", "{a}")]);
    assert_eq!(t.render_text("{a} and {b}", &r), "{b} and {a}");
}

#[test]
fn render_finds_placeholder_behind_stray_brace() {
    let t = template("", "");
    let r = recipient(&[("b", "X")]);
    assert_eq!(t.render_text("{a{b}", &r), "{aX");
    assert_eq!(t.render_text("{b", &r), "{b");
    assert_eq!(t.render_text("{{b}}", &r), "{X}");
}

#[test]
fn render_takes_the_later_of_two_bindings() {
    let t = template("", "");
    let r = recipient(&[("a", "old"), ("a", "new")]);
    assert_eq!(t.render_text("{a}", &r), "new");
}

#[test]
fn render_replaces_empty_key_when_bound() {
    let t = template("", "");
    assert_eq!(t.render_text("a{}b", &recipient(&[("", "-")])), "a-b");
    assert_eq!(t.render_text("a{}b", &recipient(&[])), "a{}b");
}

#[test]
fn render_takes_the_shortest_placeholder() {
    let t = template("", "");
    let r = recipient(&[("a}b", "long"), ("a", "short")]);
    assert_eq!(t.render_text("{a}b}", &r), "shortb}");
    let r = recipient(&[("a}b", "long")]);
    assert_eq!(t.render_text("{a}b}", &r), "long");
}

#[test]
fn render_handles_non_ascii_text() {
    let t = template("", "");
    let r = recipient(&[("név", "Ádám")]);
    assert_eq!(t.render_text("Szia {név} ✓", &r), "Szia Ádám ✓");
}

#[test]
fn render_subject_uses_the_subject() {
    let t = template("Offer for {name}", "Dear {name},\n{offer}");
    let r = recipient(&[("name", "Ada"), ("offer", "10%")]);
    assert_eq!(t.render_subject(&r), "Offer for Ada");
    assert_eq!(t.render_body(&r), "Dear Ada,\n10%");
}

#[test]
fn extract_lists_keys_once_in_first_seen_order() {
    let t = template("{b} and {a}", "{a} {c} {b} {d}");
    assert_eq!(t.extract_placeholders(), vec!["b", "a", "c", "d"]);
}

#[test]
fn extract_ignores_empty_spans() {
    let t = template("{}", "x {} {k} {}");
    assert_eq!(t.extract_placeholders(), vec!["k"]);
}

#[test]
fn extract_yields_nothing_for_unterminated_brace() {
    let t = template("", "{a} then {open");
    assert_eq!(t.extract_placeholders(), vec!["a"]);
    let t = template("", "{open");
    assert!(t.extract_placeholders().is_empty());
}

#[test]
fn extract_runs_a_span_from_subject_into_body() {
    let t = template("Hi {na", "me} and {x}");
    assert_eq!(t.extract_placeholders(), vec!["name", "x"]);
    let t = template("{a", "b}");
    assert_eq!(t.extract_placeholders(), vec!["ab"]);
    let t = template("{a}", "{b}");
    assert_eq!(t.extract_placeholders(), vec!["a", "b"]);
}

#[test]
fn extract_takes_a_span_to_the_next_closing_brace() {
    let t = template("", "{a{b} c}");
    assert_eq!(t.extract_placeholders(), vec!["a{b"]);
}

#[test]
fn extract_of_empty_template_is_empty() {
    let t = template("", "");
    assert!(t.extract_placeholders().is_empty());
}

#[test]
fn new_template_is_empty_and_has_a_uuid() {
    let t = EmailTemplate::new(String::from("n"));
    assert_eq!(t.name, "n");
    assert!(t.subject.is_empty() && t.body.is_empty());
    assert!(t.attachment_paths.is_empty() && t.recipients.is_empty());
    assert_eq!(t.id.len(), 36);
    for (i, c) in t.id.chars().enumerate() {
        if i == 8 || i == 13 || i == 18 || i == 23 {
            assert_eq!(c, '-');
        } else {
            assert!(c.is_ascii_digit() || ('a'..='f').contains(&c));
        }
    }
    assert_eq!(t.id.chars().nth(14), Some('4'));
    assert_ne!(t.id, EmailTemplate::new(String::from("n")).id);
}

#[test]
fn snapshot_equals_the_template() {
    let mut t = template("s {a}", "b");
    t.attachment_paths.push(String::from("/tmp/x.pdf"));
    t.recipients.push(recipient(&[("a", "1")]));
    let copy = t.snapshot();
    assert_eq!(copy.id, t.id);
    assert_eq!(copy.subject, "s {a}");
    assert_eq!(copy.attachment_paths, t.attachment_paths);
    assert_eq!(copy.recipients.len(), 1);
    assert_eq!(copy.recipients[0].email, "ada@example.org");
    assert_eq!(copy.recipients[0].args, t.recipients[0].args);
}

#[test]
fn render_with_takes_a_plain_argument_list() {
    let args = vec![(String::from("n"), String::from("1"))];
    assert_eq!(render_with("a{n}b{m}", &args), "a1b{m}");
    assert_eq!(render_with("a{n}b{m}", &Vec::new()), "a{n}b{m}");
}

#[test]
fn extract_works_on_plain_texts() {
    assert_eq!(extract("{x}", "{y}{x}"), vec!["x", "y"]);
    assert!(extract("", "").is_empty());
}

#[test]
fn ensure_arg_finds_or_adds_the_binding() {
    let mut args = vec![
        (String::from("a"), String::from("1")),
        (String::from("b"), String::from("2")),
        (String::from("a"), String::from("3")),
    ];
    assert_eq!(ensure_arg(&mut args, "a"), 2);
    assert_eq!(ensure_arg(&mut args, "b"), 1);
    assert_eq!(args.len(), 3);
    assert_eq!(ensure_arg(&mut args, "c"), 3);
    assert_eq!(args[3], (String::from("c"), String::new()));
    let mut none: Vec<(String, String)> = Vec::new();
    assert_eq!(ensure_arg(&mut none, ""), 0);
    assert_eq!(none, vec![(String::new(), String::new())]);
}

#[test]
fn copies_are_equal() {
    let args = vec![(String::from("a"), String::from("1")), (String::from("b"), String::new())];
    assert_eq!(copy_args(&args), args);
    let list = vec![String::from("x"), String::new(), String::from("ÿ")];
    assert_eq!(copy_strings(&list), list);
    let r = recipient(&[("k", "v")]);
    let copy = r.snapshot();
    assert_eq!(copy.email, r.email);
    assert_eq!(copy.args, r.args);
}

#[test]
fn with_id_keeps_the_identifier() {
    let a = EmailTemplate::with_id(String::from("n"), String::from("id-1"));
    let b = EmailTemplate::with_id(String::from("n"), String::from("id-2"));
    assert_eq!(a.id, "id-1");
    assert_eq!(b.id, "id-2");
    assert_eq!(a.name, "n");
    assert_ne!(a.id, b.id);
    assert!(a.subject.is_empty() && a.body.is_empty());
    assert!(a.attachment_paths.is_empty() && a.recipients.is_empty());
}
