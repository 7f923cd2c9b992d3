use bulk_mailer::config::{default_delay, SmtpConfig, DEFAULT_SEND_DELAY_MS};
use bulk_mailer::email::{
    assemble, build_message, conclude, plan_message, send_single, AddressField, BuildError,
};
use bulk_mailer::platform::timestamp_of;
use bulk_mailer::template::{EmailTemplate, Recipient};

fn config() -> SmtpConfig {
    SmtpConfig::new(
        String::from("smtp.example.org"),
        String::from("sender@example.org"),
        String::from("not-a-real-password"),
        String::from("The Sender"),
        None,
    )
}

fn recipient(email: &str, pairs: &[(&str, &str)]) -> Recipient {
    Recipient {
        email: email.to_string(),
        args: pairs.iter().map(|(k, v)| (k.to_string(), v.to_string())).collect(),
    }
}

fn template(subject: &str, body: &str, paths: &[&str]) -> EmailTemplate {
    let mut t = EmailTemplate::new(String::from("t"));
    t.subject = subject.to_string();
    t.body = body.to_string();
    t.attachment_paths = paths.iter().map(|p| p.to_string()).collect();
    t
}

fn text_of(message: &lettre::Message) -> String {
    String::from_utf8_lossy(&message.formatted()).into_owned()
}

#[test]
fn config_defaults_the_delay() {
    assert_eq!(default_delay(), 2000);
    assert_eq!(DEFAULT_SEND_DELAY_MS, 2000);
    assert_eq!(config().send_delay_ms, 2000);
    let c = SmtpConfig::new(String::new(), String::new(), String::new(), String::new(), Some(5));
    assert_eq!(c.send_delay_ms, 5);
    let copy = config().snapshot();
    assert_eq!(copy.host, "smtp.example.org");
    assert_eq!(copy.from_name, "The Sender");
}

#[test]
fn plan_holds_rendered_fields() {
    let t = template("Hello {name}", "Dear <b>{name}</b>,\nbye", &[]);
    let r = recipient("ada@example.org", &[("name", "Ada")]);
    let plan = plan_message(&config(), &t, &r, "u-u-i-d", 1700000000, &vec![], &vec![]);
    assert_eq!(plan.from, "The Sender <sender@example.org>");
    assert_eq!(plan.reply_to, "sender@example.org");
    assert_eq!(plan.to, "ada@example.org");
    assert_eq!(plan.subject, "Hello Ada");
    assert_eq!(plan.message_id, "<u-u-i-d.1700000000@smtp.example.org>");
    assert_eq!(plan.plain_body, "Dear Ada,\nbye");
    assert!(plan.html_body.contains(">Dear <b>Ada</b>,<br>bye</body></html>"));
    assert!(!plan.mixed);
    assert!(plan.attachments.is_empty());
}

#[test]
fn plan_skips_unreadable_files_and_names_the_rest() {
    let t = template("s", "b", &["/a/one.pdf", "/a/gone.pdf", "/", "/a/four.bin"]);
    let r = recipient("ada@example.org", &[]);
    let names = vec![
        Some(String::from("one.pdf")),
        Some(String::from("gone.pdf")),
        None,
        Some(String::from("four.bin")),
    ];
    let files = vec![Some(vec![1u8, 2, 3]), None, Some(vec![9u8])];
    let plan = plan_message(&config(), &t, &r, "id", 0, &names, &files);
    assert!(plan.mixed);
    assert_eq!(plan.attachments.len(), 2);
    assert_eq!(plan.attachments[0].filename, "one.pdf");
    assert_eq!(plan.attachments[0].content, vec![1u8, 2, 3]);
    assert_eq!(plan.attachments[1].filename, "attachment");
    assert_eq!(plan.attachments[1].content, vec![9u8]);
    assert_eq!(plan.message_id, "<id.0@smtp.example.org>");
}

#[test]
fn build_without_attachments_gives_an_alternative_body() {
    let t = template("Hello {name}", "Dear <b>{name}</b>", &[]);
    let r = recipient("Ada <ada@example.org>", &[("name", "Ada")]);
    let built = build_message(&config(), &t, &r, &vec![]).expect("built");
    let text = text_of(&built.message);
    assert!(text.contains("Subject: Hello Ada\r\n"));
    assert!(text.contains("From: \"The Sender\" <sender@example.org>\r\n"));
    assert!(text.contains("Reply-To: sender@example.org\r\n"));
    assert!(text.contains("To: Ada <ada@example.org>\r\n"));
    assert!(text.contains("Content-Type: multipart/alternative;"));
    assert!(!text.contains("multipart/mixed"));
    assert!(text.contains("Content-Type: text/plain; charset=utf-8"));
    assert!(text.contains("Content-Type: text/html; charset=utf-8"));
    assert!(text.contains("Dear Ada"));
    assert!(text.contains(&format!("Message-ID: {}\r\n", built.plan.message_id)));
    assert_eq!(built.plan.subject, "Hello Ada");
    assert_eq!(built.plan.plain_body, "Dear Ada");
}

#[test]
fn build_makes_a_fresh_message_id_each_time() {
    let t = template("s", "b", &[]);
    let r = recipient("ada@example.org", &[]);
    let a = build_message(&config(), &t, &r, &vec![]).expect("built");
    let b = build_message(&config(), &t, &r, &vec![]).expect("built");
    assert_ne!(a.plan.message_id, b.plan.message_id);
    let id = &a.plan.message_id;
    assert!(id.starts_with('<') && id.ends_with("@smtp.example.org>"));
    assert_eq!(id.as_bytes()[37], b'.');
    let seconds = &id[38..id.len() - "@smtp.example.org>".len()];
    assert!(!seconds.is_empty() && seconds.chars().all(|c| c.is_ascii_digit()));
}

#[test]
fn build_attaches_the_bytes_that_were_read() {
    let t = template("s", "b", &["/data/report.bin", "/data/missing.bin"]);
    let r = recipient("ada@example.org", &[]);
    let files = vec![Some(vec![0u8, 1, 2, 255]), None];
    let built = build_message(&config(), &t, &r, &files).expect("built");
    assert!(built.plan.mixed);
    assert_eq!(built.plan.attachments.len(), 1);
    assert_eq!(built.plan.attachments[0].filename, "report.bin");
    assert_eq!(built.plan.attachments[0].content, vec![0u8, 1, 2, 255]);
    let text = text_of(&built.message);
    assert!(text.contains("Content-Type: multipart/mixed;"));
    assert!(text.contains("Content-Type: multipart/alternative;"));
    assert!(text.contains("Content-Type: application/octet-stream"));
    assert!(text.contains("Content-Disposition: attachment; filename=\"report.bin\""));
    assert!(text.contains("AAEC/w=="));
    assert!(!text.contains("missing.bin"));
}

#[test]
fn build_with_only_unreadable_files_is_still_mixed() {
    let t = template("s", "b", &["/data/missing.bin"]);
    let r = recipient("ada@example.org", &[]);
    let built = build_message(&config(), &t, &r, &vec![None]).expect("built");
    assert!(built.plan.mixed && built.plan.attachments.is_empty());
    let text = text_of(&built.message);
    assert!(text.contains("Content-Type: multipart/mixed;"));
    assert!(!text.contains("Content-Disposition: attachment"));
    let short = build_message(&config(), &t, &r, &vec![]).expect("built");
    assert!(short.plan.mixed && short.plan.attachments.is_empty());
}

#[test]
fn build_names_a_file_without_name_by_the_fallback() {
    let t = template("s", "b", &["/"]);
    let r = recipient("ada@example.org", &[]);
    let built = build_message(&config(), &t, &r, &vec![Some(vec![104u8, 105])]).expect("built");
    assert_eq!(built.plan.attachments[0].filename, "attachment");
    assert!(text_of(&built.message).contains("filename=\"attachment\""));
}

#[test]
fn build_rejects_a_bad_recipient_address() {
    let t = template("s", "b", &[]);
    let r = recipient("not an address", &[]);
    match build_message(&config(), &t, &r, &vec![]) {
        Err(BuildError::Address { field, reason }) => {
            assert_eq!(field, AddressField::To);
            assert!(!reason.is_empty());
            assert_ne!(reason, "not an address");
        }
        other => panic!("expected an address error, got {:?}", other.map(|b| b.plan)),
    }
}

#[test]
fn build_reports_the_first_bad_field() {
    let t = template("s", "b", &[]);
    let mut c = config();
    c.username = String::from("nobody");
    let r = recipient("also bad", &[]);
    match build_message(&c, &t, &r, &vec![]) {
        Err(BuildError::Address { field, .. }) => assert_eq!(field, AddressField::From),
        other => panic!("expected an address error, got {:?}", other.map(|b| b.plan)),
    }
    let mut plan = plan_message(&config(), &t, &recipient("ada@example.org", &[]), "id", 1, &vec![], &vec![]);
    plan.reply_to = String::from("@@");
    match assemble(plan) {
        Err(BuildError::Address { field, .. }) => assert_eq!(field, AddressField::ReplyTo),
        other => panic!("expected an address error, got {:?}", other.map(|b| b.plan)),
    }
}

#[test]
fn describe_names_the_field() {
    let e = BuildError::Address { field: AddressField::To, reason: String::from("Invalid input") };
    assert_eq!(e.describe(), "To address: Invalid input");
    let e = BuildError::Address { field: AddressField::ReplyTo, reason: String::from("x") };
    assert_eq!(e.describe(), "Reply-To address: x");
    let e = BuildError::Address { field: AddressField::From, reason: String::new() };
    assert_eq!(e.describe(), "From address: ");
    let e = BuildError::Assembly { reason: String::from("broken") };
    assert_eq!(e.describe(), "broken");
}

#[test]
fn send_single_stops_at_a_failed_session() {
    let t = template("s", "b", &[]);
    let r = recipient("bad address", &[]);
    let ready = send_single(&config(), &t, &r, Err(String::from("no route")), &vec![]);
    assert_eq!(ready.err(), Some(String::from("no route")));
}

#[test]
fn send_single_builds_or_describes() {
    let t = template("Hi {n}", "b", &[]);
    let good = recipient("ada@example.org", &[("n", "A")]);
    let ready = send_single(&config(), &t, &good, Ok(()), &vec![]).expect("built");
    assert_eq!(ready.plan.subject, "Hi A");
    let bad = recipient("bad address", &[]);
    let text = send_single(&config(), &t, &bad, Ok(()), &vec![]).err().expect("error");
    assert!(text.starts_with("To address: "));
}

#[test]
fn conclude_passes_the_message_or_the_reason_on() {
    let t = template("s", "b", &[]);
    let r = recipient("ada@example.org", &[]);
    let built = build_message(&config(), &t, &r, &vec![]).expect("built");
    let plan = plan_message(&config(), &t, &r, "id", 5, &vec![], &vec![]);
    let again = conclude(plan, Ok(built.message)).expect("message");
    assert_eq!(again.plan.message_id, "<id.5@smtp.example.org>");
    assert!(text_of(&again.message).contains("Subject: s\r\n"));
    let plan = plan_message(&config(), &t, &r, "id", 5, &vec![], &vec![]);
    match conclude(plan, Err(String::from("no parts"))) {
        Err(BuildError::Assembly { reason }) => assert_eq!(reason, "no parts"),
        other => panic!("expected an assembly error, got {:?}", other.map(|b| b.plan)),
    }
}

#[test]
fn mixed_body_holds_the_alternative_and_one_part_per_file() {
    let t = template("s", "b", &["/d/one.bin", "/d/gone.bin", "/d/two.bin"]);
    let r = recipient("ada@example.org", &[]);
    let files = vec![Some(vec![1u8]), None, Some(vec![2u8, 3])];
    let built = build_message(&config(), &t, &r, &files).expect("built");
    let text = text_of(&built.message);
    assert_eq!(text.matches("Content-Type: multipart/mixed;").count(), 1);
    assert_eq!(text.matches("Content-Type: multipart/alternative;").count(), 1);
    assert_eq!(text.matches("Content-Type: text/plain; charset=utf-8").count(), 1);
    assert_eq!(text.matches("Content-Type: text/html; charset=utf-8").count(), 1);
    assert_eq!(text.matches("Content-Disposition: attachment;").count(), 2);
    let mixed = text.find("multipart/mixed").expect("mixed");
    let alternative = text.find("multipart/alternative").expect("alternative");
    let plain = text.find("text/plain").expect("plain");
    let html = text.find("text/html").expect("html");
    let one = text.find("filename=\"one.bin\"").expect("one");
    let two = text.find("filename=\"two.bin\"").expect("two");
    assert!(mixed < alternative && alternative < plain && plain < html);
    assert!(html < one && one < two);
}

#[test]
fn plain_body_holds_the_two_variants_only() {
    let t = template("s", "b", &[]);
    let r = recipient("ada@example.org", &[]);
    let built = build_message(&config(), &t, &r, &vec![]).expect("built");
    let text = text_of(&built.message);
    assert_eq!(text.matches("Content-Type: multipart/").count(), 1);
    assert_eq!(text.matches("Content-Type: text/").count(), 2);
    assert_eq!(text.matches("Content-Transfer-Encoding:").count(), 2);
}

#[test]
fn timestamp_falls_back_to_zero() {
    assert_eq!(timestamp_of(Some(1700000000)), 1700000000);
    assert_eq!(timestamp_of(Some(0)), 0);
    assert_eq!(timestamp_of(None), 0);
}

#[test]
fn message_holds_the_headers_of_the_plan() {
    let t = template("Hello {name}", "Dear {name}", &[]);
    let r = recipient("Ada <ada@example.org>", &[("name", "Ada")]);
    let built = build_message(&config(), &t, &r, &vec![]).expect("built");
    let headers = built.message.headers();
    assert_eq!(headers.get_raw("subject"), Some("Hello Ada"));
    assert_eq!(headers.get_raw("message-id"), Some(built.plan.message_id.as_str()));
    assert_eq!(headers.get_raw("from"), Some("The Sender <sender@example.org>"));
    assert_eq!(headers.get_raw("reply-to"), Some("sender@example.org"));
    assert_eq!(headers.get_raw("to"), Some("Ada <ada@example.org>"));
    assert_eq!(headers.get_raw("mime-version"), Some("1.0"));
    assert!(headers.get_raw("date").is_some());
    assert!(headers.get_raw("bcc").is_none());
    assert!(headers.get_raw("cc").is_none());
    let text = text_of(&built.message);
    let head = &text[..text.find("\r\n\r\n").expect("end of headers")];
    for name in ["From: ", "Reply-To: ", "To: ", "Subject: ", "Message-ID: ", "MIME-Version: ", "Date: ", "Content-Type: "] {
        assert_eq!(head.matches(&format!("\r\n{}", name)).count() + usize::from(head.starts_with(name)), 1);
    }
}

#[test]
fn sender_and_recipient_go_to_their_own_fields() {
    let t = template("s", "b", &[]);
    let r = recipient("zoe@example.net", &[]);
    let built = build_message(&config(), &t, &r, &vec![]).expect("built");
    let headers = built.message.headers();
    assert_eq!(headers.get_raw("to"), Some("zoe@example.net"));
    assert_eq!(headers.get_raw("from"), Some("The Sender <sender@example.org>"));
    let envelope = built.message.envelope();
    assert_eq!(envelope.from().map(|a| a.to_string()), Some(String::from("sender@example.org")));
    assert_eq!(envelope.to().len(), 1);
    assert_eq!(envelope.to()[0].to_string(), "zoe@example.net");
}

#[test]
fn line_break_in_a_name_is_refused_or_dropped() {
    let t = template("s", "b", &[]);
    let r = recipient("ada@example.org", &[]);
    let mut c = config();
    c.from_name = String::from("The\nSender");
    match build_message(&c, &t, &r, &vec![]) {
        Err(BuildError::Address { field, .. }) => assert_eq!(field, AddressField::From),
        other => panic!("expected an address error, got {:?}", other.map(|b| b.plan)),
    }
    c.from_name = String::from("\r\nSender");
    let built = build_message(&c, &t, &r, &vec![]).expect("built");
    assert_eq!(built.message.headers().get_raw("from"), Some("Sender <sender@example.org>"));
    let odd = recipient("\"A\\\"B\" <ab@example.org>", &[]);
    let built = build_message(&config(), &t, &odd, &vec![]).expect("built");
    assert!(built.message.headers().get_raw("to").is_some());
}

#[test]
fn parts_carry_the_bodies_of_the_plan() {
    let t = template("s", "Line one\nLine <b>two</b>", &["/d/a.bin"]);
    let r = recipient("ada@example.org", &[]);
    let built = build_message(&config(), &t, &r, &vec![Some(vec![0u8, 159, 146, 150])]).expect("built");
    let text = text_of(&built.message);
    let plain = text.find("Content-Type: text/plain").expect("plain");
    let html = text.find("Content-Type: text/html").expect("html");
    let file = text.find("Content-Disposition: attachment").expect("file");
    assert!(text[plain..html].contains("Line one\r\nLine two"));
    assert!(!text[plain..html].contains("<b>"));
    let unfolded = text[html..file].replace("=\r\n", "");
    assert!(unfolded.contains("Line one<br>Line <b>two</b>"));
    assert!(text[file..].contains("AJ+Slg=="));
}

#[test]
fn attachment_names_are_segments_of_their_paths() {
    let t = template("s", "b", &["/data/dir/", "notes.txt", "/a/b/../c.bin", "/a/..", "x/./"]);
    let r = recipient("ada@example.org", &[]);
    let files = vec![Some(vec![1u8]), Some(vec![2u8]), Some(vec![3u8]), Some(vec![4u8]), Some(vec![5u8])];
    let built = build_message(&config(), &t, &r, &files).expect("built");
    let names: Vec<&str> = built.plan.attachments.iter().map(|a| a.filename.as_str()).collect();
    assert_eq!(names, vec!["dir", "notes.txt", "c.bin", "attachment", "x"]);
    for (attachment, path) in built.plan.attachments.iter().zip(t.attachment_paths.iter()) {
        if attachment.filename != "attachment" {
            assert!(path.contains(attachment.filename.as_str()));
            assert!(!attachment.filename.is_empty() && !attachment.filename.contains('/'));
        }
    }
}

#[test]
fn valid_addresses_always_give_a_message() {
    let r = recipient("ada@example.org", &[]);
    let none = template("", "", &[]);
    assert!(build_message(&config(), &none, &r, &vec![]).is_ok());
    let gone = template("s", "b", &["/gone/one", "/gone/two"]);
    let built = build_message(&config(), &gone, &r, &vec![None, None]).expect("built");
    assert!(built.plan.attachments.is_empty());
    let empty = template("s", "b", &["/d/empty"]);
    let built = build_message(&config(), &empty, &r, &vec![Some(Vec::new())]).expect("built");
    assert_eq!(built.plan.attachments.len(), 1);
    assert!(built.plan.attachments[0].content.is_empty());
    let named = recipient("\"Ünï Cödé, Jr.\" <uni@example.org>", &[]);
    assert!(build_message(&config(), &none, &named, &vec![]).is_ok());
    assert!(send_single(&config(), &none, &named, Ok(()), &vec![]).is_ok());
}
