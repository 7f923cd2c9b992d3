use bulk_mailer::app::{status_line_of, wrap_body_selection, EmailApp};
use bulk_mailer::config::SmtpConfig;
use bulk_mailer::email::SendProgress;
use bulk_mailer::template::EmailTemplate;

fn config() -> SmtpConfig {
    SmtpConfig::new(
        String::from("smtp.example.org"),
        String::from("sender@example.org"),
        String::from("not-a-real-password"),
        String::from("The Sender"),
        None,
    )
}

fn named(name: &str) -> EmailTemplate {
    EmailTemplate::new(name.to_string())
}

fn sent(index: usize, email: &str) -> SendProgress {
    SendProgress::Sent { index, email: email.to_string() }
}

fn failed(index: usize, email: &str, error: &str) -> SendProgress {
    SendProgress::Failed { index, email: email.to_string(), error: error.to_string() }
}

#[test]
fn new_app_is_idle() {
    let app = EmailApp::new(config(), vec![named("a")]);
    assert_eq!(app.templates.len(), 1);
    assert_eq!(app.selected_template, None);
    assert!(!app.is_sending && !app.show_confirm_dialog);
    assert!(app.status_log.is_empty());
    assert!(app.new_recipient_email.is_empty() && app.new_recipient_args.is_empty());
    assert!(app.new_template_name.is_empty());
    assert_eq!(app.preview_recipient_idx, None);
    assert!(!app.can_send());
}

#[test]
fn status_lines_count_from_one() {
    assert_eq!(status_line_of(&sent(0, "a@x.org")), "✓ [1] Sent to a@x.org");
    assert_eq!(status_line_of(&failed(9, "b@x.org", "boom")), "✗ [10] Failed to send to b@x.org: boom");
    assert_eq!(status_line_of(&SendProgress::Done), "— Bulk send complete.");
    assert_eq!(
        status_line_of(&sent(usize::MAX, "z")),
        format!("✓ [{}] Sent to z", usize::MAX as u128 + 1)
    );
}

#[test]
fn poll_logs_and_stops_at_done() {
    let mut app = EmailApp::new(config(), vec![]);
    app.is_sending = true;
    assert!(!app.poll_progress(&vec![sent(0, "a@x.org")]));
    assert!(app.is_sending);
    assert!(!app.poll_progress(&vec![]));
    let finished = app.poll_progress(&vec![failed(1, "b@x.org", "no"), SendProgress::Done, sent(2, "late")]);
    assert!(finished);
    assert!(!app.is_sending);
    assert_eq!(
        app.status_log,
        vec!["✓ [1] Sent to a@x.org", "✗ [2] Failed to send to b@x.org: no", "— Bulk send complete."]
    );
}

#[test]
fn add_select_and_delete_templates() {
    let mut app = EmailApp::new(config(), vec![named("a"), named("b"), named("c")]);
    assert!(!app.add_template());
    app.new_template_name = String::from("d");
    assert!(app.add_template());
    assert_eq!(app.templates.len(), 4);
    assert_eq!(app.templates[3].name, "d");
    assert_eq!(app.selected_template, Some(3));
    assert!(app.new_template_name.is_empty());

    app.new_recipient_email = String::from("typed");
    app.preview_recipient_idx = Some(0);
    app.select_template(9);
    assert_eq!(app.selected_template, Some(3));
    assert_eq!(app.new_recipient_email, "typed");
    app.select_template(1);
    assert_eq!(app.selected_template, Some(1));
    assert!(app.new_recipient_email.is_empty());
    assert_eq!(app.preview_recipient_idx, None);

    assert!(!app.delete_template(4));
    assert!(app.delete_template(2));
    assert_eq!(app.selected_template, Some(1));
    assert!(app.delete_template(0));
    assert_eq!(app.selected_template, Some(0));
    assert_eq!(app.templates[0].name, "b");
    assert!(app.delete_template(0));
    assert_eq!(app.selected_template, None);
    assert_eq!(app.templates.len(), 1);
    assert_eq!(app.templates[0].name, "d");
}

#[test]
fn add_recipient_needs_selection_and_address() {
    let mut app = EmailApp::new(config(), vec![named("a")]);
    app.new_recipient_email = String::from("ada@example.org");
    assert!(!app.add_recipient());
    app.select_template(0);
    assert!(!app.add_recipient());
    app.new_recipient_email = String::from("ada@example.org");
    app.new_recipient_args = vec![(String::from("name"), String::from("Ada"))];
    assert!(!app.can_send());
    assert!(app.add_recipient());
    assert_eq!(app.templates[0].recipients.len(), 1);
    assert_eq!(app.templates[0].recipients[0].email, "ada@example.org");
    assert_eq!(app.templates[0].recipients[0].args, vec![(String::from("name"), String::from("Ada"))]);
    assert!(app.new_recipient_email.is_empty() && app.new_recipient_args.is_empty());
    assert!(app.can_send());
}

#[test]
fn confirm_starts_a_send_with_a_snapshot() {
    let mut app = EmailApp::new(config(), vec![named("news")]);
    assert!(app.confirm_bulk_send().is_none());
    app.select_template(0);
    app.new_recipient_email = String::from("ada@example.org");
    app.add_recipient();
    app.show_confirm_dialog = true;
    let (cfg, snapshot) = app.confirm_bulk_send().expect("job");
    assert_eq!(cfg.host, "smtp.example.org");
    assert_eq!(snapshot.id, app.templates[0].id);
    assert_eq!(snapshot.recipients.len(), 1);
    assert!(app.is_sending && !app.show_confirm_dialog);
    assert!(!app.can_send());
    assert_eq!(app.status_log, vec!["— Starting bulk send for 'news'..."]);
}

#[test]
fn single_results_are_logged() {
    let mut app = EmailApp::new(config(), vec![]);
    app.log_single_result("a@x.org", &Ok(()));
    app.log_single_result("b@x.org", &Err(String::from("refused")));
    assert_eq!(app.status_log, vec!["✓ Sent to a@x.org", "✗ Failed to send to b@x.org: refused"]);
}

#[test]
fn wrap_appends_both_tags() {
    let mut body = String::from("Hi");
    wrap_body_selection(&mut body, "<b>", "</b>");
    assert_eq!(body, "Hi<b></b>");
}
