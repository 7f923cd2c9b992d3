use bulk_mailer::config::SmtpConfig;
use bulk_mailer::dispatch::{DispatchAction, DispatchEvent, DispatchState, Dispatcher};
use bulk_mailer::email::{BuildError, SendProgress};
use bulk_mailer::template::{EmailTemplate, Recipient};

fn config(delay: u64) -> SmtpConfig {
    SmtpConfig::new(
        String::from("smtp.example.org"),
        String::from("sender@example.org"),
        String::from("not-a-real-password"),
        String::from("The Sender"),
        Some(delay),
    )
}

fn batch(emails: &[&str]) -> EmailTemplate {
    let mut t = EmailTemplate::new(String::from("t"));
    t.subject = String::from("s");
    t.body = String::from("b");
    for e in emails {
        t.recipients.push(Recipient { email: e.to_string(), args: Vec::new() });
    }
    t
}

/// Runs a batch with a relay that takes every message, and returns what
/// was reported, the pauses that were asked for, and the actions.
fn run_to_end(mut d: Dispatcher, connect: Result<(), String>) -> (Vec<SendProgress>, Vec<u64>, Vec<DispatchAction>) {
    let mut log = Vec::new();
    let mut pauses = Vec::new();
    let mut actions = Vec::new();
    let mut step = d.step(DispatchEvent::Start);
    for _ in 0..1000 {
        log.extend(step.progress);
        actions.push(step.action);
        let event = match step.action {
            DispatchAction::AwaitStart => DispatchEvent::Start,
            DispatchAction::Connect => match &connect {
                Ok(()) => DispatchEvent::Connected,
                Err(why) => DispatchEvent::ConnectFailed(why.clone()),
            },
            DispatchAction::Deliver(_) => match d.build_current(&Vec::new()) {
                Some(Ok(_)) => DispatchEvent::Delivered,
                Some(Err(e)) => DispatchEvent::BuildFailed(e),
                None => panic!("no recipient's turn"),
            },
            DispatchAction::Wait(ms) => {
                pauses.push(ms);
                DispatchEvent::DelayElapsed
            }
            DispatchAction::Stop => return (log, pauses, actions),
        };
        step = d.step(event);
    }
    panic!("the batch did not end");
}

#[test]
fn batch_goes_on_after_a_bad_address() {
    let d = Dispatcher::new(config(2000), batch(&["a@example.org", "not an address", "c@example.org"]));
    let (log, pauses, _) = run_to_end(d, Ok(()));
    assert_eq!(log.len(), 4);
    assert!(matches!(&log[0], SendProgress::Sent { index: 0, email } if email == "a@example.org"));
    assert!(matches!(&log[1], SendProgress::Failed { index: 1, email, error }
        if email == "not an address" && error.starts_with("To address: ")));
    assert!(matches!(&log[2], SendProgress::Sent { index: 2, email } if email == "c@example.org"));
    assert!(matches!(&log[3], SendProgress::Done));
    assert_eq!(pauses, vec![2000, 2000]);
}

#[test]
fn batch_pauses_between_recipients_only() {
    for n in 1..6usize {
        let emails: Vec<String> = (0..n).map(|i| format!("r{}@example.org", i)).collect();
        let refs: Vec<&str> = emails.iter().map(|s| s.as_str()).collect();
        let (log, pauses, actions) = run_to_end(Dispatcher::new(config(7), batch(&refs)), Ok(()));
        assert_eq!(log.len(), n + 1);
        assert_eq!(pauses.len(), n - 1);
        assert_eq!(pauses.iter().sum::<u64>(), 7 * (n as u64 - 1));
        assert_eq!(actions.last(), Some(&DispatchAction::Stop));
        assert_eq!(actions[actions.len() - 2], DispatchAction::Deliver(n - 1));
    }
}

#[test]
fn failed_session_reports_failure_and_done() {
    for n in [0usize, 1, 5] {
        let emails: Vec<String> = (0..n).map(|i| format!("r{}@example.org", i)).collect();
        let refs: Vec<&str> = emails.iter().map(|s| s.as_str()).collect();
        let d = Dispatcher::new(config(2000), batch(&refs));
        let (log, pauses, actions) = run_to_end(d, Err(String::from("relay unreachable")));
        assert_eq!(log.len(), 2);
        assert!(matches!(&log[0], SendProgress::Failed { index: 0, email, error }
            if email == "N/A" && error == "Failed to create transport: relay unreachable"));
        assert!(matches!(&log[1], SendProgress::Done));
        assert!(pauses.is_empty());
        assert_eq!(actions, vec![DispatchAction::Connect, DispatchAction::Stop]);
    }
}

#[test]
fn empty_batch_reports_done_only() {
    let (log, pauses, actions) = run_to_end(Dispatcher::new(config(2000), batch(&[])), Ok(()));
    assert_eq!(log.len(), 1);
    assert!(matches!(&log[0], SendProgress::Done));
    assert!(pauses.is_empty());
    assert_eq!(actions, vec![DispatchAction::Connect, DispatchAction::Stop]);
}

#[test]
fn send_failure_is_reported_with_its_text() {
    let mut d = Dispatcher::new(config(10), batch(&["a@example.org", "b@example.org"]));
    assert_eq!(d.state(), DispatchState::Idle);
    assert_eq!(d.step(DispatchEvent::Start).action, DispatchAction::Connect);
    assert_eq!(d.state(), DispatchState::Connecting);
    assert_eq!(d.step(DispatchEvent::Connected).action, DispatchAction::Deliver(0));
    assert_eq!(d.state(), DispatchState::Sending(0));
    let step = d.step(DispatchEvent::SendFailed(String::from("550 rejected")));
    assert_eq!(step.action, DispatchAction::Wait(10));
    assert_eq!(step.progress.len(), 1);
    assert!(matches!(&step.progress[0], SendProgress::Failed { index: 0, email, error }
        if email == "a@example.org" && error == "550 rejected"));
    assert_eq!(d.state(), DispatchState::Throttling(0));
    let step = d.step(DispatchEvent::DelayElapsed);
    assert_eq!(step.action, DispatchAction::Deliver(1));
    assert!(step.progress.is_empty());
    let failure = BuildError::Assembly { reason: String::from("no body") };
    let step = d.step(DispatchEvent::BuildFailed(failure));
    assert_eq!(step.action, DispatchAction::Stop);
    assert_eq!(step.progress.len(), 2);
    assert!(matches!(&step.progress[0], SendProgress::Failed { index: 1, email, error }
        if email == "b@example.org" && error == "no body"));
    assert!(matches!(&step.progress[1], SendProgress::Done));
    assert_eq!(d.state(), DispatchState::Done);
}

#[test]
fn events_out_of_turn_change_nothing() {
    let mut d = Dispatcher::new(config(10), batch(&["a@example.org", "b@example.org"]));
    let step = d.step(DispatchEvent::Delivered);
    assert_eq!(step.action, DispatchAction::AwaitStart);
    assert!(step.progress.is_empty());
    assert_eq!(d.state(), DispatchState::Idle);
    assert!(d.build_current(&Vec::new()).is_none());
    d.step(DispatchEvent::Start);
    let step = d.step(DispatchEvent::DelayElapsed);
    assert_eq!(step.action, DispatchAction::Connect);
    assert_eq!(d.state(), DispatchState::Connecting);
    d.step(DispatchEvent::Connected);
    let step = d.step(DispatchEvent::Connected);
    assert_eq!(step.action, DispatchAction::Deliver(0));
    assert!(step.progress.is_empty());
    d.step(DispatchEvent::Delivered);
    let step = d.step(DispatchEvent::Delivered);
    assert_eq!(step.action, DispatchAction::Wait(10));
    assert!(step.progress.is_empty());
    assert_eq!(d.state(), DispatchState::Throttling(0));
    d.step(DispatchEvent::DelayElapsed);
    d.step(DispatchEvent::Delivered);
    assert_eq!(d.state(), DispatchState::Done);
    let step = d.step(DispatchEvent::Start);
    assert_eq!(step.action, DispatchAction::Stop);
    assert!(step.progress.is_empty());
    assert_eq!(d.state(), DispatchState::Done);
}

#[test]
fn dispatcher_keeps_its_snapshot() {
    let t = batch(&["a@example.org"]);
    let id = t.id.clone();
    let mut d = Dispatcher::new(config(10), t);
    d.step(DispatchEvent::Start);
    d.step(DispatchEvent::Connected);
    d.step(DispatchEvent::Delivered);
    assert_eq!(d.template().id, id);
    assert_eq!(d.template().recipients.len(), 1);
    assert_eq!(d.config().send_delay_ms, 10);
}
