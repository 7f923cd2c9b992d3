//! The course of a bulk send, as a state machine.
//!
//! The dispatcher owns a snapshot of the template and decides, from what
//! happened, what is reported and what is done next. Connecting, sending
//! and waiting are the caller's part: it performs the action that a step
//! returns and hands back the event that came of it.

use vstd::prelude::*;
use crate::config::SmtpConfig;
use crate::email::{
    build_message, describe_error, file_views, is_build_outcome, progress_views, BuildError,
    BuildErrorView, BuiltMessage, ProgressView, SendProgress,
};
use crate::template::{EmailTemplate, Recipient};
use crate::text::{append_chars, from_chars, to_chars};

verus! {

/// The address that stands in the report of a failed connection, which
/// concerns no recipient.
pub const NO_RECIPIENT: &'static str = "N/A";

/// How the report of a failed connection begins.
pub const CONNECT_FAILURE_PREFIX: &'static str = "Failed to create transport: ";

/// Where a batch stands.
#[derive(Debug, Clone, Copy, PartialEq, Eq, Structural)]
pub enum DispatchState {
    /// Not started.
    Idle,
    /// The session with the relay is being opened.
    Connecting,
    /// The message for the recipient at this index is being built and sent.
    Sending(usize),
    /// The pause after the recipient at this index, who is not the last.
    Throttling(usize),
    /// Over.
    Done,
}

/// What the caller reports to the dispatcher.
#[derive(Debug, Clone)]
pub enum DispatchEvent {
    /// The batch is to begin.
    Start,
    /// The session is open.
    Connected,
    /// The session could not be opened.
    ConnectFailed(String),
    /// The message for the current recipient was built and handed in.
    Delivered,
    /// The message for the current recipient could not be built.
    BuildFailed(BuildError),
    /// The relay did not take the message for the current recipient.
    SendFailed(String),
    /// The pause is over.
    DelayElapsed,
}

/// What a [`DispatchEvent`] stands for.
pub enum EventView {
    Start,
    Connected,
    ConnectFailed(Seq<char>),
    Delivered,
    BuildFailed(BuildErrorView),
    SendFailed(Seq<char>),
    DelayElapsed,
}

impl View for DispatchEvent {
    type V = EventView;

    open spec fn view(&self) -> EventView {
        match self {
            DispatchEvent::Start => EventView::Start,
            DispatchEvent::Connected => EventView::Connected,
            DispatchEvent::ConnectFailed(why) => EventView::ConnectFailed(why@),
            DispatchEvent::Delivered => EventView::Delivered,
            DispatchEvent::BuildFailed(error) => EventView::BuildFailed(error@),
            DispatchEvent::SendFailed(why) => EventView::SendFailed(why@),
            DispatchEvent::DelayElapsed => EventView::DelayElapsed,
        }
    }
}

/// What the caller is to do next.
#[derive(Debug, Clone, Copy, PartialEq, Eq, Structural)]
pub enum DispatchAction {
    /// Report `Start` when the batch is to begin.
    AwaitStart,
    /// Open the session; report `Connected` or `ConnectFailed`.
    Connect,
    /// Build and send the message for the recipient at this index; report
    /// `Delivered`, `BuildFailed` or `SendFailed`.
    Deliver(usize),
    /// Pause for this many milliseconds; report `DelayElapsed`.
    Wait(u64),
    /// Nothing: the batch is over.
    Stop,
}

/// What a step comes to: the new state, the events to report, in order, and
/// the next action.
pub struct Outcome {
    pub state: DispatchState,
    pub progress: Seq<ProgressView>,
    pub action: DispatchAction,
}

/// The action that a state waits on.
pub open spec fn awaited(state: DispatchState, delay: u64) -> DispatchAction {
    match state {
        DispatchState::Idle => DispatchAction::AwaitStart,
        DispatchState::Connecting => DispatchAction::Connect,
        DispatchState::Sending(i) => DispatchAction::Deliver(i),
        DispatchState::Throttling(_) => DispatchAction::Wait(delay),
        DispatchState::Done => DispatchAction::Stop,
    }
}

/// What is reported of a recipient once the attempt for them is over:
/// `Sent`, or `Failed` with the diagnostic; `None` for an event that ends no
/// attempt.
pub open spec fn attempt_report(index: nat, email: Seq<char>, event: EventView) -> Option<
    ProgressView,
> {
    match event {
        EventView::Delivered => Some(ProgressView::Sent { index, email }),
        EventView::BuildFailed(error) => Some(
            ProgressView::Failed { index, email, error: describe_error(error) },
        ),
        EventView::SendFailed(why) => Some(ProgressView::Failed { index, email, error: why }),
        _ => None,
    }
}

/// What is reported of a session that could not be opened.
pub open spec fn connect_failure_report(why: Seq<char>) -> ProgressView {
    ProgressView::Failed { index: 0, email: NO_RECIPIENT@, error: CONNECT_FAILURE_PREFIX@ + why }
}

/// A state is sound for a batch of `count` recipients where the index it
/// holds is that of a recipient, and for a pause, of one who is not the last.
pub open spec fn state_fits(state: DispatchState, count: nat) -> bool {
    match state {
        DispatchState::Sending(i) => i < count,
        DispatchState::Throttling(i) => i + 1 < count,
        _ => true,
    }
}

/// The transition function of a batch to the recipients `emails` with the
/// pause `delay`.
///
/// - `Idle`, on `Start`: connect.
/// - `Connecting`, on `ConnectFailed`: report the failure and `Done`, and
///   stop; no recipient is attempted. On `Connected`: deliver to the first
///   recipient, or report `Done` and stop where there is none.
/// - `Sending(i)`, on the end of the attempt: report it; then, after the
///   last recipient, report `Done` and stop; after any other, pause.
/// - `Throttling(i)`, on `DelayElapsed`: deliver to recipient `i + 1`.
/// - An event that the state does not wait on changes nothing.
pub open spec fn transition(
    state: DispatchState,
    emails: Seq<Seq<char>>,
    delay: u64,
    event: EventView,
) -> Outcome {
    let ignored = Outcome { state, progress: Seq::empty(), action: awaited(state, delay) };
    match state {
        DispatchState::Idle => match event {
            EventView::Start => Outcome {
                state: DispatchState::Connecting,
                progress: Seq::empty(),
                action: DispatchAction::Connect,
            },
            _ => ignored,
        },
        DispatchState::Connecting => match event {
            EventView::ConnectFailed(why) => Outcome {
                state: DispatchState::Done,
                progress: seq![connect_failure_report(why), ProgressView::Done],
                action: DispatchAction::Stop,
            },
            EventView::Connected => if emails.len() == 0 {
                Outcome {
                    state: DispatchState::Done,
                    progress: seq![ProgressView::Done],
                    action: DispatchAction::Stop,
                }
            } else {
                Outcome {
                    state: DispatchState::Sending(0),
                    progress: Seq::empty(),
                    action: DispatchAction::Deliver(0),
                }
            },
            _ => ignored,
        },
        DispatchState::Sending(i) => match attempt_report(i as nat, emails[i as int], event) {
            Some(report) => if i + 1 >= emails.len() {
                Outcome {
                    state: DispatchState::Done,
                    progress: seq![report, ProgressView::Done],
                    action: DispatchAction::Stop,
                }
            } else {
                Outcome {
                    state: DispatchState::Throttling(i),
                    progress: seq![report],
                    action: DispatchAction::Wait(delay),
                }
            },
            None => ignored,
        },
        DispatchState::Throttling(i) => match event {
            EventView::DelayElapsed => Outcome {
                state: DispatchState::Sending((i + 1) as usize),
                progress: Seq::empty(),
                action: DispatchAction::Deliver((i + 1) as usize),
            },
            _ => ignored,
        },
        DispatchState::Done => ignored,
    }
}

/// The addresses of a list of recipients.
pub open spec fn emails_of(recipients: Seq<Recipient>) -> Seq<Seq<char>> {
    Seq::new(recipients.len(), |i: int| recipients[i].email@)
}

/// What a step returns: the events to report, in order, and the next
/// action.
pub struct Step {
    pub progress: Vec<SendProgress>,
    pub action: DispatchAction,
}

/// One bulk send: the settings, the snapshot of the template, and where
/// the batch stands.
pub struct Dispatcher {
    config: SmtpConfig,
    template: EmailTemplate,
    state: DispatchState,
}

impl Dispatcher {
    /// The settings of this batch.
    pub closed spec fn spec_config(&self) -> SmtpConfig {
        self.config
    }

    /// The snapshot that this batch sends.
    pub closed spec fn spec_template(&self) -> EmailTemplate {
        self.template
    }

    /// Where this batch stands.
    pub closed spec fn spec_state(&self) -> DispatchState {
        self.state
    }

    #[verifier::type_invariant]
    spec fn sound(&self) -> bool {
        state_fits(self.state, self.template.recipients@.len())
    }

    /// A batch that has not started. It takes the settings and the template
    /// as its own, so that nothing changes them while it runs.
    pub fn new(config: SmtpConfig, template: EmailTemplate) -> (dispatcher: Self)
        ensures
            dispatcher.spec_config() == config,
            dispatcher.spec_template() == template,
            dispatcher.spec_state() == DispatchState::Idle,
    {
        Dispatcher { config, template, state: DispatchState::Idle }
    }

    /// The settings of this batch.
    pub fn config(&self) -> (config: &SmtpConfig)
        ensures
            *config == self.spec_config(),
    {
        &self.config
    }

    /// The snapshot that this batch sends.
    pub fn template(&self) -> (template: &EmailTemplate)
        ensures
            *template == self.spec_template(),
    {
        &self.template
    }

    /// Where this batch stands.
    #[verifier::when_used_as_spec(spec_state)]
    pub fn state(&self) -> (state: DispatchState)
        ensures
            state == self.spec_state(),
            state_fits(state, self.spec_template().recipients@.len()),
    {
        proof {
            use_type_invariant(self);
        }
        self.state
    }

    /// Takes an event and says what is to be reported and done next, as
    /// [`transition`] lays down. The settings and the snapshot stay as they
    /// are.
    pub fn step(&mut self, event: DispatchEvent) -> (step: Step)
        ensures
            final(self).spec_config() == old(self).spec_config(),
            final(self).spec_template() == old(self).spec_template(),
            final(self).spec_state() == transition(
                old(self).spec_state(),
                emails_of(old(self).spec_template().recipients@),
                old(self).spec_config().send_delay_ms,
                event@,
            ).state,
            progress_views(step.progress@) == transition(
                old(self).spec_state(),
                emails_of(old(self).spec_template().recipients@),
                old(self).spec_config().send_delay_ms,
                event@,
            ).progress,
            step.action == transition(
                old(self).spec_state(),
                emails_of(old(self).spec_template().recipients@),
                old(self).spec_config().send_delay_ms,
                event@,
            ).action,
            step.progress@.len() == progress_views(step.progress@).len(),
    {
        proof {
            use_type_invariant(&*self);
        }
        let ghost emails = emails_of(self.template.recipients@);
        let count = self.template.recipients.len();
        let delay = self.config.send_delay_ms;
        let mut progress: Vec<SendProgress> = Vec::new();
        let mut next = self.state;
        let mut action = DispatchAction::Stop;
        match self.state {
            DispatchState::Idle => match event {
                DispatchEvent::Start => {
                    next = DispatchState::Connecting;
                    action = DispatchAction::Connect;
                },
                _ => {
                    action = DispatchAction::AwaitStart;
                },
            },
            DispatchState::Connecting => match event {
                DispatchEvent::ConnectFailed(why) => {
                    let mut error = to_chars(CONNECT_FAILURE_PREFIX);
                    append_chars(&mut error, &to_chars(why.as_str()));
                    progress.push(
                        SendProgress::Failed {
                            index: 0,
                            email: NO_RECIPIENT.to_owned(),
                            error: from_chars(&error),
                        },
                    );
                    progress.push(SendProgress::Done);
                    next = DispatchState::Done;
                },
                DispatchEvent::Connected => {
                    if count == 0 {
                        progress.push(SendProgress::Done);
                        next = DispatchState::Done;
                    } else {
                        next = DispatchState::Sending(0);
                        action = DispatchAction::Deliver(0);
                    }
                },
                _ => {
                    action = DispatchAction::Connect;
                },
            },
            DispatchState::Sending(i) => {
                let report = match event {
                    DispatchEvent::Delivered => Some(
                        SendProgress::Sent {
                            index: i,
                            email: self.template.recipients[i].email.clone(),
                        },
                    ),
                    DispatchEvent::BuildFailed(error) => Some(
                        SendProgress::Failed {
                            index: i,
                            email: self.template.recipients[i].email.clone(),
                            error: error.describe(),
                        },
                    ),
                    DispatchEvent::SendFailed(why) => Some(
                        SendProgress::Failed {
                            index: i,
                            email: self.template.recipients[i].email.clone(),
                            error: why,
                        },
                    ),
                    _ => None,
                };
                match report {
                    Some(report) => {
                        progress.push(report);
                        if i + 1 >= count {
                            progress.push(SendProgress::Done);
                            next = DispatchState::Done;
                        } else {
                            next = DispatchState::Throttling(i);
                            action = DispatchAction::Wait(delay);
                        }
                    },
                    None => {
                        action = DispatchAction::Deliver(i);
                    },
                }
            },
            DispatchState::Throttling(i) => match event {
                DispatchEvent::DelayElapsed => {
                    next = DispatchState::Sending(i + 1);
                    action = DispatchAction::Deliver(i + 1);
                },
                _ => {
                    action = DispatchAction::Wait(delay);
                },
            },
            DispatchState::Done => {},
        }
        self.state = next;
        proof {
            let out = transition(old(self).state, emails, delay, event@);
            assert(progress_views(progress@) =~= out.progress);
        }
        Step { progress, action }
    }

    /// Builds the message for the recipient whose turn it is, from the
    /// files read for it, as [`build_message`] does; `None` where no
    /// recipient's turn it is.
    pub fn build_current(&self, files: &Vec<Option<Vec<u8>>>) -> (built: Option<
        Result<BuiltMessage, BuildError>,
    >)
        ensures
            match self.spec_state() {
                DispatchState::Sending(i) => {
                    &&& i < self.spec_template().recipients@.len()
                    &&& built is Some
                    &&& is_build_outcome(
                        built->0,
                        self.spec_config(),
                        self.spec_template(),
                        self.spec_template().recipients@[i as int]@,
                        file_views(files@),
                    )
                },
                _ => built is None,
            },
    {
        proof {
            use_type_invariant(self);
        }
        match self.state {
            DispatchState::Sending(i) => Some(
                build_message(&self.config, &self.template, &self.template.recipients[i], files),
            ),
            _ => None,
        }
    }
}

/// What a batch has come to after a series of events: its state, all that
/// it reported, and the action it returned at each step.
pub struct Trace {
    pub state: DispatchState,
    pub progress: Seq<ProgressView>,
    pub actions: Seq<DispatchAction>,
}

/// The course of a batch from `Idle` through `events`.
pub open spec fn run(emails: Seq<Seq<char>>, delay: u64, events: Seq<EventView>) -> Trace
    decreases events.len(),
{
    if events.len() == 0 {
        Trace { state: DispatchState::Idle, progress: Seq::empty(), actions: Seq::empty() }
    } else {
        let before = run(emails, delay, events.drop_last());
        let out = transition(before.state, emails, delay, events.last());
        Trace {
            state: out.state,
            progress: before.progress + out.progress,
            actions: before.actions.push(out.action),
        }
    }
}

/// The recipient index of a report; 0 for `Done`.
pub open spec fn report_index(report: ProgressView) -> nat {
    match report {
        ProgressView::Sent { index, .. } => index,
        ProgressView::Failed { index, .. } => index,
        ProgressView::Done => 0,
    }
}

/// The reports of a log come by strictly increasing recipient index, and
/// `Done` stands nowhere but at its end.
pub open spec fn in_order(log: Seq<ProgressView>) -> bool {
    forall|a: int, b: int|
        0 <= a < b < log.len() ==> !(#[trigger] log[a] is Done) && (!(#[trigger] log[b] is Done)
            ==> report_index(log[a]) < report_index(log[b]))
}

/// Every report of `log` is of a recipient before `bound`.
spec fn all_before(log: Seq<ProgressView>, bound: nat) -> bool {
    forall|a: int|
        0 <= a < log.len() ==> !(#[trigger] log[a] is Done) && report_index(log[a]) < bound
}

/// What holds of every trace that a run can come to.
spec fn trace_fits(trace: Trace, count: nat) -> bool {
    &&& state_fits(trace.state, count)
    &&& in_order(trace.progress)
    &&& match trace.state {
        DispatchState::Idle => trace.progress.len() == 0,
        DispatchState::Connecting => trace.progress.len() == 0,
        DispatchState::Sending(i) => all_before(trace.progress, i as nat),
        DispatchState::Throttling(i) => all_before(trace.progress, (i + 1) as nat),
        DispatchState::Done => trace.progress.len() > 0 && trace.progress.last() is Done,
    }
}

proof fn lemma_run_fits(emails: Seq<Seq<char>>, delay: u64, events: Seq<EventView>)
    requires
        emails.len() <= usize::MAX,
    ensures
        trace_fits(run(emails, delay, events), emails.len()),
    decreases events.len(),
{
    if events.len() > 0 {
        lemma_run_fits(emails, delay, events.drop_last());
        let before = run(emails, delay, events.drop_last());
        let out = transition(before.state, emails, delay, events.last());
        let after = run(emails, delay, events);
        assert(after.progress == before.progress + out.progress);
        match before.state {
            DispatchState::Sending(i) => {
                let report = attempt_report(i as nat, emails[i as int], events.last());
                if report is Some {
                    assert(report_index(report->0) == i);
                    assert(!(report->0 is Done));
                }
            },
            _ => {},
        }
        if out.progress.len() == 0 {
            assert(after.progress =~= before.progress);
        }
    }
}

/// Whatever events come in, in whatever order: what a batch reports comes
/// by strictly increasing recipient index, so that no recipient is reported
/// twice; `Done` is reported at most once and is then the last report; and
/// the batch has reported `Done` exactly when it has come to its end.
pub proof fn reports_are_ordered_and_end_with_done(
    emails: Seq<Seq<char>>,
    delay: u64,
    events: Seq<EventView>,
)
    requires
        emails.len() <= usize::MAX,
    ensures
        in_order(run(emails, delay, events).progress),
        run(emails, delay, events).state == DispatchState::Done <==> run(
            emails,
            delay,
            events,
        ).progress.len() > 0 && run(emails, delay, events).progress.last() is Done,
{
    lemma_run_fits(emails, delay, events);
    let trace = run(emails, delay, events);
    if trace.progress.len() > 0 && trace.progress.last() is Done {
        assert(trace.progress[trace.progress.len() - 1] is Done);
    }
}

/// Where the session cannot be opened, the batch reports one failure, with
/// index 0 and no recipient's address, and then `Done`; it attempts no
/// recipient, however many there are.
pub proof fn connect_failure_reports_failure_and_done(
    emails: Seq<Seq<char>>,
    delay: u64,
    why: Seq<char>,
)
    ensures
        run(emails, delay, seq![EventView::Start, EventView::ConnectFailed(why)]) == (Trace {
            state: DispatchState::Done,
            progress: seq![connect_failure_report(why), ProgressView::Done],
            actions: seq![DispatchAction::Connect, DispatchAction::Stop],
        }),
{
    let events = seq![EventView::Start, EventView::ConnectFailed(why)];
    let none = Seq::<EventView>::empty();
    let first = none.push(EventView::Start);
    assert(events =~= first.push(EventView::ConnectFailed(why)));
    lemma_run_push(emails, delay, none, EventView::Start);
    lemma_run_push(emails, delay, first, EventView::ConnectFailed(why));
    let trace = run(emails, delay, events);
    assert(trace.progress =~= seq![connect_failure_report(why), ProgressView::Done]);
    assert(trace.actions =~= seq![DispatchAction::Connect, DispatchAction::Stop]);
}

/// Whether an event ends the attempt for a recipient.
pub open spec fn ends_attempt(event: EventView) -> bool {
    event is Delivered || event is BuildFailed || event is SendFailed
}

/// The events of a batch that runs as its actions ask, up to the end of
/// the attempt for recipient `done - 1`: `Start`, `Connected`, and the
/// outcome for each recipient, with `DelayElapsed` between two of them.
pub open spec fn batch_events(outcomes: Seq<EventView>, done: nat) -> Seq<EventView>
    decreases done,
{
    if done == 0 {
        seq![EventView::Start, EventView::Connected]
    } else if done == 1 {
        batch_events(outcomes, 0).push(outcomes[0])
    } else {
        batch_events(outcomes, (done - 1) as nat).push(EventView::DelayElapsed).push(
            outcomes[done - 1],
        )
    }
}

/// The reports of the first `done` recipients.
pub open spec fn batch_reports(emails: Seq<Seq<char>>, outcomes: Seq<EventView>, done: nat) -> Seq<
    ProgressView,
> {
    Seq::new(done, |i: int| attempt_report(i as nat, emails[i], outcomes[i])->0)
}

/// The actions of a batch to `count` recipients up to the end of the
/// attempt for recipient `done - 1`: connect, deliver to each recipient,
/// pause between two of them, and stop after the last.
pub open spec fn batch_actions(count: nat, delay: u64, done: nat) -> Seq<DispatchAction>
    decreases done,
{
    let after = if done >= count {
        DispatchAction::Stop
    } else {
        DispatchAction::Wait(delay)
    };
    if done == 0 {
        seq![
            DispatchAction::Connect,
            if count == 0 {
                DispatchAction::Stop
            } else {
                DispatchAction::Deliver(0)
            },
        ]
    } else if done == 1 {
        batch_actions(count, delay, 0).push(after)
    } else {
        batch_actions(count, delay, (done - 1) as nat).push(
            DispatchAction::Deliver((done - 1) as usize),
        ).push(after)
    }
}

/// The number of pauses among `actions`.
pub open spec fn pauses(actions: Seq<DispatchAction>) -> nat
    decreases actions.len(),
{
    if actions.len() == 0 {
        0
    } else {
        pauses(actions.drop_last()) + if actions.last() is Wait {
            1nat
        } else {
            0nat
        }
    }
}

proof fn lemma_run_push(
    emails: Seq<Seq<char>>,
    delay: u64,
    events: Seq<EventView>,
    event: EventView,
)
    ensures
        run(emails, delay, events.push(event)) == ({
            let before = run(emails, delay, events);
            let out = transition(before.state, emails, delay, event);
            Trace {
                state: out.state,
                progress: before.progress + out.progress,
                actions: before.actions.push(out.action),
            }
        }),
{
    assert(events.push(event).drop_last() =~= events);
}

proof fn lemma_pauses_push(actions: Seq<DispatchAction>, action: DispatchAction)
    ensures
        pauses(actions.push(action)) == pauses(actions) + if action is Wait {
            1nat
        } else {
            0nat
        },
{
    assert(actions.push(action).drop_last() =~= actions);
}

proof fn lemma_batch_prefix(
    emails: Seq<Seq<char>>,
    delay: u64,
    outcomes: Seq<EventView>,
    done: nat,
)
    requires
        0 < emails.len() <= usize::MAX,
        outcomes.len() == emails.len(),
        forall|i: int| 0 <= i < outcomes.len() ==> ends_attempt(#[trigger] outcomes[i]),
        done <= emails.len(),
    ensures
        run(emails, delay, batch_events(outcomes, done)).state == if done == 0 {
            DispatchState::Sending(0)
        } else if done < emails.len() {
            DispatchState::Throttling((done - 1) as usize)
        } else {
            DispatchState::Done
        },
        run(emails, delay, batch_events(outcomes, done)).progress == if done < emails.len() {
            batch_reports(emails, outcomes, done)
        } else {
            batch_reports(emails, outcomes, done).push(ProgressView::Done)
        },
        run(emails, delay, batch_events(outcomes, done)).actions == batch_actions(
            emails.len(),
            delay,
            done,
        ),
        pauses(batch_actions(emails.len(), delay, done)) == if done < emails.len() {
            done
        } else {
            (done - 1) as nat
        },
    decreases done,
{
    let count = emails.len();
    if done == 0 {
        let first = seq![EventView::Start];
        let events = batch_events(outcomes, 0);
        assert(events =~= first.push(EventView::Connected));
        assert(first =~= Seq::<EventView>::empty().push(EventView::Start));
        lemma_run_push(emails, delay, Seq::<EventView>::empty(), EventView::Start);
        lemma_run_push(emails, delay, first, EventView::Connected);
        let trace = run(emails, delay, events);
        assert(trace.progress =~= batch_reports(emails, outcomes, 0));
        assert(trace.actions =~= batch_actions(count, delay, 0));
        let acts = batch_actions(count, delay, 0);
        assert(acts =~= Seq::<DispatchAction>::empty().push(DispatchAction::Connect).push(
            DispatchAction::Deliver(0),
        ));
        lemma_pauses_push(Seq::<DispatchAction>::empty(), DispatchAction::Connect);
        lemma_pauses_push(
            Seq::<DispatchAction>::empty().push(DispatchAction::Connect),
            DispatchAction::Deliver(0),
        );
    } else {
        let prev = (done - 1) as nat;
        lemma_batch_prefix(emails, delay, outcomes, prev);
        let outcome = outcomes[done - 1];
        assert(ends_attempt(outcome));
        let report = attempt_report(prev, emails[prev as int], outcome);
        assert(report is Some);
        let earlier = batch_events(outcomes, prev);
        let ready = if done == 1 {
            earlier
        } else {
            earlier.push(EventView::DelayElapsed)
        };
        if done > 1 {
            lemma_run_push(emails, delay, earlier, EventView::DelayElapsed);
            assert(run(emails, delay, earlier).progress + Seq::<ProgressView>::empty() =~= run(
                emails,
                delay,
                earlier,
            ).progress);
            lemma_pauses_push(
                batch_actions(count, delay, prev),
                DispatchAction::Deliver(prev as usize),
            );
        }
        let at_turn = run(emails, delay, ready);
        assert(at_turn.state == DispatchState::Sending(prev as usize));
        assert(at_turn.progress == batch_reports(emails, outcomes, prev));
        lemma_run_push(emails, delay, ready, outcome);
        assert(batch_events(outcomes, done) == ready.push(outcome));
        let trace = run(emails, delay, batch_events(outcomes, done));
        if done < count {
            assert(trace.progress =~= batch_reports(emails, outcomes, done));
        } else {
            assert(trace.progress =~= batch_reports(emails, outcomes, done).push(
                ProgressView::Done,
            ));
        }
        let after = if done >= count {
            DispatchAction::Stop
        } else {
            DispatchAction::Wait(delay)
        };
        lemma_pauses_push(at_turn.actions, after);
    }
}

/// A batch that runs as its actions ask reports each recipient once, in
/// the order of the recipients, as sent or as failed, and then `Done`: one
/// failure does not end the batch. It pauses between two recipients and not
/// after the last, so that a batch to `n` recipients pauses `n - 1` times.
pub proof fn batch_reports_every_recipient_then_done(
    emails: Seq<Seq<char>>,
    delay: u64,
    outcomes: Seq<EventView>,
)
    requires
        emails.len() <= usize::MAX,
        outcomes.len() == emails.len(),
        forall|i: int| 0 <= i < outcomes.len() ==> ends_attempt(#[trigger] outcomes[i]),
    ensures
        run(emails, delay, batch_events(outcomes, emails.len())) == (Trace {
            state: DispatchState::Done,
            progress: batch_reports(emails, outcomes, emails.len()).push(ProgressView::Done),
            actions: batch_actions(emails.len(), delay, emails.len()),
        }),
        batch_actions(emails.len(), delay, emails.len()).last() == DispatchAction::Stop,
        pauses(batch_actions(emails.len(), delay, emails.len())) == if emails.len() == 0 {
            0
        } else {
            emails.len() - 1
        },
{
    if emails.len() == 0 {
        let first = seq![EventView::Start];
        let events = batch_events(outcomes, 0);
        assert(events =~= first.push(EventView::Connected));
        assert(first =~= Seq::<EventView>::empty().push(EventView::Start));
        lemma_run_push(emails, delay, Seq::<EventView>::empty(), EventView::Start);
        lemma_run_push(emails, delay, first, EventView::Connected);
        let trace = run(emails, delay, events);
        assert(trace.progress =~= batch_reports(emails, outcomes, 0).push(ProgressView::Done));
        let acts = batch_actions(0, delay, 0);
        assert(trace.actions =~= acts);
        assert(acts =~= Seq::<DispatchAction>::empty().push(DispatchAction::Connect).push(
            DispatchAction::Stop,
        ));
        lemma_pauses_push(Seq::<DispatchAction>::empty(), DispatchAction::Connect);
        lemma_pauses_push(
            Seq::<DispatchAction>::empty().push(DispatchAction::Connect),
            DispatchAction::Stop,
        );
    } else {
        lemma_batch_prefix(emails, delay, outcomes, emails.len());
    }
}

} // verus!
