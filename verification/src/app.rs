//! The state of the editor: the templates, what is selected, what is being
//! typed, and what a running send has reported.
//!
//! Drawing, dialogs and the channel to a running send are the caller's. It
//! changes the text fields as the user types and calls the methods below
//! for everything that follows a rule.

use vstd::prelude::*;
use crate::config::SmtpConfig;
use crate::email::{progress_views, ProgressView, SendProgress};
use crate::platform::is_random_uuid_text;
use crate::render::entry_views;
use crate::template::{copy_args, EmailTemplate, Recipient};
use crate::text::{append_chars, decimal, decimal_chars, from_chars, texts, to_chars};

verus! {

/// How the log line of a delivered message begins.
pub const SENT_OPEN: &'static str = "✓ [";

/// What follows the number in the log line of a delivered message.
pub const SENT_INFIX: &'static str = "] Sent to ";

/// How the log line of a failed message begins.
pub const FAILED_OPEN: &'static str = "✗ [";

/// What follows the number in the log line of a failed message.
pub const FAILED_INFIX: &'static str = "] Failed to send to ";

/// What stands between an address and the reason of a failure.
pub const REASON_INFIX: &'static str = ": ";

/// The log line of a batch that is over.
pub const COMPLETE_LINE: &'static str = "— Bulk send complete.";

/// How the log line of a starting batch begins.
pub const STARTING_OPEN: &'static str = "— Starting bulk send for '";

/// How the log line of a starting batch ends.
pub const STARTING_CLOSE: &'static str = "'...";

/// How the log line of a single delivered message begins.
pub const SINGLE_SENT: &'static str = "✓ Sent to ";

/// How the log line of a single failed message begins.
pub const SINGLE_FAILED: &'static str = "✗ Failed to send to ";

/// The state of the editor.
pub struct EmailApp {
    pub config: SmtpConfig,
    pub templates: Vec<EmailTemplate>,
    pub selected_template: Option<usize>,
    /// The address typed for a recipient that is not added yet.
    pub new_recipient_email: String,
    /// The values typed for that recipient.
    pub new_recipient_args: Vec<(String, String)>,
    /// The name typed for a template that is not added yet.
    pub new_template_name: String,
    pub is_sending: bool,
    pub status_log: Vec<String>,
    pub show_confirm_dialog: bool,
    pub preview_recipient_idx: Option<usize>,
}

impl EmailApp {
    /// The selection, where there is one, is on a template of the list.
    pub open spec fn selection_in_range(&self) -> bool {
        self.selected_template matches Some(index) ==> index < self.templates@.len()
    }
}

/// The line that the log shows for a progress event. Recipients are
/// counted from 1.
pub open spec fn status_line(event: ProgressView) -> Seq<char> {
    match event {
        ProgressView::Sent { index, email } => SENT_OPEN@ + decimal(index + 1) + SENT_INFIX@
            + email,
        ProgressView::Failed { index, email, error } => FAILED_OPEN@ + decimal(index + 1)
            + FAILED_INFIX@ + email + REASON_INFIX@ + error,
        ProgressView::Done => COMPLETE_LINE@,
    }
}

/// The least index at or after `from` that holds `Done`, or `events.len()`.
pub open spec fn first_done(events: Seq<ProgressView>, from: int) -> int
    decreases events.len() - from,
{
    if from >= events.len() {
        events.len() as int
    } else if events[from] is Done {
        from
    } else {
        first_done(events, from + 1)
    }
}

/// How many of `events` are heard: all up to the first `Done`, and that
/// one; of what follows `Done`, nothing.
pub open spec fn heard(events: Seq<ProgressView>) -> int {
    if first_done(events, 0) < events.len() {
        first_done(events, 0) + 1
    } else {
        events.len() as int
    }
}

/// The log lines of the events that are heard.
pub open spec fn heard_lines(events: Seq<ProgressView>) -> Seq<Seq<char>> {
    Seq::new(heard(events) as nat, |i: int| status_line(events[i]))
}

/// The log line of a starting batch.
pub open spec fn starting_line(name: Seq<char>) -> Seq<char> {
    STARTING_OPEN@ + name + STARTING_CLOSE@
}

/// The log line of a single send.
pub open spec fn single_line(email: Seq<char>, outcome: Result<(), Seq<char>>) -> Seq<char> {
    match outcome {
        Ok(_) => SINGLE_SENT@ + email,
        Err(why) => SINGLE_FAILED@ + email + REASON_INFIX@ + why,
    }
}

/// The selection after the template at `removed` is gone: none where it was
/// the selected one; the same template, now one place lower, where it stood
/// behind; else the selection as it was.
pub open spec fn selection_after_removal(selected: Option<usize>, removed: usize) -> Option<usize> {
    match selected {
        Some(index) => if index == removed {
            None
        } else if index > removed {
            Some((index - 1) as usize)
        } else {
            Some(index)
        },
        None => None,
    }
}

/// Writes the log line of a progress event.
pub fn status_line_of(event: &SendProgress) -> (line: String)
    ensures
        line@ == status_line(event@),
{
    match event {
        SendProgress::Sent { index, email } => {
            let mut out = to_chars(SENT_OPEN);
            append_chars(&mut out, &decimal_chars(*index as u128 + 1));
            append_chars(&mut out, &to_chars(SENT_INFIX));
            append_chars(&mut out, &to_chars(email.as_str()));
            from_chars(&out)
        },
        SendProgress::Failed { index, email, error } => {
            let mut out = to_chars(FAILED_OPEN);
            append_chars(&mut out, &decimal_chars(*index as u128 + 1));
            append_chars(&mut out, &to_chars(FAILED_INFIX));
            append_chars(&mut out, &to_chars(email.as_str()));
            append_chars(&mut out, &to_chars(REASON_INFIX));
            append_chars(&mut out, &to_chars(error.as_str()));
            from_chars(&out)
        },
        SendProgress::Done => COMPLETE_LINE.to_owned(),
    }
}

/// Appends opening and closing markup to the body, for the user to type
/// between them.
pub fn wrap_body_selection(body: &mut String, open_tag: &str, close_tag: &str)
    ensures
        final(body)@ == old(body)@ + open_tag@ + close_tag@,
{
    let mut out = to_chars(body.as_str());
    append_chars(&mut out, &to_chars(open_tag));
    append_chars(&mut out, &to_chars(close_tag));
    *body = from_chars(&out);
}

impl EmailApp {
    /// The editor as it opens: the templates as loaded, nothing selected,
    /// nothing typed, no send running, an empty log.
    pub fn new(config: SmtpConfig, templates: Vec<EmailTemplate>) -> (app: Self)
        ensures
            app.config == config,
            app.templates == templates,
            app.selected_template is None,
            app.new_recipient_email@.len() == 0,
            app.new_recipient_args@.len() == 0,
            app.new_template_name@.len() == 0,
            !app.is_sending,
            app.status_log@.len() == 0,
            !app.show_confirm_dialog,
            app.preview_recipient_idx is None,
            app.selection_in_range(),
    {
        EmailApp {
            config,
            templates,
            selected_template: None,
            new_recipient_email: String::new(),
            new_recipient_args: Vec::new(),
            new_template_name: String::new(),
            is_sending: false,
            status_log: Vec::new(),
            show_confirm_dialog: false,
            preview_recipient_idx: None,
        }
    }

    /// Takes the progress events that have come in since the last call:
    /// logs a line for each up to the first `Done`, and with `Done` the send
    /// is over. Returns whether `Done` was among them.
    pub fn poll_progress(&mut self, events: &Vec<SendProgress>) -> (finished: bool)
        ensures
            finished == (first_done(progress_views(events@), 0) < events.len()),
            texts(final(self).status_log@) == texts(old(self).status_log@) + heard_lines(
                progress_views(events@),
            ),
            final(self).is_sending == (old(self).is_sending && !finished),
            *final(self) == (EmailApp {
                status_log: final(self).status_log,
                is_sending: final(self).is_sending,
                ..*old(self)
            }),
    {
        let ghost views = progress_views(events@);
        let ghost before = texts(self.status_log@);
        let mut i: usize = 0;
        assert(texts(self.status_log@) =~= before + Seq::new(0, |k: int| status_line(views[k])));
        while i < events.len()
            invariant
                i <= events.len(),
                views == progress_views(events@),
                before == texts(old(self).status_log@),
                first_done(views, 0) == first_done(views, i as int),
                texts(self.status_log@) == before + Seq::new(
                    i as nat,
                    |k: int| status_line(views[k]),
                ),
                *self == (EmailApp { status_log: self.status_log, ..*old(self) }),
            decreases events.len() - i,
        {
            let ghost logged = texts(self.status_log@);
            self.status_log.push(status_line_of(&events[i]));
            assert(texts(self.status_log@) =~= before + Seq::new(
                (i + 1) as nat,
                |k: int| status_line(views[k]),
            )) by {
                assert(texts(self.status_log@) =~= logged.push(status_line(views[i as int])));
            }
            if let SendProgress::Done = &events[i] {
                self.is_sending = false;
                proof {
                    assert(views[i as int] is Done);
                    assert(first_done(views, i as int) == i);
                    assert(heard_lines(views) =~= Seq::new(
                        (i + 1) as nat,
                        |k: int| status_line(views[k]),
                    ));
                }
                return true;
            }
            assert(!(views[i as int] is Done));
            i += 1;
        }
        proof {
            assert(heard_lines(views) =~= Seq::new(i as nat, |k: int| status_line(views[k])));
        }
        false
    }

    /// Whether a bulk send may start: a template is selected, it has a
    /// recipient, and no send is running.
    pub fn can_send(&self) -> (ready: bool)
        ensures
            ready == (self.selected_template matches Some(index) && index < self.templates.len()
                && self.templates[index as int].recipients.len() > 0 && !self.is_sending),
    {
        match self.selected_template {
            Some(index) => index < self.templates.len() && self.templates[index].recipients.len()
                > 0 && !self.is_sending,
            None => false,
        }
    }

    /// The user has confirmed the bulk send. Where a template is selected:
    /// closes the dialog, marks the send as running, logs its start, and
    /// returns the settings and a snapshot of the template for the send to
    /// own. Where none is selected, nothing happens.
    pub fn confirm_bulk_send(&mut self) -> (job: Option<(SmtpConfig, EmailTemplate)>)
        ensures
            match old(self).selected_template {
                Some(index) if index < old(self).templates.len() => {
                    &&& job matches Some((config, snapshot))
                    &&& config == old(self).config
                    &&& snapshot@ == old(self).templates[index as int]@
                    &&& final(self).is_sending
                    &&& !final(self).show_confirm_dialog
                    &&& texts(final(self).status_log@) == texts(old(self).status_log@).push(
                        starting_line(snapshot@.name),
                    )
                    &&& *final(self) == (EmailApp {
                        status_log: final(self).status_log,
                        is_sending: true,
                        show_confirm_dialog: false,
                        ..*old(self)
                    })
                },
                _ => job is None && *final(self) == *old(self),
            },
    {
        match self.selected_template {
            Some(index) => {
                if index < self.templates.len() {
                    let snapshot = self.templates[index].snapshot();
                    let config = self.config.snapshot();
                    let mut line = to_chars(STARTING_OPEN);
                    append_chars(&mut line, &to_chars(snapshot.name.as_str()));
                    append_chars(&mut line, &to_chars(STARTING_CLOSE));
                    let ghost before = texts(self.status_log@);
                    self.status_log.push(from_chars(&line));
                    assert(texts(self.status_log@) =~= before.push(starting_line(snapshot@.name)));
                    self.show_confirm_dialog = false;
                    self.is_sending = true;
                    Some((config, snapshot))
                } else {
                    None
                }
            },
            None => None,
        }
    }

    /// Adds a template under the name that was typed, selects it and clears
    /// the name. With no name typed, nothing happens. Returns whether the
    /// templates have changed.
    pub fn add_template(&mut self) -> (added: bool)
        ensures
            added == (old(self).new_template_name@.len() > 0),
            added ==> {
                &&& final(self).templates@.len() == old(self).templates@.len() + 1
                &&& final(self).templates@.drop_last() == old(self).templates@
                &&& final(self).templates@.last().name@ == old(self).new_template_name@
                &&& is_random_uuid_text(final(self).templates@.last().id@)
                &&& final(self).templates@.last().subject@.len() == 0
                &&& final(self).templates@.last().body@.len() == 0
                &&& final(self).templates@.last().attachment_paths@.len() == 0
                &&& final(self).templates@.last().recipients@.len() == 0
                &&& final(self).selected_template == Some(old(self).templates.len())
                &&& final(self).new_template_name@.len() == 0
                &&& *final(self) == (EmailApp {
                    templates: final(self).templates,
                    selected_template: final(self).selected_template,
                    new_template_name: final(self).new_template_name,
                    ..*old(self)
                })
            },
            !added ==> *final(self) == *old(self),
            added ==> final(self).selection_in_range(),
    {
        if self.new_template_name.as_str().is_empty() {
            return false;
        }
        let template = EmailTemplate::new(self.new_template_name.clone());
        self.templates.push(template);
        self.selected_template = Some(self.templates.len() - 1);
        self.new_template_name = String::new();
        assert(self.templates@.drop_last() =~= old(self).templates@);
        true
    }

    /// Selects the template at `index` and clears what was typed for a
    /// recipient and the preview. With no such template, nothing happens.
    pub fn select_template(&mut self, index: usize)
        ensures
            index < old(self).templates.len() ==> {
                &&& final(self).new_recipient_email@.len() == 0
                &&& final(self).new_recipient_args@.len() == 0
                &&& final(self).selection_in_range()
                &&& *final(self) == (EmailApp {
                    selected_template: Some(index),
                    new_recipient_email: final(self).new_recipient_email,
                    new_recipient_args: final(self).new_recipient_args,
                    preview_recipient_idx: None,
                    ..*old(self)
                })
            },
            index >= old(self).templates.len() ==> *final(self) == *old(self),
    {
        if index < self.templates.len() {
            self.selected_template = Some(index);
            self.new_recipient_email = String::new();
            self.new_recipient_args = Vec::new();
            self.preview_recipient_idx = None;
        }
    }

    /// Removes the template at `index` and keeps the selection on the
    /// template it was on, or drops it where that one is removed. With no
    /// such template, nothing happens. Returns whether the templates have
    /// changed.
    pub fn delete_template(&mut self, index: usize) -> (removed: bool)
        ensures
            removed == (index < old(self).templates.len()),
            removed ==> *final(self) == (EmailApp {
                templates: final(self).templates,
                selected_template: selection_after_removal(old(self).selected_template, index),
                ..*old(self)
            }) && final(self).templates@ == old(self).templates@.remove(index as int),
            !removed ==> *final(self) == *old(self),
            old(self).selection_in_range() ==> final(self).selection_in_range(),
    {
        if index >= self.templates.len() {
            return false;
        }
        self.templates.remove(index);
        match self.selected_template {
            Some(selected) => {
                if selected == index {
                    self.selected_template = None;
                } else if selected > index {
                    self.selected_template = Some(selected - 1);
                }
            },
            None => {},
        }
        true
    }

    /// Adds the recipient that was typed to the selected template and
    /// clears what was typed. With no template selected or no address
    /// typed, nothing happens. Returns whether the templates have changed.
    pub fn add_recipient(&mut self) -> (added: bool)
        ensures
            added == (old(self).selected_template matches Some(index) && index
                < old(self).templates.len() && old(self).new_recipient_email@.len() > 0),
            added ==> {
                let index = old(self).selected_template->0 as int;
                let now = final(self).templates@[index];
                let was = old(self).templates@[index];
                &&& final(self).templates@.len() == old(self).templates@.len()
                &&& forall|k: int|
                    0 <= k < old(self).templates@.len() && k != index ==> final(self).templates@[k]
                        == old(self).templates@[k]
                &&& now.recipients@.drop_last() == was.recipients@
                &&& now.recipients@.len() == was.recipients@.len() + 1
                &&& now.recipients@.last().email@ == old(self).new_recipient_email@
                &&& entry_views(now.recipients@.last().args@) == entry_views(
                    old(self).new_recipient_args@,
                )
                &&& now == (EmailTemplate { recipients: now.recipients, ..was })
                &&& final(self).new_recipient_email@.len() == 0
                &&& final(self).new_recipient_args@.len() == 0
                &&& *final(self) == (EmailApp {
                    templates: final(self).templates,
                    new_recipient_email: final(self).new_recipient_email,
                    new_recipient_args: final(self).new_recipient_args,
                    ..*old(self)
                })
            },
            !added ==> *final(self) == *old(self),
            old(self).selection_in_range() ==> final(self).selection_in_range(),
    {
        match self.selected_template {
            Some(index) => {
                if index >= self.templates.len() || self.new_recipient_email.as_str().is_empty() {
                    return false;
                }
                let recipient = Recipient {
                    email: self.new_recipient_email.clone(),
                    args: copy_args(&self.new_recipient_args),
                };
                let ghost was = self.templates@[index as int];
                let recipients = &mut self.templates[index].recipients;
                recipients.push(recipient);
                assert(self.templates@[index as int].recipients@.drop_last() =~= was.recipients@);
                self.new_recipient_email = String::new();
                self.new_recipient_args = Vec::new();
                true
            },
            None => false,
        }
    }

    /// Logs how the send of one message to `email` went.
    pub fn log_single_result(&mut self, email: &str, outcome: &Result<(), String>)
        ensures
            texts(final(self).status_log@) == texts(old(self).status_log@).push(
                single_line(
                    email@,
                    match outcome {
                        Ok(_) => Ok(()),
                        Err(why) => Err(why@),
                    },
                ),
            ),
            *final(self) == (EmailApp { status_log: final(self).status_log, ..*old(self) }),
    {
        let mut line: Vec<char> = Vec::new();
        match outcome {
            Ok(_) => {
                append_chars(&mut line, &to_chars(SINGLE_SENT));
                append_chars(&mut line, &to_chars(email));
            },
            Err(why) => {
                append_chars(&mut line, &to_chars(SINGLE_FAILED));
                append_chars(&mut line, &to_chars(email));
                append_chars(&mut line, &to_chars(REASON_INFIX));
                append_chars(&mut line, &to_chars(why.as_str()));
            },
        }
        let ghost before = texts(self.status_log@);
        self.status_log.push(from_chars(&line));
        assert(texts(self.status_log@) =~= before.push(line@));
    }
}

proof fn lemma_first_done_range(events: Seq<ProgressView>, from: int)
    requires
        0 <= from <= events.len(),
    ensures
        from <= first_done(events, from) <= events.len(),
        first_done(events, from) < events.len() ==> events[first_done(events, from)] is Done,
        forall|i: int| from <= i < first_done(events, from) ==> !(events[i] is Done),
    decreases events.len() - from,
{
    if from < events.len() && !(events[from] is Done) {
        lemma_first_done_range(events, from + 1);
    }
}

proof fn lemma_first_done_joined(first: Seq<ProgressView>, second: Seq<ProgressView>, from: int)
    requires
        0 <= from <= first.len(),
    ensures
        first_done(first + second, from) == if first_done(first, from) < first.len() {
            first_done(first, from)
        } else {
            first.len() + first_done(second, 0)
        },
    decreases first.len() + second.len() - from,
{
    let all = first + second;
    if from < first.len() {
        assert(all[from] == first[from]);
        if !(first[from] is Done) {
            lemma_first_done_joined(first, second, from + 1);
        }
    } else {
        lemma_first_done_shifted(first, second, 0);
    }
}

proof fn lemma_first_done_shifted(first: Seq<ProgressView>, second: Seq<ProgressView>, at: int)
    requires
        0 <= at <= second.len(),
    ensures
        first_done(first + second, first.len() + at) == first.len() + first_done(second, at),
    decreases second.len() - at,
{
    let all = first + second;
    if at < second.len() {
        assert(all[first.len() + at] == second[at]);
        if !(second[at] is Done) {
            lemma_first_done_shifted(first, second, at + 1);
        }
    }
}

/// Events may be polled in parts, as they come in. What is logged of two
/// parts is what would be logged of both at once: the lines of the first,
/// and where the first holds no `Done`, the lines of the second; and both
/// ways the send is over once `Done` has come.
pub proof fn polling_in_parts_adds_up(first: Seq<ProgressView>, second: Seq<ProgressView>)
    ensures
        heard_lines(first + second) == if first_done(first, 0) < first.len() {
            heard_lines(first)
        } else {
            heard_lines(first) + heard_lines(second)
        },
        first_done(first + second, 0) < (first + second).len() <==> first_done(first, 0)
            < first.len() || first_done(second, 0) < second.len(),
{
    lemma_first_done_joined(first, second, 0);
    lemma_first_done_range(first, 0);
    lemma_first_done_range(second, 0);
    let all = first + second;
    if first_done(first, 0) < first.len() {
        assert(heard_lines(all) =~= heard_lines(first));
    } else {
        assert(heard_lines(all) =~= heard_lines(first) + heard_lines(second));
    }
}

} // verus!
