//! From a template and a recipient to a message that can be sent.

use vstd::prelude::*;
use crate::config::SmtpConfig;
use crate::platform::{
    chrono_timestamp, file_name_of, fresh_uuid, is_path_segment, is_random_uuid_text,
};
use crate::markup::{html_body, html_document, strip_html_tags, strip_tags};
use crate::mime::{
    add_from, add_reply_to, add_to, attachment_body_sent, attachment_part, close_fault,
    close_message, disposition_value, headers_of, html_part, is_written_mailbox, kind_of,
    leaves_of, mailbox_fault, mailbox_written, message_headers, message_kind, message_leaves,
    message_parts, no_headers, parts_of, plain_part, set_subject, single, stamped_keys,
    text_body_sent, text_plain, ALTERNATIVE_KIND, BCC_KEY, CONTENT_TYPE_KEY, DATE_KEY,
    DISPOSITION_KEY, ENCODING_KEY, FROM_KEY, MESSAGE_ID_KEY, MIME_VERSION_KEY, MIXED_KIND,
    REPLY_TO_KEY, SUBJECT_KEY, TEXT_HTML_VALUE, TEXT_PLAIN_VALUE, TO_KEY,
};
use crate::render::render;
use crate::template::{EmailTemplate, Recipient, RecipientView};
use crate::text::{append_chars, decimal, decimal_chars, from_chars, texts, to_chars};
use lettre::message::header::ContentType;
use lettre::message::MultiPart;
use lettre::Message;

verus! {

/// The name under which a file goes out where its path ends in no file
/// name.
pub const FALLBACK_FILE_NAME: &'static str = "attachment";

/// The MIME type under which every attachment goes out.
pub const ATTACHMENT_TYPE: &'static str = "application/octet-stream";

/// What a batch reports of its course, one event for each recipient and a
/// last one for the end.
#[derive(Debug, Clone)]
pub enum SendProgress {
    /// The message for the recipient at `index` was handed in.
    Sent { index: usize, email: String },
    /// No message went to the recipient at `index`; `error` says why.
    Failed { index: usize, email: String, error: String },
    /// The batch is over. Nothing follows.
    Done,
}

/// What a [`SendProgress`] stands for.
pub enum ProgressView {
    Sent { index: nat, email: Seq<char> },
    Failed { index: nat, email: Seq<char>, error: Seq<char> },
    Done,
}

impl View for SendProgress {
    type V = ProgressView;

    open spec fn view(&self) -> ProgressView {
        match self {
            SendProgress::Sent { index, email } => ProgressView::Sent {
                index: *index as nat,
                email: email@,
            },
            SendProgress::Failed { index, email, error } => ProgressView::Failed {
                index: *index as nat,
                email: email@,
                error: error@,
            },
            SendProgress::Done => ProgressView::Done,
        }
    }
}

/// The events that a list of progress values stands for.
pub open spec fn progress_views(list: Seq<SendProgress>) -> Seq<ProgressView> {
    Seq::new(list.len(), |i: int| list[i]@)
}

/// The address fields of a message.
#[derive(Debug, Clone, Copy, PartialEq, Eq, Structural)]
pub enum AddressField {
    From,
    ReplyTo,
    To,
}

/// Why no message could be built for a recipient.
#[derive(Debug, Clone)]
pub enum BuildError {
    /// The text of an address field is no mailbox.
    Address { field: AddressField, reason: String },
    /// The parts could not be put together.
    Assembly { reason: String },
}

/// What a [`BuildError`] stands for.
pub enum BuildErrorView {
    Address { field: AddressField, reason: Seq<char> },
    Assembly { reason: Seq<char> },
}

impl View for BuildError {
    type V = BuildErrorView;

    open spec fn view(&self) -> BuildErrorView {
        match self {
            BuildError::Address { field, reason } => BuildErrorView::Address {
                field: *field,
                reason: reason@,
            },
            BuildError::Assembly { reason } => BuildErrorView::Assembly { reason: reason@ },
        }
    }
}

/// How the `From` field is called in a diagnostic.
pub const FROM_LABEL: &'static str = "From";

/// How the `Reply-To` field is called in a diagnostic.
pub const REPLY_TO_LABEL: &'static str = "Reply-To";

/// How the `To` field is called in a diagnostic.
pub const TO_LABEL: &'static str = "To";

/// What stands between the field and the reason in a diagnostic.
pub const ADDRESS_INFIX: &'static str = " address: ";

/// The name of an address field in a diagnostic.
pub open spec fn field_label(field: AddressField) -> Seq<char> {
    match field {
        AddressField::From => FROM_LABEL@,
        AddressField::ReplyTo => REPLY_TO_LABEL@,
        AddressField::To => TO_LABEL@,
    }
}

/// A build error in words: for an address, the field and the reason; for
/// the assembly, the reason.
pub open spec fn describe_error(error: BuildErrorView) -> Seq<char> {
    match error {
        BuildErrorView::Address { field, reason } => field_label(field) + ADDRESS_INFIX@ + reason,
        BuildErrorView::Assembly { reason } => reason,
    }
}

/// A file as it goes out: its name and its bytes.
#[derive(Debug, Clone)]
pub struct AttachmentPlan {
    pub filename: String,
    pub content: Vec<u8>,
}

/// Everything that a message is assembled from.
#[derive(Debug, Clone)]
pub struct MessagePlan {
    pub from: String,
    pub reply_to: String,
    pub to: String,
    pub subject: String,
    pub message_id: String,
    pub plain_body: String,
    pub html_body: String,
    /// Whether the two bodies are wrapped, with the attachments, into a
    /// mixed part.
    pub mixed: bool,
    pub attachments: Vec<AttachmentPlan>,
}

/// What a [`MessagePlan`] stands for.
pub struct MessagePlanView {
    pub from: Seq<char>,
    pub reply_to: Seq<char>,
    pub to: Seq<char>,
    pub subject: Seq<char>,
    pub message_id: Seq<char>,
    pub plain_body: Seq<char>,
    pub html_body: Seq<char>,
    pub mixed: bool,
    pub attachments: Seq<(Seq<char>, Seq<u8>)>,
}

/// The attachments of a plan as pairs of name and bytes.
pub open spec fn attachment_views(list: Seq<AttachmentPlan>) -> Seq<(Seq<char>, Seq<u8>)> {
    Seq::new(list.len(), |i: int| (list[i].filename@, list[i].content@))
}

impl View for MessagePlan {
    type V = MessagePlanView;

    open spec fn view(&self) -> MessagePlanView {
        MessagePlanView {
            from: self.from@,
            reply_to: self.reply_to@,
            to: self.to@,
            subject: self.subject@,
            message_id: self.message_id@,
            plain_body: self.plain_body@,
            html_body: self.html_body@,
            mixed: self.mixed,
            attachments: attachment_views(self.attachments@),
        }
    }
}

/// A built message together with the plan that it was assembled from.
pub struct BuiltMessage {
    pub plan: MessagePlan,
    pub message: Message,
}

/// The `From` field: the sender's name and, in angle brackets, the account.
pub open spec fn from_field(from_name: Seq<char>, username: Seq<char>) -> Seq<char> {
    from_name + seq![' ', '<'] + username + seq!['>']
}

/// A message identifier `<uuid.timestamp@host>`.
pub open spec fn message_id_text(uuid: Seq<char>, timestamp: nat, host: Seq<char>) -> Seq<char> {
    seq!['<'] + uuid + seq!['.'] + decimal(timestamp) + seq!['@'] + host + seq!['>']
}

/// The name under which a file goes out: the last segment of its path, or
/// the fallback name where the path has none.
pub open spec fn attachment_name(file_name: Option<Seq<char>>) -> Seq<char> {
    match file_name {
        Some(name) => name,
        None => FALLBACK_FILE_NAME@,
    }
}

/// The attachments of a message: for each path, in order, the file that was
/// read from it. A path whose file could not be read (`None`, or no entry
/// in `files`) gives no attachment.
pub open spec fn planned_attachments(
    file_names: Seq<Option<Seq<char>>>,
    files: Seq<Option<Seq<u8>>>,
) -> Seq<(Seq<char>, Seq<u8>)>
    decreases file_names.len(),
{
    if file_names.len() == 0 {
        Seq::empty()
    } else {
        let before = planned_attachments(file_names.drop_last(), files);
        let k = file_names.len() - 1;
        if k < files.len() && files[k] is Some {
            before.push((attachment_name(file_names[k]), files[k]->0))
        } else {
            before
        }
    }
}

/// The plan of the message that goes to one recipient of a template.
pub open spec fn message_plan(
    from_name: Seq<char>,
    username: Seq<char>,
    host: Seq<char>,
    subject: Seq<char>,
    body: Seq<char>,
    has_attachments: bool,
    recipient: RecipientView,
    uuid: Seq<char>,
    timestamp: nat,
    file_names: Seq<Option<Seq<char>>>,
    files: Seq<Option<Seq<u8>>>,
) -> MessagePlanView {
    MessagePlanView {
        from: from_field(from_name, username),
        reply_to: username,
        to: recipient.email,
        subject: render(subject, recipient.args),
        message_id: message_id_text(uuid, timestamp, host),
        plain_body: strip_tags(render(body, recipient.args)),
        html_body: html_document(render(body, recipient.args)),
        mixed: has_attachments,
        attachments: planned_attachments(file_names, files),
    }
}

/// The file names that a list of optional strings stands for.
pub open spec fn name_views(names: Seq<Option<String>>) -> Seq<Option<Seq<char>>> {
    Seq::new(
        names.len(),
        |i: int|
            match names[i] {
                Some(name) => Some(name@),
                None => None,
            },
    )
}

/// The file contents that a list of optional byte vectors stands for.
pub open spec fn file_views(files: Seq<Option<Vec<u8>>>) -> Seq<Option<Seq<u8>>> {
    Seq::new(
        files.len(),
        |i: int|
            match files[i] {
                Some(bytes) => Some(bytes@),
                None => None,
            },
    )
}

/// The first address field that is no mailbox, with the reason, in the
/// order `From`, `Reply-To`, `To`; `None` where all three are mailboxes.
pub open spec fn address_verdict(from: Seq<char>, reply_to: Seq<char>, to: Seq<char>) -> Option<
    BuildErrorView,
> {
    if mailbox_fault(from) is Some {
        Some(BuildErrorView::Address { field: AddressField::From, reason: mailbox_fault(from)->0 })
    } else if mailbox_fault(reply_to) is Some {
        Some(
            BuildErrorView::Address {
                field: AddressField::ReplyTo,
                reason: mailbox_fault(reply_to)->0,
            },
        )
    } else if mailbox_fault(to) is Some {
        Some(BuildErrorView::Address { field: AddressField::To, reason: mailbox_fault(to)->0 })
    } else {
        None
    }
}

/// A copy of `bytes`.
fn copy_bytes(bytes: &Vec<u8>) -> (copy: Vec<u8>)
    ensures
        copy@ == bytes@,
{
    let mut copy: Vec<u8> = Vec::new();
    let mut i: usize = 0;
    while i < bytes.len()
        invariant
            i <= bytes.len(),
            copy@ == bytes@.take(i as int),
        decreases bytes.len() - i,
    {
        copy.push(bytes[i]);
        i += 1;
    }
    copy
}

/// Lays out the message for `recipient`: renders subject and body, writes
/// the address fields and the message identifier, derives the two body
/// variants, and pairs each file that was read with its name.
///
/// `file_names[k]` is the last segment of the template's `k`-th attachment
/// path, `files[k]` what was read from that path; `uuid` and `timestamp`
/// make the message identifier.
pub fn plan_message(
    config: &SmtpConfig,
    template: &EmailTemplate,
    recipient: &Recipient,
    uuid: &str,
    timestamp: u64,
    file_names: &Vec<Option<String>>,
    files: &Vec<Option<Vec<u8>>>,
) -> (plan: MessagePlan)
    ensures
        plan@ == message_plan(
            config.from_name@,
            config.username@,
            config.host@,
            template.subject@,
            template.body@,
            template.attachment_paths.len() > 0,
            recipient@,
            uuid@,
            timestamp as nat,
            name_views(file_names@),
            file_views(files@),
        ),
{
    let mut from = to_chars(config.from_name.as_str());
    from.push(' ');
    from.push('<');
    append_chars(&mut from, &to_chars(config.username.as_str()));
    from.push('>');
    assert(from@ =~= from_field(config.from_name@, config.username@));

    let mut id: Vec<char> = Vec::new();
    id.push('<');
    append_chars(&mut id, &to_chars(uuid));
    id.push('.');
    append_chars(&mut id, &decimal_chars(timestamp as u128));
    id.push('@');
    append_chars(&mut id, &to_chars(config.host.as_str()));
    id.push('>');
    assert(id@ =~= message_id_text(uuid@, timestamp as nat, config.host@));

    let subject = template.render_subject(recipient);
    let body = template.render_body(recipient);
    let html = html_body(body.as_str());
    let plain = strip_html_tags(body.as_str());

    let ghost names = name_views(file_names@);
    let ghost contents = file_views(files@);
    let mut attachments: Vec<AttachmentPlan> = Vec::new();
    let mut k: usize = 0;
    assert(names.take(0) =~= Seq::<Option<Seq<char>>>::empty());
    assert(attachment_views(attachments@) =~= planned_attachments(names.take(0), contents));
    while k < file_names.len()
        invariant
            k <= file_names.len(),
            names == name_views(file_names@),
            contents == file_views(files@),
            attachment_views(attachments@) == planned_attachments(names.take(k as int), contents),
        decreases file_names.len() - k,
    {
        let ghost before = attachment_views(attachments@);
        assert(names.take(k + 1).drop_last() =~= names.take(k as int));
        if k < files.len() {
            if let Some(bytes) = &files[k] {
                let filename = match &file_names[k] {
                    Some(name) => name.clone(),
                    None => FALLBACK_FILE_NAME.to_owned(),
                };
                attachments.push(AttachmentPlan { filename, content: copy_bytes(bytes) });
                assert(attachment_views(attachments@) =~= before.push(
                    (attachment_name(names[k as int]), contents[k as int]->0),
                ));
            }
        }
        k += 1;
    }
    assert(names.take(file_names.len() as int) =~= names);
    MessagePlan {
        from: from_chars(&from),
        reply_to: config.username.clone(),
        to: recipient.email.clone(),
        subject,
        message_id: from_chars(&id),
        plain_body: plain,
        html_body: html,
        mixed: template.attachment_paths.len() > 0,
        attachments,
    }
}

/// The body of a message: the plain and the HTML variant as alternatives,
/// and where the plan asks for it, a mixed part of them and the attachments.
fn assemble_body(plan: &MessagePlan) -> (body: MultiPart)
    ensures
        kind_of(body) == body_kind(plan.mixed),
        parts_of(body) == body_shape(plan.mixed, plan.attachments@.len()),
        holds_body(leaves_of(body), plan@),
{
    let alternative = MultiPart::alternative().singlepart(
        plain_part(plan.plain_body.clone()),
    ).singlepart(html_part(plan.html_body.clone()));
    assert(parts_of(alternative) =~= body_shape(false, 0));
    assert(holds_leaves(leaves_of(alternative), plan@, 0));
    if !plan.mixed {
        return alternative;
    }
    let mut mixed = MultiPart::mixed().multipart(alternative);
    let mut k: usize = 0;
    assert(parts_of(mixed) =~= body_shape(true, 0));
    while k < plan.attachments.len()
        invariant
            k <= plan.attachments.len(),
            kind_of(mixed) == MIXED_KIND@,
            parts_of(mixed) == body_shape(true, k as nat),
            holds_leaves(leaves_of(mixed), plan@, k as nat),
        decreases plan.attachments.len() - k,
    {
        let content_type = match ContentType::parse(ATTACHMENT_TYPE) {
            Ok(parsed) => parsed,
            Err(_) => text_plain(),
        };
        let filename = plan.attachments[k].filename.clone();
        let content = copy_bytes(&plan.attachments[k].content);
        let ghost before = leaves_of(mixed);
        mixed = mixed.singlepart(attachment_part(filename, content, content_type));
        assert(body_shape(true, k as nat).push(single()) =~= body_shape(true, (k + 1) as nat));
        proof {
            let after = leaves_of(mixed);
            assert(plan@.attachments[k as int] == (
                plan.attachments[k as int].filename@,
                plan.attachments[k as int].content@,
            ));
            assert(is_attachment_leaf(after[2 + k], plan@.attachments[k as int]));
            assert forall|j: int| 0 <= j < k + 1 implies is_attachment_leaf(
                after[2 + j],
                #[trigger] plan@.attachments[j],
            ) by {
                if j < k {
                    assert(after[2 + j] == before[2 + j]);
                }
            }
        }
        k += 1;
    }
    mixed
}

/// The kind of a message body: `mixed` where files go with it, else
/// `alternative`.
pub open spec fn body_kind(mixed: bool) -> Seq<char> {
    if mixed {
        MIXED_KIND@
    } else {
        ALTERNATIVE_KIND@
    }
}

/// The shape of a message body, part by part. A body that is not mixed is
/// the two variants, plain and HTML, each a part with a body of its own. A
/// mixed body is the `alternative` multipart of those two, and behind it
/// one part for each attachment.
pub open spec fn body_shape(mixed: bool, attachments: nat) -> Seq<Option<(Seq<char>, nat)>> {
    if mixed {
        seq![Some((ALTERNATIVE_KIND@, 2nat))] + Seq::new(attachments, |i: int| single())
    } else {
        seq![single(), single()]
    }
}

/// Whether a part is the attachment part of a file: its disposition names
/// the file, and its body is what `lettre` makes of the file's bytes. Its
/// content type and the encoding of its body are left open.
pub open spec fn is_attachment_leaf(
    leaf: (Map<Seq<char>, Seq<char>>, Seq<u8>),
    file: (Seq<char>, Seq<u8>),
) -> bool {
    &&& leaf.0.remove(ENCODING_KEY@).remove(CONTENT_TYPE_KEY@)
        == map![DISPOSITION_KEY@ => disposition_value(file.0)]
    &&& leaf.1 == attachment_body_sent(file.1)
}

/// Whether `leaves` are the parts that the plan asks for, up to its first
/// `attached` attachments: the plain body as `text/plain`, the HTML body as
/// `text/html`, and one attachment part for each of those files, in the
/// order of the plan. The encoding of each body is left open.
pub open spec fn holds_leaves(
    leaves: Seq<(Map<Seq<char>, Seq<char>>, Seq<u8>)>,
    plan: MessagePlanView,
    attached: nat,
) -> bool {
    &&& leaves.len() == 2 + attached
    &&& attached <= plan.attachments.len()
    &&& leaves[0].0.remove(ENCODING_KEY@) == map![CONTENT_TYPE_KEY@ => TEXT_PLAIN_VALUE@]
    &&& leaves[0].1 == text_body_sent(plan.plain_body)
    &&& leaves[1].0.remove(ENCODING_KEY@) == map![CONTENT_TYPE_KEY@ => TEXT_HTML_VALUE@]
    &&& leaves[1].1 == text_body_sent(plan.html_body)
    &&& forall|k: int|
        0 <= k < attached ==> is_attachment_leaf(leaves[2 + k], #[trigger] plan.attachments[k])
}

/// Whether `leaves` are the parts that the plan asks for: the two bodies,
/// and for a mixed plan every attachment.
pub open spec fn holds_body(
    leaves: Seq<(Map<Seq<char>, Seq<char>>, Seq<u8>)>,
    plan: MessagePlanView,
) -> bool {
    holds_leaves(
        leaves,
        plan,
        if plan.mixed {
            plan.attachments.len()
        } else {
            0
        },
    )
}

/// The headers that the plan asks for: the three address fields as
/// `lettre` writes them, the subject and the message identifier.
pub open spec fn plan_headers(plan: MessagePlanView) -> Map<Seq<char>, Seq<char>> {
    no_headers().insert(FROM_KEY@, mailbox_written(plan.from)).insert(
        REPLY_TO_KEY@,
        mailbox_written(plan.reply_to),
    ).insert(TO_KEY@, mailbox_written(plan.to)).insert(SUBJECT_KEY@, plan.subject).insert(
        MESSAGE_ID_KEY@,
        plan.message_id,
    )
}

/// Whether `message` is the message that the plan lays out: besides the
/// headers that `lettre` stamps on it, it holds the headers of the plan and
/// no other; its body has the kind, the shape and the parts that the plan
/// asks for.
pub open spec fn message_holds(message: Message, plan: MessagePlanView) -> bool {
    &&& message_headers(message).remove_keys(stamped_keys()) == plan_headers(plan)
    &&& message_kind(message) == body_kind(plan.mixed)
    &&& message_parts(message) == body_shape(plan.mixed, plan.attachments.len())
    &&& holds_body(message_leaves(message), plan)
}

/// The names of the headers are pairwise distinct.
proof fn lemma_header_keys_differ()
    ensures
        FROM_KEY@ != REPLY_TO_KEY@,
        FROM_KEY@ != TO_KEY@,
        FROM_KEY@ != SUBJECT_KEY@,
        FROM_KEY@ != MESSAGE_ID_KEY@,
        REPLY_TO_KEY@ != TO_KEY@,
        !stamped_keys().contains(FROM_KEY@),
        !stamped_keys().contains(REPLY_TO_KEY@),
        !stamped_keys().contains(TO_KEY@),
        !stamped_keys().contains(SUBJECT_KEY@),
        !stamped_keys().contains(MESSAGE_ID_KEY@),
{
    reveal_strlit("from");
    reveal_strlit("reply-to");
    reveal_strlit("to");
    reveal_strlit("subject");
    reveal_strlit("message-id");
    reveal_strlit("date");
    reveal_strlit("mime-version");
    reveal_strlit("bcc");
    assert(FROM_KEY@.len() == 4 && FROM_KEY@[0] == 'f');
    assert(REPLY_TO_KEY@.len() == 8);
    assert(TO_KEY@.len() == 2);
    assert(SUBJECT_KEY@.len() == 7);
    assert(MESSAGE_ID_KEY@.len() == 10);
    assert(DATE_KEY@.len() == 4 && DATE_KEY@[0] == 'd');
    assert(MIME_VERSION_KEY@.len() == 12);
    assert(BCC_KEY@.len() == 3);
}

/// What the closing of a message gives the caller: the message with its
/// plan, or the assembly error with the reason that came back.
pub fn conclude(plan: MessagePlan, closed: Result<Message, String>) -> (built: Result<
    BuiltMessage,
    BuildError,
>)
    ensures
        match closed {
            Ok(message) => built == Ok::<BuiltMessage, BuildError>(
                (BuiltMessage { plan, message }),
            ),
            Err(reason) => built == Err::<BuiltMessage, BuildError>(
                (BuildError::Assembly { reason }),
            ),
        },
{
    match closed {
        Ok(message) => Ok(BuiltMessage { plan, message }),
        Err(reason) => Err(BuildError::Assembly { reason }),
    }
}

/// What the assembly of a plan with three mailboxes comes to. Where
/// `lettre` closes a message over the headers of the plan, it is that
/// message, which holds the headers and the parts of the plan; where it
/// does not, it is the assembly error with the reason that `lettre` gives.
pub open spec fn is_assembly_outcome(
    built: Result<BuiltMessage, BuildError>,
    plan: MessagePlanView,
) -> bool {
    match close_fault(plan_headers(plan)) {
        None => built matches Ok(b) && b.plan@ == plan && message_holds(b.message, plan),
        Some(why) => built matches Err(e) && e@ == (BuildErrorView::Assembly { reason: why }),
    }
}

/// Assembles the message that `plan` lays out.
///
/// Fails with the first address field that is no mailbox. With three
/// mailboxes it gives the message exactly when `lettre` closes one over the
/// headers of the plan, and else the assembly error.
pub fn assemble(plan: MessagePlan) -> (built: Result<BuiltMessage, BuildError>)
    ensures
        match address_verdict(plan.from@, plan.reply_to@, plan.to@) {
            Some(fault) => built matches Err(e) && e@ == fault,
            None => is_assembly_outcome(built, plan@) && (built matches Ok(b) ==> b.plan == plan),
        },
{
    proof {
        lemma_header_keys_differ();
    }
    let builder = match add_from(Message::builder(), plan.from.as_str()) {
        Ok(next) => next,
        Err(reason) => {
            return Err(BuildError::Address { field: AddressField::From, reason });
        },
    };
    let builder = match add_reply_to(builder, plan.reply_to.as_str()) {
        Ok(next) => next,
        Err(reason) => {
            return Err(BuildError::Address { field: AddressField::ReplyTo, reason });
        },
    };
    let builder = match add_to(builder, plan.to.as_str()) {
        Ok(next) => next,
        Err(reason) => {
            return Err(BuildError::Address { field: AddressField::To, reason });
        },
    };
    let builder = set_subject(builder, plan.subject.clone()).message_id(
        Some(plan.message_id.clone()),
    );
    assert(headers_of(builder) == plan_headers(plan@));
    assert(headers_of(builder).remove_keys(stamped_keys()) =~= plan_headers(plan@));
    assert(is_written_mailbox(headers_of(builder)[FROM_KEY@])) by {
        assert(headers_of(builder)[FROM_KEY@] == mailbox_written(plan.from@));
    }
    let body = assemble_body(&plan);
    conclude(plan, close_message(builder, body))
}

/// Whether `file_names` are file names of `paths`, one for each path in
/// order: each, where there is one, a segment of its path.
pub open spec fn are_names_of(file_names: Seq<Option<Seq<char>>>, paths: Seq<Seq<char>>) -> bool {
    &&& file_names.len() == paths.len()
    &&& forall|k: int|
        0 <= k < file_names.len() ==> ((#[trigger] file_names[k]) matches Some(name)
            ==> is_path_segment(name, paths[k]))
}

/// Whether `plan` is the plan of the message from `config` and `template`
/// to `recipient` with the files `files`, for some identifier of the shape
/// of a random UUID, some time, and for each attachment path some segment
/// of it as the file name, or none.
pub open spec fn is_plan_for(
    plan: MessagePlanView,
    config: SmtpConfig,
    template: EmailTemplate,
    recipient: RecipientView,
    files: Seq<Option<Seq<u8>>>,
) -> bool {
    let has_attachments = template.attachment_paths.len() > 0;
    exists|uuid: Seq<char>, timestamp: nat, file_names: Seq<Option<Seq<char>>>|
        {
            &&& is_random_uuid_text(uuid)
            &&& are_names_of(file_names, texts(template.attachment_paths@))
            &&& plan == #[trigger] message_plan(
                config.from_name@,
                config.username@,
                config.host@,
                template.subject@,
                template.body@,
                has_attachments,
                recipient,
                uuid,
                timestamp,
                file_names,
                files,
            )
        }
}

/// What building the message for `recipient` comes to: the first address
/// fault where there is one; else, for a plan of that message, what its
/// assembly comes to.
pub open spec fn is_build_outcome(
    built: Result<BuiltMessage, BuildError>,
    config: SmtpConfig,
    template: EmailTemplate,
    recipient: RecipientView,
    files: Seq<Option<Seq<u8>>>,
) -> bool {
    match address_verdict(
        from_field(config.from_name@, config.username@),
        config.username@,
        recipient.email,
    ) {
        Some(fault) => built matches Err(e) && e@ == fault,
        None => exists|plan: MessagePlanView|
            is_plan_for(plan, config, template, recipient, files) && #[trigger] is_assembly_outcome(
                built,
                plan,
            ),
    }
}

/// Builds the message that goes to `recipient`.
///
/// `files[k]` holds what was read from the template's `k`-th attachment
/// path, `None` where the file could not be read; such a file is left out
/// of the message, which is built all the same.
///
/// Fails with the first of `From`, `Reply-To` and `To` that is no mailbox.
/// Otherwise the outcome is that of the MIME assembly, and a message comes
/// with the plan it was assembled from: rendered subject and bodies, the
/// address fields, a fresh message identifier, and the files that were read.
pub fn build_message(
    config: &SmtpConfig,
    template: &EmailTemplate,
    recipient: &Recipient,
    files: &Vec<Option<Vec<u8>>>,
) -> (built: Result<BuiltMessage, BuildError>)
    ensures
        is_build_outcome(built, *config, *template, recipient@, file_views(files@)),
{
    let mut file_names: Vec<Option<String>> = Vec::new();
    let mut k: usize = 0;
    while k < template.attachment_paths.len()
        invariant
            k <= template.attachment_paths.len(),
            file_names.len() == k,
            are_names_of(
                name_views(file_names@),
                texts(template.attachment_paths@).take(k as int),
            ),
        decreases template.attachment_paths.len() - k,
    {
        let ghost before = name_views(file_names@);
        let name = file_name_of(template.attachment_paths[k].as_str());
        file_names.push(name);
        proof {
            let names = name_views(file_names@);
            let paths = texts(template.attachment_paths@).take(k + 1);
            assert forall|j: int| 0 <= j < names.len() implies ((#[trigger] names[j]) matches Some(
                text,
            ) ==> is_path_segment(text, paths[j])) by {
                if j < k {
                    assert(names[j] == before[j]);
                    assert(paths[j] == texts(template.attachment_paths@).take(k as int)[j]);
                } else {
                    assert(paths[j] == template.attachment_paths[k as int]@);
                }
            }
        }
        k += 1;
    }
    assert(texts(template.attachment_paths@).take(k as int) =~= texts(
        template.attachment_paths@,
    ));
    let uuid = fresh_uuid();
    let timestamp = chrono_timestamp();
    let plan = plan_message(
        config,
        template,
        recipient,
        uuid.as_str(),
        timestamp,
        &file_names,
        files,
    );
    let ghost laid_out = plan@;
    let built = assemble(plan);
    proof {
        assert(laid_out == message_plan(
            config.from_name@,
            config.username@,
            config.host@,
            template.subject@,
            template.body@,
            template.attachment_paths.len() > 0,
            recipient@,
            uuid@,
            timestamp as nat,
            name_views(file_names@),
            file_views(files@),
        ));
        assert(is_plan_for(laid_out, *config, *template, recipient@, file_views(files@)));
        if address_verdict(laid_out.from, laid_out.reply_to, laid_out.to) is None {
            assert(is_assembly_outcome(built, laid_out));
        }
    }
    built
}

/// What a build comes to for a single send: the message as it was built,
/// or the build error in words.
pub open spec fn is_single_outcome(
    ready: Result<BuiltMessage, String>,
    built: Result<BuiltMessage, BuildError>,
) -> bool {
    match built {
        Ok(b) => ready == Ok::<BuiltMessage, String>(b),
        Err(e) => ready matches Err(text) && text@ == describe_error(e@),
    }
}

/// The middle of the send of one message outside a batch, between the
/// opening of the session and the handing in.
///
/// `session` says how the opening went. Where it failed, that failure is
/// the result and no message is built. Otherwise the result is that of
/// [`build_message`], with a build error put in words. The caller hands the
/// message in and reports what the relay says.
pub fn send_single(
    config: &SmtpConfig,
    template: &EmailTemplate,
    recipient: &Recipient,
    session: Result<(), String>,
    files: &Vec<Option<Vec<u8>>>,
) -> (ready: Result<BuiltMessage, String>)
    ensures
        match session {
            Err(why) => ready == Err::<BuiltMessage, String>(why),
            Ok(_) => exists|built: Result<BuiltMessage, BuildError>|
                #[trigger] is_build_outcome(
                    built,
                    *config,
                    *template,
                    recipient@,
                    file_views(files@),
                ) && is_single_outcome(ready, built),
        },
{
    match session {
        Err(why) => Err(why),
        Ok(_) => {
            let built = build_message(config, template, recipient, files);
            let ghost outcome = built;
            let ready = match built {
                Ok(message) => Ok(message),
                Err(error) => Err(error.describe()),
            };
            assert(is_single_outcome(ready, outcome));
            ready
        },
    }
}

impl BuildError {
    /// The error in words, for the operator.
    pub fn describe(&self) -> (text: String)
        ensures
            text@ == describe_error(self@),
    {
        match self {
            BuildError::Address { field, reason } => {
                let mut out = to_chars(
                    match field {
                        AddressField::From => FROM_LABEL,
                        AddressField::ReplyTo => REPLY_TO_LABEL,
                        AddressField::To => TO_LABEL,
                    },
                );
                append_chars(&mut out, &to_chars(ADDRESS_INFIX));
                append_chars(&mut out, &to_chars(reason.as_str()));
                from_chars(&out)
            },
            BuildError::Assembly { reason } => reason.clone(),
        }
    }
}

} // verus!
