//! The `lettre` crate as this library uses it: the types that a message is
//! put together from, and the calls that do so.
//!
//! Everything in this file is trusted. An item without an `ensures` claims
//! only that the call returns. What the items say of a message they say
//! over a few names: the headers that a builder, a part or a message holds,
//! the kind of a multipart, the parts that a multipart or a message holds,
//! and the bytes of a part's body as they go out.

use vstd::prelude::*;
use lettre::message::header::{ContentType, ContentTypeErr};
use lettre::message::{Attachment, Mailbox, MessageBuilder, MultiPart, MultiPartBuilder, SinglePart};
use lettre::Message;

verus! {

/// `lettre::Message`: a finished message, with its envelope.
#[verifier::external_type_specification]
#[verifier::external_body]
pub struct ExMessage(lettre::Message);

/// `lettre::message::MessageBuilder`: the headers of a message in the
/// making.
#[verifier::external_type_specification]
#[verifier::external_body]
pub struct ExMessageBuilder(lettre::message::MessageBuilder);

/// `lettre::message::MultiPart`: a MIME part that holds parts.
#[verifier::external_type_specification]
#[verifier::external_body]
pub struct ExMultiPart(lettre::message::MultiPart);

/// `lettre::message::MultiPartBuilder`: a multipart that has its kind and
/// no part yet.
#[verifier::external_type_specification]
#[verifier::external_body]
pub struct ExMultiPartBuilder(lettre::message::MultiPartBuilder);

/// `lettre::message::SinglePart`: a MIME part with a body of its own.
#[verifier::external_type_specification]
#[verifier::external_body]
pub struct ExSinglePart(lettre::message::SinglePart);

/// `lettre::message::header::ContentType`: a MIME type.
#[verifier::external_type_specification]
#[verifier::external_body]
pub struct ExContentType(lettre::message::header::ContentType);

/// `lettre::message::header::ContentTypeErr`: why a text is no MIME type.
#[verifier::external_type_specification]
#[verifier::external_body]
pub struct ExContentTypeErr(lettre::message::header::ContentTypeErr);

/// The name of the `From` header, in lower case.
pub const FROM_KEY: &'static str = "from";

/// The name of the `Reply-To` header, in lower case.
pub const REPLY_TO_KEY: &'static str = "reply-to";

/// The name of the `To` header, in lower case.
pub const TO_KEY: &'static str = "to";

/// The name of the `Subject` header, in lower case.
pub const SUBJECT_KEY: &'static str = "subject";

/// The name of the `Message-ID` header, in lower case.
pub const MESSAGE_ID_KEY: &'static str = "message-id";

/// The name of the `Date` header, in lower case.
pub const DATE_KEY: &'static str = "date";

/// The name of the `MIME-Version` header, in lower case.
pub const MIME_VERSION_KEY: &'static str = "mime-version";

/// The name of the `Bcc` header, in lower case.
pub const BCC_KEY: &'static str = "bcc";

/// The name of the `Content-Type` header, in lower case.
pub const CONTENT_TYPE_KEY: &'static str = "content-type";

/// The name of the `Content-Transfer-Encoding` header, in lower case.
pub const ENCODING_KEY: &'static str = "content-transfer-encoding";

/// The name of the `Content-Disposition` header, in lower case.
pub const DISPOSITION_KEY: &'static str = "content-disposition";

/// The value of the `Content-Type` header of a plain-text part.
pub const TEXT_PLAIN_VALUE: &'static str = "text/plain; charset=utf-8";

/// The value of the `Content-Type` header of an HTML part.
pub const TEXT_HTML_VALUE: &'static str = "text/html; charset=utf-8";

/// The kind of a multipart whose parts are renderings of one content.
pub const ALTERNATIVE_KIND: &'static str = "alternative";

/// The kind of a multipart whose parts are unrelated contents.
pub const MIXED_KIND: &'static str = "mixed";

/// How the `Content-Disposition` of an attachment begins.
pub const DISPOSITION_OPEN: &'static str = "attachment; filename=\"";

/// How the `Content-Disposition` of an attachment ends.
pub const DISPOSITION_CLOSE: &'static str = "\"";

/// The value of the `Content-Disposition` header of a file that goes out
/// under `filename`.
pub open spec fn disposition_value(filename: Seq<char>) -> Seq<char> {
    DISPOSITION_OPEN@ + filename + DISPOSITION_CLOSE@
}

/// The headers that `lettre` stamps on a message when it closes it, or
/// takes from it: `Date`, `MIME-Version` and `Bcc`.
pub open spec fn stamped_keys() -> Set<Seq<char>> {
    set![DATE_KEY@, MIME_VERSION_KEY@, BCC_KEY@]
}

/// The headers that a builder holds: for each, by its name in lower case,
/// the value as it was handed in, before any encoding.
pub uninterp spec fn headers_of(builder: MessageBuilder) -> Map<Seq<char>, Seq<char>>;

/// The headers that a message holds, read as `headers_of` reads them.
pub uninterp spec fn message_headers(message: Message) -> Map<Seq<char>, Seq<char>>;

/// The headers that a part holds, read as `headers_of` reads them.
pub uninterp spec fn part_headers(part: SinglePart) -> Map<Seq<char>, Seq<char>>;

/// The bytes of a part's body as they go out, after encoding.
pub uninterp spec fn part_body(part: SinglePart) -> Seq<u8>;

/// The kind that a multipart in the making has: the subtype of its content
/// type, such as `mixed`.
pub uninterp spec fn builder_kind(builder: MultiPartBuilder) -> Seq<char>;

/// The kind of a multipart, read as `builder_kind` reads it.
pub uninterp spec fn kind_of(body: MultiPart) -> Seq<char>;

/// The kind of the multipart that is the body of a message.
pub uninterp spec fn message_kind(message: Message) -> Seq<char>;

/// The parts that a multipart holds, in order, each by its shape: `None`
/// for a part with a body of its own, `Some((kind, n))` for a multipart of
/// that kind that holds `n` parts.
pub uninterp spec fn parts_of(body: MultiPart) -> Seq<Option<(Seq<char>, nat)>>;

/// The parts with a body of their own that a multipart holds, itself or in
/// a multipart inside it, in the order in which they go out: each with its
/// headers and its body.
pub uninterp spec fn leaves_of(body: MultiPart) -> Seq<(Map<Seq<char>, Seq<char>>, Seq<u8>)>;

/// The parts of the multipart that is the body of a message, read as
/// `parts_of` reads them.
pub uninterp spec fn message_parts(message: Message) -> Seq<Option<(Seq<char>, nat)>>;

/// The parts with a body of their own in the body of a message, read as
/// `leaves_of` reads them.
pub uninterp spec fn message_leaves(message: Message) -> Seq<(Map<Seq<char>, Seq<char>>, Seq<u8>)>;

/// Whether an envelope was set on the builder by hand, so that none is
/// derived from its headers.
pub uninterp spec fn envelope_forced(builder: MessageBuilder) -> bool;

/// Why `lettre` refuses to close a message over `headers`, as its `Error`
/// words it; `None` where it closes the message. It refuses headers from
/// which it can derive no envelope: no sender, several, or no recipient.
pub uninterp spec fn close_fault(headers: Map<Seq<char>, Seq<char>>) -> Option<Seq<char>>;

/// Whether `value` is a mailbox as `lettre` writes it.
pub open spec fn is_written_mailbox(value: Seq<char>) -> bool {
    exists|text: Seq<char>| mailbox_fault(text) is None && value == #[trigger] mailbox_written(text)
}

/// Why `lettre` refuses `text` as a mailbox, as its `AddressError` words it;
/// `None` where it accepts the text.
pub uninterp spec fn mailbox_fault(text: Seq<char>) -> Option<Seq<char>>;

/// How `lettre` writes the mailbox that it reads from `text`, as the value
/// of a header.
pub uninterp spec fn mailbox_written(text: Seq<char>) -> Seq<char>;

/// The body bytes of the part that `lettre` makes of `text`, be the text
/// plain or HTML.
pub uninterp spec fn text_body_sent(text: Seq<char>) -> Seq<u8>;

/// The body bytes of the attachment part that `lettre` makes of `content`.
pub uninterp spec fn attachment_body_sent(content: Seq<u8>) -> Seq<u8>;

/// No header at all.
pub open spec fn no_headers() -> Map<Seq<char>, Seq<char>> {
    Map::empty()
}

/// `Message::builder` starts a message without headers and without an
/// envelope.
pub assume_specification[ Message::builder ]() -> (builder: MessageBuilder)
    ensures
        headers_of(builder) == no_headers(),
        !envelope_forced(builder),
;

/// Reads `text` as a mailbox, such as `Ada <ada@example.org>` or
/// `ada@example.org`, and sets it as the `From` header.
///
/// The body calls `Mailbox::from_str` through `str::parse`; on success it
/// calls `MessageBuilder::from`, on failure it formats the `AddressError`
/// with its `Display`. The parse reads nothing but `text`, so whether it
/// fails and how the mailbox is written are named. `MessageBuilder::from`
/// adds to a `From` header that is there already, so the header is claimed
/// only for a builder without one. It panics on a mailbox whose name holds a
/// line break; the parser gives none such.
#[verifier::external_body]
pub(crate) fn add_from(builder: MessageBuilder, text: &str) -> (added: Result<
    MessageBuilder,
    String,
>)
    ensures
        match added {
            Ok(next) => {
                &&& mailbox_fault(text@) is None
                &&& envelope_forced(next) == envelope_forced(builder)
                &&& !headers_of(builder).dom().contains(FROM_KEY@) ==> headers_of(next)
                    == headers_of(builder).insert(FROM_KEY@, mailbox_written(text@))
            },
            Err(why) => mailbox_fault(text@) == Some(why@),
        },
{
    match text.parse::<Mailbox>() {
        Ok(mailbox) => Ok(builder.from(mailbox)),
        Err(e) => Err(e.to_string()),
    }
}

/// Reads `text` as a mailbox and sets it as the `Reply-To` header.
///
/// As `add_from`, with `MessageBuilder::reply_to`.
#[verifier::external_body]
pub(crate) fn add_reply_to(builder: MessageBuilder, text: &str) -> (added: Result<
    MessageBuilder,
    String,
>)
    ensures
        match added {
            Ok(next) => {
                &&& mailbox_fault(text@) is None
                &&& envelope_forced(next) == envelope_forced(builder)
                &&& !headers_of(builder).dom().contains(REPLY_TO_KEY@) ==> headers_of(next)
                    == headers_of(builder).insert(REPLY_TO_KEY@, mailbox_written(text@))
            },
            Err(why) => mailbox_fault(text@) == Some(why@),
        },
{
    match text.parse::<Mailbox>() {
        Ok(mailbox) => Ok(builder.reply_to(mailbox)),
        Err(e) => Err(e.to_string()),
    }
}

/// Reads `text` as a mailbox and sets it as the `To` header.
///
/// As `add_from`, with `MessageBuilder::to`.
#[verifier::external_body]
pub(crate) fn add_to(builder: MessageBuilder, text: &str) -> (added: Result<
    MessageBuilder,
    String,
>)
    ensures
        match added {
            Ok(next) => {
                &&& mailbox_fault(text@) is None
                &&& envelope_forced(next) == envelope_forced(builder)
                &&& !headers_of(builder).dom().contains(TO_KEY@) ==> headers_of(next)
                    == headers_of(builder).insert(TO_KEY@, mailbox_written(text@))
            },
            Err(why) => mailbox_fault(text@) == Some(why@),
        },
{
    match text.parse::<Mailbox>() {
        Ok(mailbox) => Ok(builder.to(mailbox)),
        Err(e) => Err(e.to_string()),
    }
}

/// Sets the `Subject` header; the body calls `MessageBuilder::subject`,
/// which puts the text in the place of a subject that is there already.
#[verifier::external_body]
pub(crate) fn set_subject(builder: MessageBuilder, subject: String) -> (next: MessageBuilder)
    ensures
        headers_of(next) == headers_of(builder).insert(SUBJECT_KEY@, subject@),
        envelope_forced(next) == envelope_forced(builder),
{
    builder.subject(subject)
}

/// `MessageBuilder::message_id` sets the `Message-ID` header to the text
/// handed in; with `None` it makes one up.
pub assume_specification[ MessageBuilder::message_id ](
    builder: MessageBuilder,
    id: Option<String>,
) -> (next: MessageBuilder)
    ensures
        id matches Some(text) ==> headers_of(next) == headers_of(builder).insert(
            MESSAGE_ID_KEY@,
            text@,
        ),
        envelope_forced(next) == envelope_forced(builder),
;

/// Closes the headers over a multipart body.
///
/// The body calls `MessageBuilder::multipart` and, where that fails,
/// formats the error with its `Display`. Without an envelope set by hand
/// the call derives one from the headers and fails where it cannot; it
/// reads nothing else to decide, so whether it fails and how has the name
/// `close_fault`. On success it has set `MIME-Version`, added a `Date` from
/// the system clock where there was none, taken `Bcc` out, and left every
/// other header and the body as they were.
///
/// The call panics on a `From` header that holds no mailbox, which the
/// `requires` leaves out. It also panics where the system clock stands
/// outside the years 1970 to 9999.
#[verifier::external_body]
pub(crate) fn close_message(builder: MessageBuilder, body: MultiPart) -> (closed: Result<
    Message,
    String,
>)
    requires
        !envelope_forced(builder),
        headers_of(builder).dom().contains(FROM_KEY@) ==> is_written_mailbox(
            headers_of(builder)[FROM_KEY@],
        ),
    ensures
        match closed {
            Ok(message) => {
                &&& close_fault(headers_of(builder)) is None
                &&& message_headers(message).remove_keys(stamped_keys()) == headers_of(
                    builder,
                ).remove_keys(stamped_keys())
                &&& message_kind(message) == kind_of(body)
                &&& message_parts(message) == parts_of(body)
                &&& message_leaves(message) == leaves_of(body)
            },
            Err(why) => close_fault(headers_of(builder)) == Some(why@),
        },
{
    match builder.multipart(body) {
        Ok(message) => Ok(message),
        Err(e) => Err(e.to_string()),
    }
}

/// A part with a body of its own, as `parts_of` gives it.
pub open spec fn single() -> Option<(Seq<char>, nat)> {
    None
}

/// `MultiPart::alternative` starts a multipart of the kind `alternative`,
/// whose parts are renderings of one content. Its boundary is random.
pub assume_specification[ MultiPart::alternative ]() -> (builder: MultiPartBuilder)
    ensures
        builder_kind(builder) == ALTERNATIVE_KIND@,
;

/// `MultiPart::mixed` starts a multipart of the kind `mixed`, whose parts
/// are unrelated contents. Its boundary is random.
pub assume_specification[ MultiPart::mixed ]() -> (builder: MultiPartBuilder)
    ensures
        builder_kind(builder) == MIXED_KIND@,
;

/// `MultiPartBuilder::singlepart` makes the multipart of the builder's
/// kind that holds `part` and nothing else.
pub assume_specification[ MultiPartBuilder::singlepart ](
    builder: MultiPartBuilder,
    part: SinglePart,
) -> (body: MultiPart)
    ensures
        kind_of(body) == builder_kind(builder),
        parts_of(body) == seq![single()],
        leaves_of(body) == seq![(part_headers(part), part_body(part))],
;

/// `MultiPartBuilder::multipart` makes the multipart of the builder's kind
/// that holds `part` and nothing else.
pub assume_specification[ MultiPartBuilder::multipart ](
    builder: MultiPartBuilder,
    part: MultiPart,
) -> (body: MultiPart)
    ensures
        kind_of(body) == builder_kind(builder),
        parts_of(body) == seq![Some((kind_of(part), parts_of(part).len()))],
        leaves_of(body) == leaves_of(part),
;

/// `MultiPart::singlepart` appends `part` behind the parts that the
/// multipart holds, and leaves its kind as it is.
pub assume_specification[ MultiPart::singlepart ](body: MultiPart, part: SinglePart) -> (next:
    MultiPart)
    ensures
        kind_of(next) == kind_of(body),
        parts_of(next) == parts_of(body).push(single()),
        leaves_of(next) == leaves_of(body).push((part_headers(part), part_body(part))),
;

/// A `text/plain` part in UTF-8; the body calls `SinglePart::plain`, which
/// sets the content type, encodes the text, and sets the encoding it chose.
#[verifier::external_body]
pub(crate) fn plain_part(body: String) -> (part: SinglePart)
    ensures
        part_headers(part).remove(ENCODING_KEY@) == map![CONTENT_TYPE_KEY@ => TEXT_PLAIN_VALUE@],
        part_body(part) == text_body_sent(body@),
{
    SinglePart::plain(body)
}

/// A `text/html` part in UTF-8; the body calls `SinglePart::html`, which
/// sets the content type, encodes the text, and sets the encoding it chose.
#[verifier::external_body]
pub(crate) fn html_part(body: String) -> (part: SinglePart)
    ensures
        part_headers(part).remove(ENCODING_KEY@) == map![CONTENT_TYPE_KEY@ => TEXT_HTML_VALUE@],
        part_body(part) == text_body_sent(body@),
{
    SinglePart::html(body)
}

/// `ContentType::parse` reads a MIME type such as `text/plain`.
pub assume_specification[ ContentType::parse ](s: &str) -> (parsed: Result<
    ContentType,
    ContentTypeErr,
>);

/// The type `text/plain; charset=utf-8`; the body reads the constant
/// `ContentType::TEXT_PLAIN`.
#[verifier::external_body]
pub(crate) fn text_plain() -> (content_type: ContentType) {
    ContentType::TEXT_PLAIN
}

/// The part that carries `content` as a file called `filename`; the body
/// calls `Attachment::new` and `Attachment::body`, which set the
/// disposition and the content type, encode the bytes, and set the encoding
/// they chose. Of the content type nothing is claimed.
#[verifier::external_body]
pub(crate) fn attachment_part(
    filename: String,
    content: Vec<u8>,
    content_type: ContentType,
) -> (part: SinglePart)
    ensures
        part_headers(part).remove(ENCODING_KEY@).remove(CONTENT_TYPE_KEY@)
            == map![DISPOSITION_KEY@ => disposition_value(filename@)],
        part_body(part) == attachment_body_sent(content@),
{
    Attachment::new(filename).body(content, content_type)
}

} // verus!
