//! Templates and their recipients.

use vstd::prelude::*;
use crate::platform::{fresh_uuid, is_random_uuid_text};
use crate::placeholders::{extract, placeholders};
use crate::render::{
    entry_views, key_at, last_binding, lemma_last_binding_is, map_of, render, render_with,
};
use crate::text::{copy_strings, same_text, texts};

verus! {

/// One addressee of a template, with the values substituted for them.
///
/// `args` is read as a list of assignments: where a key occurs twice, the
/// later entry holds.
#[derive(Debug, Clone)]
pub struct Recipient {
    pub email: String,
    pub args: Vec<(String, String)>,
}

/// What a [`Recipient`] stands for: an address and a finite map from
/// placeholder names to substitution values.
pub struct RecipientView {
    pub email: Seq<char>,
    pub args: Map<Seq<char>, Seq<char>>,
}

impl View for Recipient {
    type V = RecipientView;

    open spec fn view(&self) -> RecipientView {
        RecipientView { email: self.email@, args: map_of(entry_views(self.args@)) }
    }
}

/// A reusable message: a subject and a body with `{key}` placeholders, the
/// files attached to it, and the recipients it goes to.
#[derive(Debug, Clone)]
pub struct EmailTemplate {
    pub id: String,
    pub name: String,
    pub subject: String,
    pub body: String,
    pub attachment_paths: Vec<String>,
    pub recipients: Vec<Recipient>,
}

/// What an [`EmailTemplate`] stands for.
pub struct EmailTemplateView {
    pub id: Seq<char>,
    pub name: Seq<char>,
    pub subject: Seq<char>,
    pub body: Seq<char>,
    pub attachment_paths: Seq<Seq<char>>,
    pub recipients: Seq<RecipientView>,
}

/// What a list of recipients stands for.
pub open spec fn recipient_views(list: Seq<Recipient>) -> Seq<RecipientView> {
    Seq::new(list.len(), |i: int| list[i]@)
}

impl View for EmailTemplate {
    type V = EmailTemplateView;

    open spec fn view(&self) -> EmailTemplateView {
        EmailTemplateView {
            id: self.id@,
            name: self.name@,
            subject: self.subject@,
            body: self.body@,
            attachment_paths: texts(self.attachment_paths@),
            recipients: recipient_views(self.recipients@),
        }
    }
}

/// A copy of an argument list.
pub fn copy_args(args: &Vec<(String, String)>) -> (copy: Vec<(String, String)>)
    ensures
        entry_views(copy@) == entry_views(args@),
{
    let mut copy: Vec<(String, String)> = Vec::new();
    let mut i: usize = 0;
    while i < args.len()
        invariant
            i <= args.len(),
            copy.len() == i,
            forall|j: int|
                0 <= j < i ==> (#[trigger] copy[j]).0@ == args[j].0@ && copy[j].1@ == args[j].1@,
        decreases args.len() - i,
    {
        copy.push((args[i].0.clone(), args[i].1.clone()));
        i += 1;
    }
    assert(entry_views(copy@) =~= entry_views(args@));
    copy
}

/// The place of the binding of `key` in `args`; where the key is not bound
/// yet, it is first bound to the empty text, at the end of the list.
pub fn ensure_arg(args: &mut Vec<(String, String)>, key: &str) -> (index: usize)
    ensures
        index < final(args)@.len(),
        index == last_binding(entry_views(final(args)@), key@),
        last_binding(entry_views(old(args)@), key@) >= 0 ==> final(args)@ == old(args)@,
        last_binding(entry_views(old(args)@), key@) < 0 ==> {
            &&& final(args)@.len() == old(args)@.len() + 1
            &&& final(args)@.drop_last() == old(args)@
            &&& final(args)@.last().0@ == key@
            &&& final(args)@.last().1@.len() == 0
        },
{
    let ghost entries = entry_views(args@);
    let mut i: usize = args.len();
    while i > 0
        invariant
            i <= args.len(),
            args@ == old(args)@,
            entries == entry_views(args@),
            forall|j: int| i <= j < entries.len() ==> #[trigger] key_at(entries, j) != key@,
        decreases i,
    {
        i -= 1;
        if same_text(args[i].0.as_str(), key) {
            proof {
                lemma_last_binding_is(entries, key@, i as int);
            }
            return i;
        }
        assert(key_at(entries, i as int) != key@);
    }
    proof {
        lemma_last_binding_is(entries, key@, -1);
    }
    args.push((key.to_owned(), String::new()));
    proof {
        let now = entry_views(args@);
        assert(args@.drop_last() =~= old(args)@);
        assert(now.last().0 == key@);
    }
    args.len() - 1
}

impl Recipient {
    /// A copy that stands for the same recipient.
    pub fn snapshot(&self) -> (copy: Self)
        ensures
            copy@ == self@,
            entry_views(copy.args@) == entry_views(self.args@),
    {
        Recipient { email: self.email.clone(), args: copy_args(&self.args) }
    }
}

impl EmailTemplate {
    /// A template called `name`, with nothing else in it, under a fresh
    /// random identifier: the one that is drawn for this call goes to
    /// [`EmailTemplate::with_id`].
    pub fn new(name: String) -> (template: Self)
        ensures
            template.name == name,
            is_random_uuid_text(template.id@),
            template.subject@.len() == 0,
            template.body@.len() == 0,
            template.attachment_paths@.len() == 0,
            template.recipients@.len() == 0,
    {
        EmailTemplate::with_id(name, fresh_uuid())
    }

    /// A template called `name` under the identifier `id`, with nothing
    /// else in it.
    pub fn with_id(name: String, id: String) -> (template: Self)
        ensures
            template.id == id,
            template.name == name,
            template.subject@.len() == 0,
            template.body@.len() == 0,
            template.attachment_paths@.len() == 0,
            template.recipients@.len() == 0,
    {
        EmailTemplate {
            id,
            name,
            subject: String::new(),
            body: String::new(),
            attachment_paths: Vec::new(),
            recipients: Vec::new(),
        }
    }

    /// A copy that stands for the same template, for a send that later
    /// edits of this one are not to touch.
    pub fn snapshot(&self) -> (copy: Self)
        ensures
            copy@ == self@,
    {
        let mut recipients: Vec<Recipient> = Vec::new();
        let mut i: usize = 0;
        while i < self.recipients.len()
            invariant
                i <= self.recipients.len(),
                recipients.len() == i,
                forall|j: int| 0 <= j < i ==> (#[trigger] recipients[j])@ == self.recipients[j]@,
            decreases self.recipients.len() - i,
        {
            recipients.push(self.recipients[i].snapshot());
            i += 1;
        }
        assert(recipient_views(recipients@) =~= recipient_views(self.recipients@));
        EmailTemplate {
            id: self.id.clone(),
            name: self.name.clone(),
            subject: self.subject.clone(),
            body: self.body.clone(),
            attachment_paths: copy_strings(&self.attachment_paths),
            recipients,
        }
    }

    /// Renders `text` for `recipient`: every placeholder `{key}` whose key
    /// the recipient binds is replaced by the bound value, in one pass over
    /// `text`; everything else stays as it is.
    pub fn render_text(&self, text: &str, recipient: &Recipient) -> (out: String)
        ensures
            out@ == render(text@, recipient@.args),
    {
        render_with(text, &recipient.args)
    }

    /// The subject line of this template, rendered for `recipient`.
    pub fn render_subject(&self, recipient: &Recipient) -> (out: String)
        ensures
            out@ == render(self.subject@, recipient@.args),
    {
        self.render_text(self.subject.as_str(), recipient)
    }

    /// The body of this template, rendered for `recipient`.
    pub fn render_body(&self, recipient: &Recipient) -> (out: String)
        ensures
            out@ == render(self.body@, recipient@.args),
    {
        self.render_text(self.body.as_str(), recipient)
    }

    /// The keys of the placeholders in the subject and the body: every
    /// non-empty `{...}` span once, in first-seen order.
    pub fn extract_placeholders(&self) -> (keys: Vec<String>)
        ensures
            texts(keys@) == placeholders(self.subject@, self.body@),
    {
        extract(self.subject.as_str(), self.body.as_str())
    }
}

} // verus!
