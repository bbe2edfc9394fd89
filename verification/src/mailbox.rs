//! The mailbox: the messages that were fetched, in the order in which they
//! came, and a cursor on the one that is selected.

use crate::gmail_api::{email_views, Email, EmailView, Target, UnsubscribeTarget};
use vstd::prelude::*;
use vstd::string::*;

verus! {

/// A mailbox as a mathematical value.
pub struct Mailbox {
    pub messages: Seq<EmailView>,
    pub selected: int,
}

impl Mailbox {
    /// The cursor stands on a message, or on 0 where there is none.
    pub open spec fn valid(self) -> bool {
        if self.messages.len() == 0 {
            self.selected == 0
        } else {
            0 <= self.selected < self.messages.len()
        }
    }

    /// The mailbox that holds `messages`, with the first one selected.
    pub open spec fn holding(messages: Seq<EmailView>) -> Mailbox {
        Mailbox { messages, selected: 0 }
    }

    /// The selected message, if there is one.
    pub open spec fn current(self) -> Option<EmailView> {
        if 0 <= self.selected < self.messages.len() {
            Some(self.messages[self.selected])
        } else {
            None
        }
    }

    /// The cursor moved one message up, unless it is on the first.
    pub open spec fn previous(self) -> Mailbox {
        Mailbox { selected: if self.selected > 0 { self.selected - 1 } else { self.selected }, ..self }
    }

    /// The cursor moved one message down, unless it is on the last.
    pub open spec fn next(self) -> Mailbox {
        Mailbox {
            selected: if self.selected + 1 < self.messages.len() {
                self.selected + 1
            } else {
                self.selected
            },
            ..self
        }
    }

    /// The mailbox without the selected message. The cursor stays where it
    /// is, unless it was on the last message: then it moves to the new last
    /// one, or to 0 where none is left.
    pub open spec fn without_selected(self) -> Mailbox {
        if 0 <= self.selected < self.messages.len() {
            let rest = self.messages.remove(self.selected);
            Mailbox {
                messages: rest,
                selected: if self.selected < rest.len() {
                    self.selected
                } else if rest.len() > 0 {
                    rest.len() - 1
                } else {
                    0
                },
            }
        } else {
            self
        }
    }

    /// The mailbox after the mail service answered a request to mark the
    /// selected message as read: without that message where the service
    /// succeeded, unchanged where it failed.
    pub open spec fn marked_as_read(self, succeeded: bool) -> Mailbox {
        if succeeded {
            self.without_selected()
        } else {
            self
        }
    }

    /// What unsubscribing from the selected message takes.
    pub open spec fn unsubscribe(self) -> UnsubscribeView {
        match self.current() {
            Some(email) => match email.unsubscribe_link {
                Some(Target::HttpLink(url)) => UnsubscribeView::Open(url),
                Some(Target::MailtoLink(address)) => UnsubscribeView::Report(
                    "This email uses a mailto link for unsubscribing. Please send an email to "@
                        + address,
                ),
                Some(Target::Unsupported(raw)) => UnsubscribeView::Report(
                    "Unsupported unsubscribe method: "@ + raw,
                ),
                None => UnsubscribeView::Report("No unsubscribe link found for this email."@),
            },
            None => UnsubscribeView::Report("No email selected."@),
        }
    }
}

/// What unsubscribing from a message takes.
#[derive(Debug, PartialEq, Eq)]
pub enum Unsubscribe {
    /// This link is to be opened, outside the mailbox.
    Open(String),
    /// Nothing is to be done but to tell the user this.
    Report(String),
}

/// An unsubscribe step as a mathematical value.
pub enum UnsubscribeView {
    Open(Seq<char>),
    Report(Seq<char>),
}

impl View for Unsubscribe {
    type V = UnsubscribeView;

    open spec fn view(&self) -> UnsubscribeView {
        match self {
            Unsubscribe::Open(url) => UnsubscribeView::Open(url@),
            Unsubscribe::Report(message) => UnsubscribeView::Report(message@),
        }
    }
}

/// After a mailbox was filled, its first message is selected.
pub proof fn lemma_holding_selects_first(messages: Seq<EmailView>)
    ensures
        Mailbox::holding(messages).valid(),
        Mailbox::holding(messages).selected == 0,
        Mailbox::holding(messages).messages == messages,
{
}

/// Moving the cursor never takes it off the messages.
pub proof fn lemma_moves_stay_inside(mailbox: Mailbox)
    requires
        mailbox.valid(),
    ensures
        mailbox.previous().valid(),
        mailbox.next().valid(),
        mailbox.previous().messages == mailbox.messages,
        mailbox.next().messages == mailbox.messages,
{
}

/// Removing the selected message leaves a valid mailbox that is one message
/// shorter. Where the last of `n` messages was selected, the cursor is then
/// on `n - 2`, or on 0 where that message was the only one.
pub proof fn lemma_removal_clamps(mailbox: Mailbox)
    requires
        mailbox.valid(),
        mailbox.messages.len() > 0,
    ensures
        mailbox.without_selected().valid(),
        mailbox.without_selected().messages.len() == mailbox.messages.len() - 1,
        mailbox.selected == mailbox.messages.len() - 1 && mailbox.messages.len() > 1
            ==> mailbox.without_selected().selected == mailbox.messages.len() - 2,
        mailbox.messages.len() == 1 ==> mailbox.without_selected().selected == 0,
        mailbox.selected < mailbox.messages.len() - 1 ==> mailbox.without_selected().selected
            == mailbox.selected,
{
}

/// The messages of a client, with the cursor on one of them.
pub struct App {
    emails: Vec<Email>,
    current_index: usize,
}

impl View for App {
    type V = Mailbox;

    closed spec fn view(&self) -> Mailbox {
        Mailbox { messages: email_views(self.emails@), selected: self.current_index as int }
    }
}

impl App {
    /// The cursor of a mailbox is always on one of its messages, or on 0
    /// where it has none.
    #[verifier::type_invariant]
    pub open spec fn cursor_is_inside(&self) -> bool {
        self@.valid()
    }

    /// A mailbox that holds `emails`, with the first one selected.
    pub fn new(emails: Vec<Email>) -> (app: Self)
        ensures
            app@ == Mailbox::holding(email_views(emails@)),
            app@.valid(),
    {
        App { emails, current_index: 0 }
    }

    /// Replaces all messages by `emails` and selects the first of them.
    pub fn replace_all(&mut self, emails: Vec<Email>)
        ensures
            final(self)@ == Mailbox::holding(email_views(emails@)),
            final(self)@.valid(),
    {
        self.current_index = 0;
        self.emails = emails;
    }

    /// The messages, in the order in which they were fetched.
    pub fn emails(&self) -> (r: &Vec<Email>)
        ensures
            email_views(r@) == self@.messages,
            self@.valid(),
    {
        proof {
            use_type_invariant(self);
        }
        &self.emails
    }

    /// The position of the cursor.
    pub fn current_index(&self) -> (r: usize)
        ensures
            r == self@.selected,
            self@.valid(),
    {
        proof {
            use_type_invariant(self);
        }
        self.current_index
    }

    /// The selected message, if there is one.
    pub fn current(&self) -> (r: Option<&Email>)
        ensures
            match r {
                Some(email) => self@.current() == Some(email@),
                None => self@.current() is None,
            },
            self@.valid(),
    {
        proof {
            use_type_invariant(self);
        }
        if self.current_index < self.emails.len() {
            Some(&self.emails[self.current_index])
        } else {
            None
        }
    }

    /// Moves the cursor one message up. On the first message, and in an
    /// empty mailbox, nothing changes.
    pub fn select_previous(&mut self)
        ensures
            final(self)@ == old(self)@.previous(),
            final(self)@.valid(),
    {
        proof {
            use_type_invariant(&*self);
        }
        if self.current_index > 0 {
            self.current_index -= 1;
        }
    }

    /// Moves the cursor one message down. On the last message, and in an
    /// empty mailbox, nothing changes.
    pub fn select_next(&mut self)
        ensures
            final(self)@ == old(self)@.next(),
            final(self)@.valid(),
    {
        proof {
            use_type_invariant(&*self);
        }
        if self.emails.len() > 0 && self.current_index < self.emails.len() - 1 {
            self.current_index += 1;
        }
    }

    /// Removes the selected message. Where the cursor would then stand past
    /// the end, it moves to the last message, or to 0 in an empty mailbox.
    pub fn remove_selected(&mut self)
        ensures
            final(self)@ == old(self)@.without_selected(),
            final(self)@.valid(),
    {
        proof {
            use_type_invariant(&*self);
        }
        let n: usize = self.emails.len();
        let i: usize = self.current_index;
        if i < n {
            let mut emails: Vec<Email> = Vec::new();
            self.current_index = 0;
            std::mem::swap(&mut emails, &mut self.emails);
            let ghost before = emails@;
            emails.remove(i);
            assert(email_views(emails@) =~= email_views(before).remove(i as int));
            self.emails = emails;
            self.current_index = if i + 1 == n && i > 0 {
                i - 1
            } else {
                i
            };
        }
    }

    /// Applies the answer of the mail service to a request to mark the
    /// selected message as read. On success the message leaves the mailbox;
    /// on failure nothing changes and the error is handed on.
    pub fn mark_as_read(&mut self, outcome: Result<(), String>) -> (r: Result<(), String>)
        ensures
            match outcome {
                Ok(_) => r is Ok,
                Err(e) => r == Err::<(), String>(e),
            },
            final(self)@ == old(self)@.marked_as_read(outcome is Ok),
            final(self)@.valid(),
    {
        proof {
            use_type_invariant(&*self);
        }
        match outcome {
            Ok(()) => {
                self.remove_selected();
                Ok(())
            },
            Err(e) => Err(e),
        }
    }

    /// What unsubscribing from the selected message takes: a link to open,
    /// or a message that says why there is nothing to open.
    pub fn unsubscribe(&self) -> (r: Unsubscribe)
        ensures
            r@ == self@.unsubscribe(),
            self@.valid(),
    {
        match self.current() {
            Some(email) => match &email.unsubscribe_link {
                Some(UnsubscribeTarget::HttpLink(url)) => Unsubscribe::Open(url.clone()),
                Some(UnsubscribeTarget::MailtoLink(address)) => Unsubscribe::Report(
                    String::from_str(
                        "This email uses a mailto link for unsubscribing. Please send an email to ",
                    ).concat(address.as_str()),
                ),
                Some(UnsubscribeTarget::Unsupported(raw)) => Unsubscribe::Report(
                    String::from_str("Unsupported unsubscribe method: ").concat(raw.as_str()),
                ),
                None => Unsubscribe::Report(
                    String::from_str("No unsubscribe link found for this email."),
                ),
            },
            None => Unsubscribe::Report(String::from_str("No email selected.")),
        }
    }
}

} // verus!
