//! From a draft to a message that the mail library can send.

use vstd::prelude::*;
use crate::error::NotificationError;
use crate::mail::body::{order_body, order_body_text, registration_body, registration_body_text};
use crate::order::OrderDetails;

verus! {

/// The mailbox that the shop's messages come from.
pub const SENDER: &'static str = "Tyutyun Shop <tyutyun-shop@yacode.dev>";

/// The subject of the activation message.
pub const REGISTRATION_SUBJECT: &'static str = "Активація аккаунта - Tyutyun Shop";

/// The subject of the order message.
pub const ORDER_SUBJECT: &'static str = "Деталі нового замовлення - Tyutyun Shop";

/// How the report of a sent activation message begins.
pub const REGISTRATION_SENT: &'static str = "Activation email sent successfully to ";

/// How the report of a sent order message begins.
pub const ORDER_SENT: &'static str = "Order confirmation email sent successfully to ";

/// Makes `lettre::message::Mailbox` known: an address with an optional
/// display name. Nothing is said of what a mailbox holds.
#[verifier::external_type_specification]
#[verifier::external_body]
pub struct ExMailbox(lettre::message::Mailbox);

/// Makes `lettre::Message` known: a message that a transport can send.
/// Nothing is said of what a message holds.
#[verifier::external_type_specification]
#[verifier::external_body]
pub struct ExMessage(lettre::Message);

/// Makes `lettre::address::AddressError` known: why a text is no mailbox.
#[verifier::external_type_specification]
#[verifier::external_body]
pub struct ExAddressError(lettre::address::AddressError);

/// Makes `lettre::error::Error` known: why the builder refused a message.
#[verifier::external_type_specification]
#[verifier::external_body]
pub struct ExMessageError(lettre::error::Error);

/// Whether the mail library reads a text as a mailbox: an address, with or
/// without a display name in front. The library's parser decides; this
/// crate does not say which texts those are.
pub uninterp spec fn mailbox_accepted(text: Seq<char>) -> bool;

/// Calls `from_str` of `lettre::message::Mailbox`. Believed, not proved:
/// whether a mailbox comes back depends on the characters of the text alone.
#[verifier::external_body]
fn parse_mailbox(text: &str) -> (r: Result<lettre::message::Mailbox, lettre::address::AddressError>)
    ensures
        r.is_ok() == mailbox_accepted(text@),
{
    <lettre::message::Mailbox as std::str::FromStr>::from_str(text)
}

/// Calls `lettre::Message::builder` and the builder's `from`, `to`, `subject`
/// and `singlepart`, the last with what `lettre::message::SinglePart::html`
/// makes of the body. Nothing is claimed of what comes back: the builder may
/// refuse, and the message carries the time at which it was built.
#[verifier::external_body]
fn build_html_message(
    from: lettre::message::Mailbox,
    to: lettre::message::Mailbox,
    subject: &str,
    html: String,
) -> (r: Result<lettre::Message, lettre::error::Error>) {
    lettre::Message::builder()
        .from(from)
        .to(to)
        .subject(subject)
        .singlepart(lettre::message::SinglePart::html(html))
}

/// What is done with what the builder gave: a message is passed on, and a
/// refusal is reported as such.
pub fn built_or_refused(built: Result<lettre::Message, lettre::error::Error>) -> (r: Result<
    lettre::Message,
    NotificationError,
>)
    ensures
        match built {
            Ok(message) => r == Ok::<lettre::Message, NotificationError>(message),
            Err(_) => r == Err::<lettre::Message, NotificationError>(NotificationError::Message),
        },
{
    match built {
        Ok(message) => Ok(message),
        Err(_) => Err(NotificationError::Message),
    }
}

/// What is done with what the parser gave for the sender and for the
/// recipient: two mailboxes are passed on, and a text that is no mailbox is
/// reported as such.
pub fn both_or_refused(
    from: Result<lettre::message::Mailbox, lettre::address::AddressError>,
    to: Result<lettre::message::Mailbox, lettre::address::AddressError>,
) -> (r: Result<(lettre::message::Mailbox, lettre::message::Mailbox), NotificationError>)
    ensures
        match (from, to) {
            (Ok(sender), Ok(recipient)) => r == Ok::<
                (lettre::message::Mailbox, lettre::message::Mailbox),
                NotificationError,
            >((sender, recipient)),
            _ => r == Err::<
                (lettre::message::Mailbox, lettre::message::Mailbox),
                NotificationError,
            >(NotificationError::Address),
        },
{
    match (from, to) {
        (Ok(sender), Ok(recipient)) => Ok((sender, recipient)),
        _ => Err(NotificationError::Address),
    }
}

/// A message before the mail library has seen it: who sends it, who gets
/// it, its subject and its body of HTML.
#[derive(Debug, PartialEq, Eq)]
pub struct MailDraft {
    pub sender: String,
    pub recipient: String,
    pub subject: String,
    pub html: String,
}

/// The activation message for the account of `to_email`, as a draft.
pub fn registration_draft(to_email: &str, active_link: &str) -> (r: MailDraft)
    ensures
        r.sender@ == SENDER@,
        r.recipient@ == to_email@,
        r.subject@ == REGISTRATION_SUBJECT@,
        r.html@ == registration_body_text(active_link@),
{
    MailDraft {
        sender: SENDER.to_owned(),
        recipient: to_email.to_owned(),
        subject: REGISTRATION_SUBJECT.to_owned(),
        html: registration_body(active_link),
    }
}

/// The message that tells the customer of a new order, as a draft. It goes
/// to the mail address of the shipping contact.
pub fn new_order_draft(details: &OrderDetails) -> (r: MailDraft)
    ensures
        r.sender@ == SENDER@,
        r.recipient@ == details.shipping.email@,
        r.subject@ == ORDER_SUBJECT@,
        r.html@ == order_body_text(details@),
{
    MailDraft {
        sender: SENDER.to_owned(),
        recipient: details.shipping.email.clone(),
        subject: ORDER_SUBJECT.to_owned(),
        html: order_body(details),
    }
}

/// Makes a message of a draft. When the mail library does not accept the
/// sender's mailbox or the recipient's, the refusal is `Address`; after that
/// only the library's builder can refuse, and its refusal is `Message`.
pub fn compose(draft: MailDraft) -> (r: Result<lettre::Message, NotificationError>)
    ensures
        !(mailbox_accepted(draft.sender@) && mailbox_accepted(draft.recipient@)) ==> r == Err::<
            lettre::Message,
            NotificationError,
        >(NotificationError::Address),
        mailbox_accepted(draft.sender@) && mailbox_accepted(draft.recipient@) ==> r is Ok || r
            == Err::<lettre::Message, NotificationError>(NotificationError::Message),
{
    let from = parse_mailbox(draft.sender.as_str());
    let to = parse_mailbox(draft.recipient.as_str());
    match both_or_refused(from, to) {
        Ok((from, to)) => built_or_refused(
            build_html_message(from, to, draft.subject.as_str(), draft.html),
        ),
        Err(e) => Err(e),
    }
}

/// The activation message for the account of `to_email`, ready to be sent.
pub fn registration_mail(to_email: &str, active_link: &str) -> (r: Result<
    lettre::Message,
    NotificationError,
>)
    ensures
        !(mailbox_accepted(SENDER@) && mailbox_accepted(to_email@)) ==> r == Err::<
            lettre::Message,
            NotificationError,
        >(NotificationError::Address),
        mailbox_accepted(SENDER@) && mailbox_accepted(to_email@) ==> r is Ok || r == Err::<
            lettre::Message,
            NotificationError,
        >(NotificationError::Message),
{
    compose(registration_draft(to_email, active_link))
}

/// The message that tells the customer of a new order, ready to be sent.
pub fn new_order_mail(details: &OrderDetails) -> (r: Result<lettre::Message, NotificationError>)
    ensures
        !(mailbox_accepted(SENDER@) && mailbox_accepted(details.shipping.email@)) ==> r == Err::<
            lettre::Message,
            NotificationError,
        >(NotificationError::Address),
        mailbox_accepted(SENDER@) && mailbox_accepted(details.shipping.email@) ==> r is Ok || r
            == Err::<lettre::Message, NotificationError>(NotificationError::Message),
{
    compose(new_order_draft(details))
}

/// The report of a sent activation message.
pub fn registration_receipt(to_email: &str) -> (r: String)
    ensures
        r@ == REGISTRATION_SENT@ + to_email@,
{
    let mut out = String::new();
    out.append(REGISTRATION_SENT);
    out.append(to_email);
    proof {
        assert(out@ =~= REGISTRATION_SENT@ + to_email@);
    }
    out
}

/// The report of a sent order message.
pub fn new_order_receipt(email: &str) -> (r: String)
    ensures
        r@ == ORDER_SENT@ + email@,
{
    let mut out = String::new();
    out.append(ORDER_SENT);
    out.append(email);
    proof {
        assert(out@ =~= ORDER_SENT@ + email@);
    }
    out
}

} // verus!
