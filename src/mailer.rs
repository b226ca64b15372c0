//! Decisions of the outbound relay: which mails it takes on, and where it
//! sends them.
use crate::address::{address_domain, address_ok, parse_domain};
use crate::smtp::{MailView, SmtpMail};
use std::sync::Arc;
use vstd::prelude::*;

verus! {

/// A request to the outbound relay.
pub enum MailerMessage {
    /// A mail for `field1` whose domain has no destination on the ledger.
    OutgoingMail { field1: String, field2: Arc<SmtpMail> },
}

/// What the relay hands to an SMTP transport: the domain whose mail
/// exchanger it looks up, and the envelope and raw message.
pub struct RelayJob {
    pub domain: String,
    pub from: String,
    pub to: Vec<String>,
    pub body: String,
}

/// The name for whether lettre's `Address::from_str` accepts the text.
pub uninterp spec fn smtp_address_ok(s: Seq<char>) -> bool;

/// Relies on `lettre::Address::from_str`, whose verdict depends on the text
/// alone.
#[verifier::external_body]
fn smtp_address(s: &str) -> (r: bool)
    ensures
        r == smtp_address_ok(s@),
{
    s.parse::<lettre::Address>().is_ok()
}

/// An SMTP envelope can be built for the mail: its sender and each of its
/// recipients are addresses that lettre accepts, and it has a recipient.
pub open spec fn envelope_ok(mail: MailView) -> bool {
    &&& smtp_address_ok(mail.from)
    &&& mail.rcpt.len() > 0
    &&& forall|i: int| 0 <= i < mail.rcpt.len() ==> smtp_address_ok(#[trigger] mail.rcpt[i])
}

fn envelope_check(mail: &SmtpMail) -> (r: bool)
    ensures
        r == envelope_ok(mail@),
{
    if !smtp_address(mail.from.as_str()) || mail.rcpt.len() == 0 {
        return false;
    }
    let mut i: usize = 0;
    while i < mail.rcpt.len()
        invariant
            i <= mail.rcpt@.len(),
            forall|j: int| 0 <= j < i ==> smtp_address_ok(#[trigger] mail@.rcpt[j]),
        decreases mail.rcpt.len() - i,
    {
        if !smtp_address(mail.rcpt[i].as_str()) {
            assert(mail@.rcpt[i as int] == mail.rcpt@[i as int]@);
            return false;
        }
        assert(mail@.rcpt[i as int] == mail.rcpt@[i as int]@);
        i = i + 1;
    }
    true
}

/// The relay job for a request whose recipient is a valid address and whose
/// mail an envelope can carry: the recipient's domain, and the mail's sender,
/// full recipient list and body.
pub open spec fn relay_job_of(recipient: Seq<char>, mail: MailView) -> Option<
    (Seq<char>, MailView),
> {
    if address_ok(recipient) && envelope_ok(mail) {
        Some((address_domain(recipient), mail))
    } else {
        None
    }
}

pub open spec fn job_view(j: RelayJob) -> (Seq<char>, MailView) {
    (j.domain@, MailView { from: j.from@, rcpt: crate::smtp::strings_view(j.to@), body: j.body@ })
}

/// Turns a relay request into a job, or `None` when its recipient is not a
/// valid address or no envelope can carry the mail.
pub fn plan_relay(msg: &MailerMessage) -> (r: Option<RelayJob>)
    ensures
        (match msg {
            MailerMessage::OutgoingMail { field1, field2 } => match r {
                Some(j) => relay_job_of(field1@, (**field2)@) == Some(job_view(j)),
                None => relay_job_of(field1@, (**field2)@) is None,
            },
        }),
{
    match msg {
        MailerMessage::OutgoingMail { field1, field2 } => {
            let mail: &SmtpMail = &**field2;
            if !envelope_check(mail) {
                return None;
            }
            match parse_domain(field1.as_str()) {
                Some(domain) => {
                    let to = mail.rcpt.clone();
                    assert(to@ =~= mail.rcpt@);
                    Some(RelayJob { domain, from: mail.from.clone(), to, body: mail.message_body.clone() })
                },
                None => None,
            }
        },
    }
}

/// The exchanger the relay connects to: the first of those the lookup
/// returned, or `None` when there is none.
pub fn choose_exchanger(exchangers: &Vec<String>) -> (r: Option<String>)
    ensures
        exchangers@.len() == 0 <==> r is None,
        r matches Some(h) ==> h@ == exchangers@[0]@,
{
    if exchangers.len() == 0 {
        None
    } else {
        Some(exchangers[0].clone())
    }
}

} // verus!
