//! Decisions of the mail router: for each recipient, deliver to a cached
//! destination, ask the registry, or hand the mail to the outbound relay.
use crate::address::{address_ok, domain_key, recipient_domain};
use crate::cache::Cache;
use crate::mailer::MailerMessage;
use crate::smtp::{MailView, SmtpMail};
use std::sync::Arc;
use vstd::prelude::*;

verus! {

/// What to do for one recipient before any remote call.
pub enum RoutePlan {
    /// The recipient is not a valid address: nothing is delivered.
    Skip,
    /// The cache knows the destination of the recipient's domain.
    Dispatch { domain: String, destination: String },
    /// The registry must be asked for the domain.
    Lookup { domain: String },
}

/// Mathematical form of a plan.
pub enum PlanView {
    Skip,
    Dispatch(Seq<char>, Seq<char>),
    Lookup(Seq<char>),
}

impl View for RoutePlan {
    type V = PlanView;

    open spec fn view(&self) -> PlanView {
        match self {
            RoutePlan::Skip => PlanView::Skip,
            RoutePlan::Dispatch { domain, destination } => PlanView::Dispatch(
                domain@,
                destination@,
            ),
            RoutePlan::Lookup { domain } => PlanView::Lookup(domain@),
        }
    }
}

/// The plan for `recipient` against the cache contents `m`.
pub open spec fn route_plan(m: Map<Seq<char>, Seq<char>>, recipient: Seq<char>) -> PlanView {
    if !address_ok(recipient) {
        PlanView::Skip
    } else if m.contains_key(domain_key(recipient)) {
        PlanView::Dispatch(domain_key(recipient), m[domain_key(recipient)])
    } else {
        PlanView::Lookup(domain_key(recipient))
    }
}

/// Plans the delivery to one recipient from the cache.
pub fn plan_recipient(cache: &Cache, recipient: &str) -> (r: RoutePlan)
    ensures
        r@ == route_plan(cache@, recipient@),
{
    match recipient_domain(recipient) {
        None => RoutePlan::Skip,
        Some(domain) => match cache.get(&domain) {
            Some(destination) => RoutePlan::Dispatch { domain, destination },
            None => RoutePlan::Lookup { domain },
        },
    }
}

/// The registry's answer to a lookup of a domain.
pub enum RegistryReply {
    /// The domain is served by this destination.
    Resolved(String),
    /// The registry has no destination for the domain.
    NoMapping,
    /// The call failed or its answer could not be read.
    Failed,
}

/// Mathematical form of a registry answer.
pub enum ReplyView {
    Resolved(Seq<char>),
    NoMapping,
    Failed,
}

impl View for RegistryReply {
    type V = ReplyView;

    open spec fn view(&self) -> ReplyView {
        match self {
            RegistryReply::Resolved(p) => ReplyView::Resolved(p@),
            RegistryReply::NoMapping => ReplyView::NoMapping,
            RegistryReply::Failed => ReplyView::Failed,
        }
    }
}

/// The name for what `candid::decode_one::<Result<String, ()>>` reads from
/// the bytes: `None` when they do not decode, else the decoded result with
/// `None` for `Err(())`.
pub uninterp spec fn lookup_answer(b: Seq<u8>) -> Option<Option<Seq<char>>>;

/// Relies on `candid::decode_one` for the type `Result<String, ()>`, whose
/// outcome depends on the bytes alone.
#[verifier::external_body]
fn decode_lookup(bytes: &[u8]) -> (r: Option<Option<String>>)
    ensures
        lookup_answer(bytes@) == (match r {
            Some(Some(s)) => Some(Some(s@)),
            Some(None) => Some(None),
            None => None,
        }),
{
    match candid::decode_one::<Result<String, ()>>(bytes) {
        Ok(Ok(s)) => Some(Some(s)),
        Ok(Err(())) => Some(None),
        Err(_) => None,
    }
}

/// The name for whether `Principal::from_text` accepts the text.
pub uninterp spec fn principal_ok(s: Seq<char>) -> bool;

/// Relies on `candid::Principal::from_text`, whose verdict depends on the
/// text alone.
#[verifier::external_body]
fn principal_text(s: &str) -> (r: bool)
    ensures
        r == principal_ok(s@),
{
    candid::Principal::from_text(s).is_ok()
}

/// The registry answer that an encoded lookup result stands for; a
/// destination that is not principal text counts as a failed lookup.
pub open spec fn reply_of_answer(b: Option<Seq<u8>>) -> ReplyView {
    match b {
        None => ReplyView::Failed,
        Some(bytes) => match lookup_answer(bytes) {
            None => ReplyView::Failed,
            Some(None) => ReplyView::NoMapping,
            Some(Some(p)) => if principal_ok(p) {
                ReplyView::Resolved(p)
            } else {
                ReplyView::Failed
            },
        },
    }
}

/// Reads the registry's answer: `answer` is `None` when the query call
/// failed, else the encoded result it returned.
pub fn registry_reply(answer: Option<Vec<u8>>) -> (r: RegistryReply)
    ensures
        r@ == reply_of_answer(
            match answer {
                Some(b) => Some(b@),
                None => None,
            },
        ),
{
    match answer {
        None => RegistryReply::Failed,
        Some(bytes) => match decode_lookup(bytes.as_slice()) {
            None => RegistryReply::Failed,
            Some(None) => RegistryReply::NoMapping,
            Some(Some(p)) => if principal_text(p.as_str()) {
                RegistryReply::Resolved(p)
            } else {
                RegistryReply::Failed
            },
        },
    }
}

/// What to do for one recipient once the registry has answered.
pub enum Delivery {
    /// Submit the mail to this destination.
    Submit { destination: String },
    /// Hand this request to the outbound relay.
    Relay(MailerMessage),
    /// Give up on the recipient.
    Abandon,
}

/// Mathematical form of a delivery.
pub enum DeliveryView {
    Submit(Seq<char>),
    Relay(Seq<char>, MailView),
    Abandon,
}

impl View for Delivery {
    type V = DeliveryView;

    open spec fn view(&self) -> DeliveryView {
        match self {
            Delivery::Submit { destination } => DeliveryView::Submit(destination@),
            Delivery::Relay(MailerMessage::OutgoingMail { field1, field2 }) => DeliveryView::Relay(
                field1@,
                (**field2)@,
            ),
            Delivery::Abandon => DeliveryView::Abandon,
        }
    }
}

/// The delivery for a recipient whose domain got `reply` from the registry.
pub open spec fn delivery_of(reply: ReplyView, recipient: Seq<char>, mail: MailView) -> DeliveryView {
    match reply {
        ReplyView::Resolved(p) => DeliveryView::Submit(p),
        ReplyView::NoMapping => DeliveryView::Relay(recipient, mail),
        ReplyView::Failed => DeliveryView::Abandon,
    }
}

/// The cache contents after the registry answered `reply` for `domain`: only
/// a resolved destination is written.
pub open spec fn cache_after(m: Map<Seq<char>, Seq<char>>, domain: Seq<char>, reply: ReplyView) -> Map<
    Seq<char>,
    Seq<char>,
> {
    match reply {
        ReplyView::Resolved(p) => m.insert(domain, p),
        _ => m,
    }
}

/// Acts on the registry's answer for `domain`, asked on behalf of
/// `recipient` of `mail`: records a resolved destination in the cache and
/// says where the mail goes.
pub fn on_registry_reply(
    cache: &mut Cache,
    domain: String,
    reply: RegistryReply,
    recipient: String,
    mail: Arc<SmtpMail>,
) -> (r: Delivery)
    ensures
        final(cache)@ == cache_after(old(cache)@, domain@, reply@),
        r@ == delivery_of(reply@, recipient@, (*mail)@),
        r matches Delivery::Relay(MailerMessage::OutgoingMail { field1, field2 }) ==> field1
            == recipient && field2 == mail,
{
    match reply {
        RegistryReply::Resolved(p) => {
            let destination = p.clone();
            cache.set(domain, p);
            Delivery::Submit { destination }
        },
        RegistryReply::NoMapping => Delivery::Relay(
            MailerMessage::OutgoingMail { field1: recipient, field2: mail },
        ),
        RegistryReply::Failed => Delivery::Abandon,
    }
}

/// Once the registry resolved a recipient's domain to `p`, the next plan for
/// any recipient of that domain dispatches to `p` without asking the registry.
pub proof fn lemma_resolution_is_cached(
    m: Map<Seq<char>, Seq<char>>,
    first: Seq<char>,
    next: Seq<char>,
    p: Seq<char>,
)
    requires
        address_ok(first),
        address_ok(next),
        domain_key(next) == domain_key(first),
    ensures
        route_plan(cache_after(m, domain_key(first), ReplyView::Resolved(p)), next)
            == PlanView::Dispatch(domain_key(first), p),
{
}

/// A registry answer of "no mapping" hands exactly the recipient and the whole
/// mail to the relay and writes nothing to the cache.
pub proof fn lemma_no_mapping_falls_back(
    m: Map<Seq<char>, Seq<char>>,
    domain: Seq<char>,
    recipient: Seq<char>,
    mail: MailView,
)
    ensures
        cache_after(m, domain, ReplyView::NoMapping) == m,
        delivery_of(ReplyView::NoMapping, recipient, mail) == DeliveryView::Relay(recipient, mail),
{
}

} // verus!
