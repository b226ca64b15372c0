use std::sync::Arc;

use dmailfi_smtpd::address::recipient_domain;
use dmailfi_smtpd::cache::Cache;
use dmailfi_smtpd::mailer::{choose_exchanger, plan_relay, MailerMessage};
use dmailfi_smtpd::router::{on_registry_reply, plan_recipient, registry_reply, Delivery, RegistryReply, RoutePlan};
use dmailfi_smtpd::smtp::SmtpMail;

fn sample_mail() -> Arc<SmtpMail> {
    Arc::new(SmtpMail {
        from: "a@x.com".to_string(),
        rcpt: vec!["b@y.com".to_string(), "c@z.com".to_string()],
        message_body: "Subject: Hi\n".to_string(),
    })
}

#[test]
fn cache_set_get_remove() {
    let mut cache = Cache::new();
    let key = "y.com".to_string();
    assert_eq!(cache.get(&key), None);
    cache.set(key.clone(), "aaaaa-aa".to_string());
    assert_eq!(cache.get(&key).as_deref(), Some("aaaaa-aa"));
    cache.set(key.clone(), "bbbbb-bb".to_string());
    assert_eq!(cache.get(&key).as_deref(), Some("bbbbb-bb"));
    cache.set("z.com".to_string(), "ccccc-cc".to_string());
    cache.remove(&key);
    assert_eq!(cache.get(&key), None);
    assert_eq!(cache.get(&"z.com".to_string()).as_deref(), Some("ccccc-cc"));
}

#[test]
fn domain_is_lower_cased() {
    assert_eq!(recipient_domain("b@Example.COM").as_deref(), Some("example.com"));
    assert_eq!(recipient_domain("not an address"), None);
}

#[test]
fn invalid_recipient_is_skipped() {
    let cache = Cache::new();
    assert!(matches!(plan_recipient(&cache, "no-at-sign"), RoutePlan::Skip));
}

#[test]
fn cache_miss_asks_the_registry() {
    let cache = Cache::new();
    match plan_recipient(&cache, "b@Y.com") {
        RoutePlan::Lookup { domain } => assert_eq!(domain, "y.com"),
        _ => panic!("expected a lookup"),
    }
}

#[test]
fn resolution_is_cached() {
    let mut cache = Cache::new();
    let mail = sample_mail();
    let d = on_registry_reply(
        &mut cache,
        "y.com".to_string(),
        RegistryReply::Resolved("aaaaa-aa".to_string()),
        "b@y.com".to_string(),
        mail,
    );
    match d {
        Delivery::Submit { destination } => assert_eq!(destination, "aaaaa-aa"),
        _ => panic!("expected a submission"),
    }
    match plan_recipient(&cache, "other@y.com") {
        RoutePlan::Dispatch { domain, destination } => {
            assert_eq!(domain, "y.com");
            assert_eq!(destination, "aaaaa-aa");
        }
        _ => panic!("expected a dispatch from the cache"),
    }
}

#[test]
fn no_mapping_falls_back_to_relay() {
    let mut cache = Cache::new();
    let mail = sample_mail();
    let d = on_registry_reply(
        &mut cache,
        "y.com".to_string(),
        RegistryReply::NoMapping,
        "b@y.com".to_string(),
        mail.clone(),
    );
    match d {
        Delivery::Relay(MailerMessage::OutgoingMail { field1, field2 }) => {
            assert_eq!(field1, "b@y.com");
            assert!(Arc::ptr_eq(&field2, &mail));
            assert_eq!(field2.rcpt, vec!["b@y.com".to_string(), "c@z.com".to_string()]);
            assert_eq!(field2.message_body, "Subject: Hi\n");
        }
        _ => panic!("expected a relay request"),
    }
    assert_eq!(cache.get(&"y.com".to_string()), None);
}

#[test]
fn failed_lookup_is_abandoned() {
    let mut cache = Cache::new();
    let d = on_registry_reply(
        &mut cache,
        "y.com".to_string(),
        RegistryReply::Failed,
        "b@y.com".to_string(),
        sample_mail(),
    );
    assert!(matches!(d, Delivery::Abandon));
    assert_eq!(cache.get(&"y.com".to_string()), None);
}

#[test]
fn registry_answers_are_decoded() {
    assert!(matches!(registry_reply(None), RegistryReply::Failed));
    let found = candid::encode_one(Ok::<String, ()>("aaaaa-aa".to_string())).unwrap();
    match registry_reply(Some(found)) {
        RegistryReply::Resolved(p) => assert_eq!(p, "aaaaa-aa"),
        _ => panic!("expected a destination"),
    }
    let missing = candid::encode_one(Err::<String, ()>(())).unwrap();
    assert!(matches!(registry_reply(Some(missing)), RegistryReply::NoMapping));
    assert!(matches!(registry_reply(Some(vec![1, 2, 3])), RegistryReply::Failed));
}

#[test]
fn malformed_destination_is_a_failed_lookup() {
    let bad = candid::encode_one(Ok::<String, ()>("not a principal".to_string())).unwrap();
    assert!(matches!(registry_reply(Some(bad)), RegistryReply::Failed));
}

#[test]
fn relay_job_carries_the_whole_mail() {
    let msg = MailerMessage::OutgoingMail { field1: "b@y.com".to_string(), field2: sample_mail() };
    let job = plan_relay(&msg).expect("a job");
    assert_eq!(job.domain, "y.com");
    assert_eq!(job.from, "a@x.com");
    assert_eq!(job.to, vec!["b@y.com".to_string(), "c@z.com".to_string()]);
    assert_eq!(job.body, "Subject: Hi\n");
}

#[test]
fn relay_skips_invalid_recipient() {
    let msg = MailerMessage::OutgoingMail { field1: "nope".to_string(), field2: sample_mail() };
    assert!(plan_relay(&msg).is_none());
}

#[test]
fn relay_skips_mail_without_an_envelope() {
    let no_sender = Arc::new(SmtpMail {
        from: "".to_string(),
        rcpt: vec!["b@y.com".to_string()],
        message_body: "x\n".to_string(),
    });
    let msg = MailerMessage::OutgoingMail { field1: "b@y.com".to_string(), field2: no_sender };
    assert!(plan_relay(&msg).is_none());
    let no_rcpt = Arc::new(SmtpMail { from: "a@x.com".to_string(), rcpt: vec![], message_body: "x\n".to_string() });
    let msg = MailerMessage::OutgoingMail { field1: "b@y.com".to_string(), field2: no_rcpt };
    assert!(plan_relay(&msg).is_none());
}

#[test]
fn first_exchanger_is_chosen() {
    assert_eq!(choose_exchanger(&vec![]), None);
    let hosts = vec!["mx1.y.com.".to_string(), "mx2.y.com.".to_string()];
    assert_eq!(choose_exchanger(&hosts).as_deref(), Some("mx1.y.com."));
}
