use dmailfi_smtpd::header::scan_headers;

#[test]
fn header_fields_are_found() {
    let h = scan_headers(
        "Subject: Hi\r\nCc: a@x.com, b@y.com\nBcc:  c@z.com \nContent-Type: text/plain\nSubject: Again\n\nbody",
    );
    assert_eq!(h.subject.as_deref(), Some("Again"));
    assert_eq!(h.content_type.as_deref(), Some("text/plain"));
    assert_eq!(h.cc, Some(vec!["a@x.com".to_string(), "b@y.com".to_string()]));
    assert_eq!(h.bcc, Some(vec!["c@z.com".to_string()]));
}

#[test]
fn crlf_is_not_part_of_a_field() {
    let h = scan_headers("Subject: Hi\r\n");
    assert_eq!(h.subject.as_deref(), Some("Hi"));
}

#[test]
fn no_header_fields() {
    let h = scan_headers("subject: lower case is not a match\nhello");
    assert!(h.subject.is_none());
    assert!(h.content_type.is_none());
    assert!(h.cc.is_none());
    assert!(h.bcc.is_none());
}

#[test]
fn lone_carriage_return_at_the_end_is_kept() {
    let h = scan_headers("Subject: Hi\r");
    assert_eq!(h.subject.as_deref(), Some("Hi\r"));
}

#[test]
fn empty_list_items_are_kept() {
    let h = scan_headers("Cc: a@x.com,,\n\nCc:\nBcc: ");
    assert_eq!(h.cc, Some(vec!["a@x.com".to_string(), "".to_string(), "".to_string()]));
    assert_eq!(h.bcc, Some(vec!["".to_string()]));
}
