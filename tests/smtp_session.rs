use dmailfi_smtpd::smtp::{greeting, SmtpConnection, SmtpMail, SmtpState};

fn send(c: &mut SmtpConnection, line: &str) -> Option<String> {
    let out = c.line_received(line);
    assert!(out.mail.is_none());
    out.reply
}

fn reply(c: &mut SmtpConnection, line: &str) -> String {
    send(c, line).expect("a reply")
}

fn finish(c: &mut SmtpConnection) -> SmtpMail {
    let out = c.line_received(".");
    assert_eq!(out.reply.as_deref(), Some("250 OK\r\n"));
    out.mail.expect("a mail")
}

#[test]
fn ehlo_mail_rcpt_data_scenario() {
    let mut c = SmtpConnection::new();
    assert_eq!(reply(&mut c, "EHLO test"), "250 Hello test\r\n");
    assert_eq!(reply(&mut c, "MAIL FROM:<a@x.com>"), "250 OK\r\n");
    assert_eq!(reply(&mut c, "RCPT TO:<b@y.com>"), "250 OK\r\n");
    assert_eq!(reply(&mut c, "DATA"), "354 End data with <CRLF>.<CRLF>\r\n");
    assert_eq!(send(&mut c, "Subject: Hi"), None);
    let mail = finish(&mut c);
    assert_eq!(mail.from, "a@x.com");
    assert_eq!(mail.rcpt, vec!["b@y.com".to_string()]);
    assert_eq!(mail.message_body, "Subject: Hi\n");
}

#[test]
fn unknown_command_keeps_command_state() {
    let mut c = SmtpConnection::new();
    assert_eq!(reply(&mut c, "FOO"), "500 Error: Unknown command 'FOO'\r\n");
    assert_eq!(c.state(), SmtpState::Command);
}

#[test]
fn unknown_command_is_echoed_in_upper_case() {
    let mut c = SmtpConnection::new();
    assert_eq!(reply(&mut c, "foo bar"), "500 Error: Unknown command 'FOO'\r\n");
}

#[test]
fn rcpt_before_mail_is_refused() {
    let mut c = SmtpConnection::new();
    assert_eq!(reply(&mut c, "HELO h"), "250 Hello h\r\n");
    assert_eq!(reply(&mut c, "RCPT TO:<b@y.com>"), "503 Error: Send MAIL first\r\n");
    assert!(c.recipients().is_none());
}

#[test]
fn data_before_helo_asks_for_helo() {
    let mut c = SmtpConnection::new();
    assert_eq!(reply(&mut c, "DATA"), "503 Error: Send HELO/EHLO first\r\n");
    assert_eq!(c.state(), SmtpState::Command);
}

#[test]
fn data_before_rcpt_asks_for_rcpt() {
    let mut c = SmtpConnection::new();
    reply(&mut c, "HELO h");
    reply(&mut c, "MAIL FROM:<a@x.com>");
    assert_eq!(reply(&mut c, "DATA"), "503 Error: Send RCPT first\r\n");
    assert_eq!(c.state(), SmtpState::Command);
}

#[test]
fn rset_forgets_sender_and_recipients() {
    let mut c = SmtpConnection::new();
    reply(&mut c, "HELO h");
    reply(&mut c, "MAIL FROM:<a@x.com>");
    reply(&mut c, "RCPT TO:<b@y.com>");
    assert_eq!(reply(&mut c, "RSET"), "250 OK\r\n");
    assert!(c.mail_from().is_none());
    assert!(c.recipients().is_none());
    assert_eq!(c.hostname().as_deref(), Some("h"));
    assert_eq!(reply(&mut c, "RCPT TO:<b@y.com>"), "503 Error: Send MAIL first\r\n");
}

#[test]
fn recipients_keep_order_and_repeats() {
    let mut c = SmtpConnection::new();
    reply(&mut c, "helo host");
    reply(&mut c, "mail from: <a@x.com>");
    reply(&mut c, "RCPT TO:<c@z.com>");
    reply(&mut c, "rcpt to:b@y.com");
    reply(&mut c, "RCPT To: <c@z.com> ");
    reply(&mut c, "data");
    send(&mut c, "line one");
    send(&mut c, "");
    send(&mut c, "line three");
    let mail = finish(&mut c);
    assert_eq!(mail.from, "a@x.com");
    assert_eq!(mail.rcpt, vec!["c@z.com".to_string(), "b@y.com".to_string(), "c@z.com".to_string()]);
    assert_eq!(mail.message_body, "line one\n\nline three\n");
}

#[test]
fn address_keeps_its_case() {
    let mut c = SmtpConnection::new();
    assert_eq!(reply(&mut c, "MAIL FROM:<Ann@X.com>"), "250 OK\r\n");
    assert_eq!(c.mail_from().as_deref(), Some("Ann@X.com"));
}

#[test]
fn helo_without_host_is_a_syntax_error() {
    let mut c = SmtpConnection::new();
    assert_eq!(reply(&mut c, "HELO"), "501 Syntax: HELO hostname\r\n");
    assert_eq!(reply(&mut c, "EHLO   "), "501 Syntax: HELO hostname\r\n");
    assert!(c.hostname().is_none());
}

#[test]
fn malformed_mail_and_rcpt() {
    let mut c = SmtpConnection::new();
    assert_eq!(reply(&mut c, "MAIL <a@x.com>"), "501 Syntax: MAIL From: <address>\r\n");
    assert!(c.mail_from().is_none());
    reply(&mut c, "MAIL FROM:<a@x.com>");
    assert_eq!(reply(&mut c, "RCPT <b@y.com>"), "501 Syntax: RCPT To: <address>\r\n");
    assert!(c.recipients().is_none());
}

#[test]
fn noop_and_its_syntax_error() {
    let mut c = SmtpConnection::new();
    assert_eq!(reply(&mut c, "NOOP"), "250 OK\r\n");
    assert_eq!(reply(&mut c, "NOOP x"), "501 Syntax: NOOP\r\n");
}

#[test]
fn quit_ends_the_session() {
    let mut c = SmtpConnection::new();
    assert_eq!(reply(&mut c, "QUIT"), "221 Have a nice day!\r\n");
    assert_eq!(c.state(), SmtpState::Quit);
    let out = c.line_received("HELO h");
    assert!(out.reply.is_none());
    assert!(out.mail.is_none());
    assert!(c.hostname().is_none());
}

#[test]
fn padded_end_marker_ends_data() {
    let mut c = SmtpConnection::new();
    reply(&mut c, "HELO h");
    reply(&mut c, "MAIL FROM:<a@x.com>");
    reply(&mut c, "RCPT TO:<b@y.com>");
    reply(&mut c, "DATA");
    send(&mut c, "..");
    let out = c.line_received("  . ");
    assert_eq!(out.reply.as_deref(), Some("250 OK\r\n"));
    assert_eq!(out.mail.expect("a mail").message_body, "..\n");
}

#[test]
fn session_stays_in_data_after_the_marker() {
    let mut c = SmtpConnection::new();
    reply(&mut c, "HELO h");
    reply(&mut c, "MAIL FROM:<a@x.com>");
    reply(&mut c, "RCPT TO:<b@y.com>");
    reply(&mut c, "DATA");
    send(&mut c, "one");
    finish(&mut c);
    assert_eq!(c.state(), SmtpState::Data);
    assert_eq!(send(&mut c, "QUIT"), None);
    assert_eq!(c.message(), "one\nQUIT\n");
}

#[test]
fn greeting_banner() {
    assert_eq!(greeting("Rust", "0.1.0"), "220 Rust smtpd v0.1.0\r\n");
}

#[test]
fn command_word_is_upper_cased_with_unicode_rules() {
    let mut c = SmtpConnection::new();
    assert_eq!(reply(&mut c, "HELO h"), "250 Hello h\r\n");
    assert_eq!(reply(&mut c, "ma\u{131}l FROM:<a@x.com>"), "250 OK\r\n");
    assert_eq!(c.mail_from().as_deref(), Some("a@x.com"));
    assert_eq!(reply(&mut c, "r\u{17f}et"), "250 OK\r\n");
    assert!(c.mail_from().is_none());
    assert_eq!(reply(&mut c, "RCPT TO:<b@y.com>"), "503 Error: Send MAIL first\r\n");
    assert_eq!(reply(&mut c, "qu\u{131}t"), "221 Have a nice day!\r\n");
    assert_eq!(c.state(), SmtpState::Quit);
}

#[test]
fn unknown_word_echo_uses_full_upper_case() {
    let mut c = SmtpConnection::new();
    assert_eq!(reply(&mut c, "stra\u{df}e"), "500 Error: Unknown command 'STRASSE'\r\n");
}
