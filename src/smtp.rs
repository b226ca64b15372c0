//! The per-connection SMTP session: one line in, at most one reply and at most
//! one completed mail out.
use crate::text::{
    ci_prefix, concat3, find_space, keyword_prefix, same_text, space_at, strip_both,
    strip_chars, trim, trim_ws,
};
use vstd::prelude::*;
use vstd::string::*;

verus! {

/// Phase of a session.
#[derive(PartialEq, Eq, Structural, Clone, Copy, Debug)]
pub enum SmtpState {
    Command,
    Data,
    Quit,
}

/// A mail accepted at the end of a DATA phase.
pub struct SmtpMail {
    pub from: String,
    pub rcpt: Vec<String>,
    pub message_body: String,
}

/// Mathematical form of a mail.
pub struct MailView {
    pub from: Seq<char>,
    pub rcpt: Seq<Seq<char>>,
    pub body: Seq<char>,
}

pub open spec fn strings_view(v: Seq<String>) -> Seq<Seq<char>> {
    v.map_values(|s: String| s@)
}

impl View for SmtpMail {
    type V = MailView;

    open spec fn view(&self) -> MailView {
        MailView { from: self.from@, rcpt: strings_view(self.rcpt@), body: self.message_body@ }
    }
}

/// The state of one SMTP session; the socket is held by the caller.
pub struct SmtpConnection {
    hostname: Option<String>,
    mailfrom: Option<String>,
    rcpt: Option<Vec<String>>,
    message: String,
    state: SmtpState,
}

/// Mathematical form of a session.
pub struct ConnView {
    pub hostname: Option<Seq<char>>,
    pub mailfrom: Option<Seq<char>>,
    pub rcpt: Option<Seq<Seq<char>>>,
    pub message: Seq<char>,
    pub state: SmtpState,
}

pub open spec fn opt_view(o: Option<String>) -> Option<Seq<char>> {
    match o {
        Some(s) => Some(s@),
        None => None,
    }
}

pub open spec fn opt_strings_view(o: Option<Vec<String>>) -> Option<Seq<Seq<char>>> {
    match o {
        Some(v) => Some(strings_view(v@)),
        None => None,
    }
}

impl View for SmtpConnection {
    type V = ConnView;

    closed spec fn view(&self) -> ConnView {
        ConnView {
            hostname: opt_view(self.hostname),
            mailfrom: opt_view(self.mailfrom),
            rcpt: opt_strings_view(self.rcpt),
            message: self.message@,
            state: self.state,
        }
    }
}

/// The session every connection starts in.
pub open spec fn initial_conn() -> ConnView {
    ConnView {
        hostname: None,
        mailfrom: None,
        rcpt: None,
        message: Seq::empty(),
        state: SmtpState::Command,
    }
}

/// Invariant of a session: a recipient list is never empty, and the DATA
/// phase is entered only with a peer name and recipients.
pub open spec fn conn_wf(c: ConnView) -> bool {
    &&& (c.rcpt matches Some(r) ==> r.len() > 0)
    &&& (c.state == SmtpState::Data ==> c.hostname is Some && c.rcpt is Some)
}

/// The commands of a session.
pub enum Verb {
    Hello,
    Mail,
    Rcpt,
    Data,
    Noop,
    Rset,
    Quit,
    Other,
}

/// The command that an upper-cased first word names.
pub open spec fn verb_of(u: Seq<char>) -> Verb {
    if u == "HELO"@ || u == "EHLO"@ {
        Verb::Hello
    } else if u == "MAIL"@ {
        Verb::Mail
    } else if u == "RCPT"@ {
        Verb::Rcpt
    } else if u == "DATA"@ {
        Verb::Data
    } else if u == "NOOP"@ {
        Verb::Noop
    } else if u == "RSET"@ {
        Verb::Rset
    } else if u == "QUIT"@ {
        Verb::Quit
    } else {
        Verb::Other
    }
}

/// The first word of a command line: everything before the first space.
pub open spec fn first_word(line: Seq<char>) -> Seq<char> {
    line.subrange(0, space_at(line, 0))
}

/// The argument of a command line: what follows the first word, trimmed.
pub open spec fn argument(line: Seq<char>) -> Seq<char> {
    trim(line.subrange(space_at(line, 0), line.len() as int))
}

/// The address in `FROM:<a>` or `TO:<a>` once the `k` keyword characters are
/// skipped: trimmed, angle brackets removed, trimmed again.
pub open spec fn address_after(arg: Seq<char>, k: int) -> Seq<char> {
    trim(strip_both(trim(arg.subrange(k, arg.len() as int)), true))
}

/// The reply to an unknown command, given its first word in upper case.
pub open spec fn unknown_reply(upper: Seq<char>) -> Seq<char> {
    "500 Error: Unknown command '"@ + upper + "'\r\n"@
}

/// What a command does to a session in the command phase, and the reply:
/// `upper` is the command's first word in upper case, `arg` its trimmed
/// argument.
pub open spec fn command_step(c: ConnView, upper: Seq<char>, arg: Seq<char>) -> (
    ConnView,
    Seq<char>,
) {
    match verb_of(upper) {
        Verb::Hello => if arg.len() > 0 {
            (ConnView { hostname: Some(arg), ..c }, "250 Hello "@ + arg + "\r\n"@)
        } else {
            (c, "501 Syntax: HELO hostname\r\n"@)
        },
        Verb::Mail => if ci_prefix(arg, "FROM:"@) {
            (ConnView { mailfrom: Some(address_after(arg, 5)), ..c }, "250 OK\r\n"@)
        } else {
            (c, "501 Syntax: MAIL From: <address>\r\n"@)
        },
        Verb::Rcpt => if c.mailfrom is None {
            (c, "503 Error: Send MAIL first\r\n"@)
        } else if ci_prefix(arg, "TO:"@) {
            let a = address_after(arg, 3);
            let list = match c.rcpt {
                Some(r) => r.push(a),
                None => seq![a],
            };
            (ConnView { rcpt: Some(list), ..c }, "250 OK\r\n"@)
        } else {
            (c, "501 Syntax: RCPT To: <address>\r\n"@)
        },
        Verb::Data => if c.hostname is None {
            (c, "503 Error: Send HELO/EHLO first\r\n"@)
        } else if c.rcpt is None {
            (c, "503 Error: Send RCPT first\r\n"@)
        } else {
            (ConnView { state: SmtpState::Data, ..c }, "354 End data with <CRLF>.<CRLF>\r\n"@)
        },
        Verb::Noop => if arg.len() == 0 {
            (c, "250 OK\r\n"@)
        } else {
            (c, "501 Syntax: NOOP\r\n"@)
        },
        Verb::Rset => (
            ConnView { mailfrom: None, rcpt: None, message: Seq::empty(), ..c },
            "250 OK\r\n"@,
        ),
        Verb::Quit => (ConnView { state: SmtpState::Quit, ..c }, "221 Have a nice day!\r\n"@),
        Verb::Other => (c, unknown_reply(upper)),
    }
}

/// The mail that the end-of-data marker completes.
pub open spec fn completed_mail(c: ConnView) -> MailView {
    MailView {
        from: match c.mailfrom {
            Some(f) => f,
            None => Seq::empty(),
        },
        rcpt: match c.rcpt {
            Some(r) => r,
            None => seq![Seq::empty()],
        },
        body: c.message,
    }
}

/// What a line does in the data phase: the marker `.` completes the mail,
/// any other line is appended with a newline. By design the session stays
/// in the data phase after the marker and keeps its buffer, so a later
/// marker completes a mail holding every data line seen so far; a client
/// starts a new transaction on a new connection.
pub open spec fn data_step(c: ConnView, line: Seq<char>) -> (
    ConnView,
    Option<Seq<char>>,
    Option<MailView>,
) {
    if trim(line) == "."@ {
        (c, Some("250 OK\r\n"@), Some(completed_mail(c)))
    } else {
        (ConnView { message: c.message + line + "\n"@, ..c }, None, None)
    }
}

/// What one received line does to a session: the new session, the reply and
/// the completed mail, if any. `upper` is the line's first word in upper case.
pub open spec fn line_step(c: ConnView, line: Seq<char>, upper: Seq<char>) -> (
    ConnView,
    Option<Seq<char>>,
    Option<MailView>,
) {
    match c.state {
        SmtpState::Command => {
            let (n, r) = command_step(c, upper, argument(line));
            (n, Some(r), None)
        },
        SmtpState::Data => data_step(c, line),
        SmtpState::Quit => (c, None, None),
    }
}

/// The name for what `str::to_uppercase` returns.
pub uninterp spec fn upper_of(s: Seq<char>) -> Seq<char>;

/// Relies on `str::to_uppercase`: the upper-case form of the text, which
/// depends on its characters alone.
#[verifier::external_body]
fn to_upper(s: &str) -> (r: String)
    ensures
        r@ == upper_of(s@),
{
    s.to_uppercase()
}

/// What a session hands back for one line.
pub struct LineOutcome {
    pub reply: Option<String>,
    pub mail: Option<SmtpMail>,
}

pub open spec fn opt_mail_view(o: Option<SmtpMail>) -> Option<MailView> {
    match o {
        Some(m) => Some(m@),
        None => None,
    }
}

fn text(s: &str) -> (r: String)
    ensures
        r@ == s@,
{
    String::from_str(s)
}

fn copy_strings(v: &Vec<String>) -> (r: Vec<String>)
    ensures
        r@ == v@,
{
    let mut r: Vec<String> = Vec::new();
    let mut i: usize = 0;
    while i < v.len()
        invariant
            i <= v@.len(),
            r@ == v@.subrange(0, i as int),
        decreases v.len() - i,
    {
        r.push(v[i].clone());
        i = i + 1;
        assert(r@ =~= v@.subrange(0, i as int));
    }
    assert(r@ =~= v@);
    r
}

fn copy_opt(o: &Option<String>) -> (r: String)
    ensures
        r@ == (match opt_view(*o) {
            Some(s) => s,
            None => Seq::<char>::empty(),
        }),
{
    match o {
        Some(s) => s.clone(),
        None => String::new(),
    }
}

impl SmtpConnection {
    /// A session that has seen no line yet.
    pub fn new() -> (r: SmtpConnection)
        ensures
            r@ == initial_conn(),
    {
        SmtpConnection {
            hostname: None,
            mailfrom: None,
            rcpt: None,
            message: String::new(),
            state: SmtpState::Command,
        }
    }

    /// Runs one command of the command phase: `upper` is the command's first
    /// word in upper case, `arg` the trimmed argument.
    pub fn apply_command(&mut self, upper: &str, arg: &str) -> (reply: String)
        requires
            conn_wf(old(self)@),
            old(self)@.state == SmtpState::Command,
        ensures
            (final(self)@, reply@) == command_step(old(self)@, upper@, arg@),
            conn_wf(final(self)@),
    {
        if same_text(upper, "HELO") || same_text(upper, "EHLO") {
            if arg.unicode_len() > 0 {
                self.hostname = Some(String::from_str(arg));
                concat3("250 Hello ", arg, "\r\n")
            } else {
                text("501 Syntax: HELO hostname\r\n")
            }
        } else if same_text(upper, "MAIL") {
            if keyword_prefix(arg, "FROM:") {
                proof {
                    reveal_strlit("FROM:");
                }
                self.mailfrom = Some(String::from_str(address_of(arg, 5)));
                text("250 OK\r\n")
            } else {
                text("501 Syntax: MAIL From: <address>\r\n")
            }
        } else if same_text(upper, "RCPT") {
            if self.mailfrom.is_none() {
                text("503 Error: Send MAIL first\r\n")
            } else if keyword_prefix(arg, "TO:") {
                proof {
                    reveal_strlit("TO:");
                }
                let a = String::from_str(address_of(arg, 3));
                let ghost av = a@;
                let mut list: Vec<String> = match &self.rcpt {
                    Some(v) => copy_strings(v),
                    None => Vec::new(),
                };
                proof {
                    if self.rcpt is None {
                        assert(strings_view(list@) =~= Seq::<Seq<char>>::empty());
                    }
                }
                let ghost before = list@;
                list.push(a);
                proof {
                    assert(strings_view(list@) =~= strings_view(before).push(av));
                    if self.rcpt is None {
                        assert(strings_view(list@) =~= seq![av]);
                    }
                }
                self.rcpt = Some(list);
                text("250 OK\r\n")
            } else {
                text("501 Syntax: RCPT To: <address>\r\n")
            }
        } else if same_text(upper, "DATA") {
            if self.hostname.is_none() {
                text("503 Error: Send HELO/EHLO first\r\n")
            } else if self.rcpt.is_none() {
                text("503 Error: Send RCPT first\r\n")
            } else {
                self.state = SmtpState::Data;
                text("354 End data with <CRLF>.<CRLF>\r\n")
            }
        } else if same_text(upper, "NOOP") {
            if arg.unicode_len() == 0 {
                text("250 OK\r\n")
            } else {
                text("501 Syntax: NOOP\r\n")
            }
        } else if same_text(upper, "RSET") {
            self.mailfrom = None;
            self.rcpt = None;
            self.message = String::new();
            text("250 OK\r\n")
        } else if same_text(upper, "QUIT") {
            self.state = SmtpState::Quit;
            text("221 Have a nice day!\r\n")
        } else {
            concat3("500 Error: Unknown command '", upper, "'\r\n")
        }
    }

    /// Runs one line of the data phase.
    pub fn apply_data_line(&mut self, line: &str) -> (r: LineOutcome)
        requires
            conn_wf(old(self)@),
            old(self)@.state == SmtpState::Data,
        ensures
            (final(self)@, opt_view(r.reply), opt_mail_view(r.mail)) == data_step(
                old(self)@,
                line@,
            ),
            conn_wf(final(self)@),
    {
        if same_text(trim_ws(line), ".") {
            let rcpt = match &self.rcpt {
                Some(v) => copy_strings(v),
                None => vec![String::new()],
            };
            proof {
                if self.rcpt is None {
                    assert(strings_view(rcpt@) =~= seq![Seq::<char>::empty()]);
                }
            }
            let mail = SmtpMail {
                from: copy_opt(&self.mailfrom),
                rcpt,
                message_body: self.message.clone(),
            };
            LineOutcome { reply: Some(text("250 OK\r\n")), mail: Some(mail) }
        } else {
            self.message.append(line);
            self.message.append("\n");
            LineOutcome { reply: None, mail: None }
        }
    }

    /// Runs one received line (without its line ending) through the session.
    pub fn line_received(&mut self, line: &str) -> (r: LineOutcome)
        requires
            conn_wf(old(self)@),
        ensures
            (final(self)@, opt_view(r.reply), opt_mail_view(r.mail)) == line_step(
                old(self)@,
                line@,
                upper_of(first_word(line@)),
            ),
            conn_wf(final(self)@),
    {
        match self.state {
            SmtpState::Command => {
                let n = line.unicode_len();
                let p = find_space(line);
                let word = line.substring_char(0, p);
                let arg = trim_ws(line.substring_char(p, n));
                let upper = to_upper(word);
                let reply = self.apply_command(upper.as_str(), arg);
                LineOutcome { reply: Some(reply), mail: None }
            },
            SmtpState::Data => self.apply_data_line(line),
            SmtpState::Quit => LineOutcome { reply: None, mail: None },
        }
    }
}

impl SmtpConnection {
    /// The session's phase.
    pub fn state(&self) -> (r: SmtpState)
        ensures
            r == self@.state,
    {
        self.state
    }

    /// The peer name given by HELO/EHLO.
    pub fn hostname(&self) -> (r: Option<String>)
        ensures
            opt_view(r) == self@.hostname,
    {
        match &self.hostname {
            Some(h) => Some(h.clone()),
            None => None,
        }
    }

    /// The sender given by MAIL FROM.
    pub fn mail_from(&self) -> (r: Option<String>)
        ensures
            opt_view(r) == self@.mailfrom,
    {
        match &self.mailfrom {
            Some(f) => Some(f.clone()),
            None => None,
        }
    }

    /// The recipients given by RCPT TO, in order.
    pub fn recipients(&self) -> (r: Option<Vec<String>>)
        ensures
            opt_strings_view(r) == self@.rcpt,
    {
        match &self.rcpt {
            Some(v) => Some(copy_strings(v)),
            None => None,
        }
    }

    /// The data lines received so far.
    pub fn message(&self) -> (r: String)
        ensures
            r@ == self@.message,
    {
        self.message.clone()
    }
}

/// The banner a server writes when a connection opens.
pub fn greeting(service: &str, version: &str) -> (r: String)
    ensures
        r@ == "220 "@ + service@ + " smtpd v"@ + version@ + "\r\n"@,
{
    let mut s = concat3("220 ", service, " smtpd v");
    s.append(version);
    s.append("\r\n");
    s
}

/// `address_after` on a string.
fn address_of(arg: &str, k: usize) -> (r: &str)
    requires
        k <= arg@.len(),
    ensures
        r@ == address_after(arg@, k as int),
{
    let n = arg.unicode_len();
    trim_ws(strip_chars(trim_ws(arg.substring_char(k, n)), true))
}

/// A RCPT command before any MAIL is refused with 503 and leaves the session
/// as it was, so no recipient is registered.
pub proof fn lemma_rcpt_needs_mail(c: ConnView, line: Seq<char>)
    requires
        c.state == SmtpState::Command,
        c.mailfrom is None,
        verb_of(upper_of(first_word(line))) is Rcpt,
    ensures
        line_step(c, line, upper_of(first_word(line))) == (
            c,
            Some("503 Error: Send MAIL first\r\n"@),
            None::<MailView>,
        ),
{
}

/// DATA without a HELO/EHLO is refused with the 503 that asks for HELO/EHLO;
/// with a peer name but no recipient, with the 503 that asks for RCPT. Either
/// way the session is unchanged.
pub proof fn lemma_data_order(c: ConnView, line: Seq<char>)
    requires
        c.state == SmtpState::Command,
        verb_of(upper_of(first_word(line))) is Data,
    ensures
        c.hostname is None ==> line_step(c, line, upper_of(first_word(line))) == (
            c,
            Some("503 Error: Send HELO/EHLO first\r\n"@),
            None::<MailView>,
        ),
        c.hostname is Some && c.rcpt is None ==> line_step(c, line, upper_of(first_word(line)))
            == (c, Some("503 Error: Send RCPT first\r\n"@), None::<MailView>),
{
}

/// After RSET, a RCPT without a new MAIL is refused with 503 again.
pub proof fn lemma_rset_forgets_sender(c: ConnView, rset: Seq<char>, rcpt: Seq<char>)
    requires
        c.state == SmtpState::Command,
        verb_of(upper_of(first_word(rset))) is Rset,
        verb_of(upper_of(first_word(rcpt))) is Rcpt,
    ensures
        ({
            let after = line_step(c, rset, upper_of(first_word(rset))).0;
            &&& after.mailfrom is None
            &&& after.rcpt is None
            &&& line_step(after, rcpt, upper_of(first_word(rcpt))) == (
                after,
                Some("503 Error: Send MAIL first\r\n"@),
                None::<MailView>,
            )
        }),
{
}

/// The session after one line.
pub open spec fn next_conn(c: ConnView, line: Seq<char>) -> ConnView {
    line_step(c, line, upper_of(first_word(line))).0
}

/// The session after a sequence of lines, and the mails they completed, in
/// order.
pub open spec fn run(c: ConnView, lines: Seq<Seq<char>>) -> (ConnView, Seq<MailView>)
    decreases lines.len(),
{
    if lines.len() == 0 {
        (c, Seq::empty())
    } else {
        let (c1, ms) = run(c, lines.drop_last());
        let l = lines.last();
        let (c2, _reply, m) = line_step(c1, l, upper_of(first_word(l)));
        (
            c2,
            match m {
                Some(x) => ms.push(x),
                None => ms,
            },
        )
    }
}

/// The recipient addresses that RCPT lines name.
pub open spec fn rcpt_addresses(lines: Seq<Seq<char>>) -> Seq<Seq<char>> {
    lines.map_values(|l: Seq<char>| address_after(argument(l), 3))
}

/// The data lines, each followed by a newline.
pub open spec fn body_text(lines: Seq<Seq<char>>) -> Seq<char>
    decreases lines.len(),
{
    if lines.len() == 0 {
        Seq::empty()
    } else {
        body_text(lines.drop_last()) + lines.last() + "\n"@
    }
}

proof fn lemma_run_append(c: ConnView, a: Seq<Seq<char>>, b: Seq<Seq<char>>)
    ensures
        run(c, a + b) == (run(run(c, a).0, b).0, run(c, a).1 + run(run(c, a).0, b).1),
    decreases b.len(),
{
    if b.len() == 0 {
        assert(a + b =~= a);
        assert(run(c, a).1 + Seq::<MailView>::empty() =~= run(c, a).1);
    } else {
        assert((a + b).drop_last() =~= a + b.drop_last());
        assert((a + b).last() == b.last());
        lemma_run_append(c, a, b.drop_last());
        let ms = run(c, a).1;
        let ns = run(run(c, a).0, b.drop_last()).1;
        let l = b.last();
        let m = line_step(run(run(c, a).0, b.drop_last()).0, l, upper_of(first_word(l))).2;
        if let Some(x) = m {
            assert((ms + ns).push(x) =~= ms + ns.push(x));
        }
    }
}

proof fn lemma_rcpt_lines(c: ConnView, rs: Seq<Seq<char>>)
    requires
        c.state == SmtpState::Command,
        c.mailfrom is Some,
        c.rcpt is None,
        rs.len() >= 1,
        forall|i: int|
            0 <= i < rs.len() ==> verb_of(upper_of(first_word(#[trigger] rs[i]))) is Rcpt && ci_prefix(
                argument(rs[i]),
                "TO:"@,
            ),
    ensures
        run(c, rs) == (ConnView { rcpt: Some(rcpt_addresses(rs)), ..c }, Seq::<MailView>::empty()),
    decreases rs.len(),
{
    let l = rs.last();
    assert(verb_of(upper_of(first_word(rs[rs.len() - 1]))) is Rcpt);
    if rs.len() == 1 {
        assert(rs.drop_last() =~= Seq::<Seq<char>>::empty());
        assert(run(c, rs.drop_last()) == (c, Seq::<MailView>::empty()));
        assert(rcpt_addresses(rs) =~= seq![address_after(argument(l), 3)]);
    } else {
        lemma_rcpt_lines(c, rs.drop_last());
        assert(rcpt_addresses(rs) =~= rcpt_addresses(rs.drop_last()).push(
            address_after(argument(l), 3),
        ));
    }
}

proof fn lemma_data_lines(c: ConnView, ds: Seq<Seq<char>>)
    requires
        c.state == SmtpState::Data,
        forall|i: int| 0 <= i < ds.len() ==> trim(#[trigger] ds[i]) != "."@,
    ensures
        run(c, ds) == (ConnView { message: c.message + body_text(ds), ..c }, Seq::<MailView>::empty()),
    decreases ds.len(),
{
    if ds.len() == 0 {
        assert(c.message + body_text(ds) =~= c.message);
    } else {
        let l = ds.last();
        assert(trim(ds[ds.len() - 1]) != "."@);
        lemma_data_lines(c, ds.drop_last());
        assert(c.message + body_text(ds.drop_last()) + l + "\n"@ =~= c.message + body_text(ds));
    }
}

/// A dialog of HELO/EHLO with a host, MAIL FROM, one or more RCPT TO, DATA,
/// data lines and a line holding only `.` yields exactly one mail: from the
/// MAIL address, to the RCPT addresses in order (repeats kept), with the data
/// lines each followed by a newline as its body.
pub proof fn lemma_dialog_yields_one_mail(
    helo: Seq<char>,
    mail: Seq<char>,
    rcpts: Seq<Seq<char>>,
    data: Seq<char>,
    body: Seq<Seq<char>>,
    dot: Seq<char>,
)
    requires
        verb_of(upper_of(first_word(helo))) is Hello,
        argument(helo).len() > 0,
        verb_of(upper_of(first_word(mail))) is Mail,
        ci_prefix(argument(mail), "FROM:"@),
        rcpts.len() >= 1,
        forall|i: int|
            0 <= i < rcpts.len() ==> verb_of(upper_of(first_word(#[trigger] rcpts[i]))) is Rcpt && ci_prefix(
                argument(rcpts[i]),
                "TO:"@,
            ),
        verb_of(upper_of(first_word(data))) is Data,
        forall|i: int| 0 <= i < body.len() ==> trim(#[trigger] body[i]) != "."@,
        trim(dot) == "."@,
    ensures
        run(initial_conn(), seq![helo, mail] + rcpts + seq![data] + body + seq![dot]).1 == seq![
            MailView {
                from: address_after(argument(mail), 5),
                rcpt: rcpt_addresses(rcpts),
                body: body_text(body),
            },
        ],
{
    let c0 = initial_conn();
    let t1 = seq![helo, mail];
    let s1 = seq![helo];
    assert(t1.drop_last() =~= s1);
    assert(s1.drop_last() =~= Seq::<Seq<char>>::empty());
    assert(run(c0, s1.drop_last()) == (c0, Seq::<MailView>::empty()));
    let c1 = next_conn(c0, helo);
    assert(run(c0, s1) == (c1, Seq::<MailView>::empty()));
    let c2 = next_conn(c1, mail);
    assert(run(c0, t1) == (c2, Seq::<MailView>::empty()));
    lemma_rcpt_lines(c2, rcpts);
    lemma_run_append(c0, t1, rcpts);
    let t2 = t1 + rcpts;
    let c3 = run(c0, t2).0;
    assert(seq![data].drop_last() =~= Seq::<Seq<char>>::empty());
    assert(run(c3, seq![data].drop_last()) == (c3, Seq::<MailView>::empty()));
    assert(c3.hostname is Some && c3.rcpt is Some && c3.state == SmtpState::Command);
    assert(run(c3, seq![data]) == (next_conn(c3, data), Seq::<MailView>::empty()));
    lemma_run_append(c0, t2, seq![data]);
    let t3 = t2 + seq![data];
    let c4 = run(c0, t3).0;
    assert(c4 == ConnView { state: SmtpState::Data, ..c3 });
    lemma_data_lines(c4, body);
    lemma_run_append(c0, t3, body);
    let t4 = t3 + body;
    let c5 = run(c0, t4).0;
    assert(seq![dot].drop_last() =~= Seq::<Seq<char>>::empty());
    lemma_run_append(c0, t4, seq![dot]);
    assert(c5.message =~= body_text(body));
    assert(run(c0, t4).1 =~= Seq::<MailView>::empty());
    assert(c5.state == SmtpState::Data);
    assert(run(c5, seq![dot].drop_last()) == (c5, Seq::<MailView>::empty()));
    assert(run(c5, seq![dot]).1 =~= seq![completed_mail(c5)]);
    assert(Seq::<MailView>::empty() + seq![completed_mail(c5)] =~= seq![completed_mail(c5)]);
}

} // verus!
