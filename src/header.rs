//! The light scan of a raw message for the header fields that the ledger
//! mail record carries: subject, content type, cc and bcc.
use crate::smtp::strings_view;
use crate::text::{trim, trim_ws};
use vstd::prelude::*;
use vstd::string::*;

verus! {

/// `p` without one trailing `\r`, if it has one.
pub open spec fn drop_cr(p: Seq<char>) -> Seq<char> {
    if p.len() > 0 && p.last() == '\r' {
        p.drop_last()
    } else {
        p
    }
}

/// The lines of `s` still to come, given the lines `acc` already cut, the
/// start of the current line and the scan position `i`.
pub open spec fn lines_from(s: Seq<char>, start: int, i: int, acc: Seq<Seq<char>>) -> Seq<
    Seq<char>,
>
    decreases s.len() - i,
{
    if i < 0 || i >= s.len() {
        if 0 <= start < s.len() {
            acc.push(s.subrange(start, s.len() as int))
        } else {
            acc
        }
    } else if s[i] == '\n' {
        lines_from(s, i + 1, i + 1, acc.push(drop_cr(s.subrange(start, i))))
    } else {
        lines_from(s, start, i + 1, acc)
    }
}

/// What `str::lines` yields: the text cut after each `\n`, the `\n` and a
/// `\r` just before it dropped, and no empty piece after a final `\n`.
pub open spec fn text_lines(s: Seq<char>) -> Seq<Seq<char>> {
    lines_from(s, 0, 0, Seq::empty())
}

/// The pieces of `s` still to come when cutting at each `,`.
pub open spec fn parts_from(s: Seq<char>, start: int, i: int, acc: Seq<Seq<char>>) -> Seq<
    Seq<char>,
>
    decreases s.len() - i,
{
    if i < 0 || i >= s.len() {
        acc.push(s.subrange(start, s.len() as int))
    } else if s[i] == ',' {
        parts_from(s, i + 1, i + 1, acc.push(s.subrange(start, i)))
    } else {
        parts_from(s, start, i + 1, acc)
    }
}

/// What `str::split(',')` yields: the text cut at each `,`, an empty text
/// giving one empty piece.
pub open spec fn comma_parts(s: Seq<char>) -> Seq<Seq<char>> {
    parts_from(s, 0, 0, Seq::empty())
}

/// The lines of `s`, as `str::lines` cuts them.
fn split_lines(s: &str) -> (r: Vec<String>)
    ensures
        strings_view(r@) == text_lines(s@),
{
    let n = s.unicode_len();
    let mut out: Vec<String> = Vec::new();
    let mut start: usize = 0;
    let mut i: usize = 0;
    assert(strings_view(out@) =~= Seq::<Seq<char>>::empty());
    while i < n
        invariant
            start <= i <= n,
            n == s@.len(),
            lines_from(s@, start as int, i as int, strings_view(out@)) == text_lines(s@),
        decreases n - i,
    {
        if s.get_char(i) == '\n' {
            let mut end = i;
            if end > start && s.get_char(end - 1) == '\r' {
                end = end - 1;
            }
            let piece = String::from_str(s.substring_char(start, end));
            proof {
                assert(piece@ =~= drop_cr(s@.subrange(start as int, i as int)));
            }
            let ghost before = out@;
            out.push(piece);
            proof {
                assert(strings_view(out@) =~= strings_view(before).push(piece@));
            }
            start = i + 1;
        }
        i = i + 1;
    }
    if start < n {
        let piece = String::from_str(s.substring_char(start, n));
        let ghost before = out@;
        out.push(piece);
        proof {
            assert(strings_view(out@) =~= strings_view(before).push(piece@));
        }
    }
    out
}

/// The pieces of `s` between commas, as `str::split(',')` cuts them.
fn split_commas(s: &str) -> (r: Vec<String>)
    ensures
        strings_view(r@) == comma_parts(s@),
{
    let n = s.unicode_len();
    let mut out: Vec<String> = Vec::new();
    let mut start: usize = 0;
    let mut i: usize = 0;
    assert(strings_view(out@) =~= Seq::<Seq<char>>::empty());
    while i < n
        invariant
            start <= i <= n,
            n == s@.len(),
            parts_from(s@, start as int, i as int, strings_view(out@)) == comma_parts(s@),
        decreases n - i,
    {
        if s.get_char(i) == ',' {
            let piece = String::from_str(s.substring_char(start, i));
            let ghost before = out@;
            out.push(piece);
            proof {
                assert(strings_view(out@) =~= strings_view(before).push(piece@));
            }
            start = i + 1;
        }
        i = i + 1;
    }
    let piece = String::from_str(s.substring_char(start, n));
    let ghost before = out@;
    out.push(piece);
    proof {
        assert(strings_view(out@) =~= strings_view(before).push(piece@));
    }
    out
}

/// What follows `prefix` in the last of the lines that starts with it.
pub open spec fn field_of(lines: Seq<Seq<char>>, prefix: Seq<char>) -> Option<Seq<char>>
    decreases lines.len(),
{
    if lines.len() == 0 {
        None
    } else {
        let l = lines.last();
        if prefix.len() <= l.len() && l.subrange(0, prefix.len() as int) == prefix {
            Some(l.subrange(prefix.len() as int, l.len() as int))
        } else {
            field_of(lines.drop_last(), prefix)
        }
    }
}

/// The comma-separated items of a field, each trimmed.
pub open spec fn list_of(v: Seq<char>) -> Seq<Seq<char>> {
    trim_all(comma_parts(v))
}

/// Each piece trimmed.
pub open spec fn trim_all(v: Seq<Seq<char>>) -> Seq<Seq<char>> {
    v.map_values(|p: Seq<char>| trim(p))
}

/// The header fields found in a raw message.
pub struct HeaderFields {
    pub subject: Option<String>,
    pub content_type: Option<String>,
    pub cc: Option<Vec<String>>,
    pub bcc: Option<Vec<String>>,
}

pub open spec fn opt_text(o: Option<String>) -> Option<Seq<char>> {
    match o {
        Some(s) => Some(s@),
        None => None,
    }
}

pub open spec fn opt_list(o: Option<Vec<String>>) -> Option<Seq<Seq<char>>> {
    match o {
        Some(v) => Some(strings_view(v@)),
        None => None,
    }
}

pub open spec fn opt_list_of(o: Option<Seq<char>>) -> Option<Seq<Seq<char>>> {
    match o {
        Some(v) => Some(list_of(v)),
        None => None,
    }
}

/// Does `line` start with `prefix`? If so, the rest.
fn strip_prefix(line: &str, prefix: &str) -> (r: Option<String>)
    ensures
        r matches Some(s) ==> prefix@.len() <= line@.len() && line@.subrange(0, prefix@.len() as int)
            == prefix@ && s@ == line@.subrange(prefix@.len() as int, line@.len() as int),
        r is None ==> !(prefix@.len() <= line@.len() && line@.subrange(0, prefix@.len() as int)
            == prefix@),
{
    let n = prefix.unicode_len();
    let m = line.unicode_len();
    if n > m {
        return None;
    }
    if crate::text::same_text(line.substring_char(0, n), prefix) {
        Some(String::from_str(line.substring_char(n, m)))
    } else {
        None
    }
}

/// The trimmed comma-separated items of `v`.
fn split_list(v: &str) -> (r: Vec<String>)
    ensures
        strings_view(r@) == list_of(v@),
{
    let parts = split_commas(v);
    let ghost pv = strings_view(parts@);
    let mut out: Vec<String> = Vec::new();
    let mut i: usize = 0;
    while i < parts.len()
        invariant
            i <= parts@.len(),
            pv == strings_view(parts@),
            pv == comma_parts(v@),
            strings_view(out@) == trim_all(pv.subrange(0, i as int)),
        decreases parts.len() - i,
    {
        let t = String::from_str(trim_ws(parts[i].as_str()));
        let ghost before = out@;
        assert(t@ == trim(pv[i as int]));
        out.push(t);
        i = i + 1;
        proof {
            assert(strings_view(out@) =~= strings_view(before).push(t@));
            assert(trim_all(pv.subrange(0, i as int)) =~= trim_all(pv.subrange(0, i - 1)).push(
                trim(pv[i - 1]),
            ));
        }
    }
    proof {
        assert(pv.subrange(0, i as int) =~= pv);
    }
    out
}

/// Scans the lines of a raw message for `Subject: `, `Content-Type: `,
/// `Cc: ` and `Bcc: `; for each, the last line that carries it wins, and cc
/// and bcc are split at commas with each item trimmed.
pub fn scan_headers(mail_data: &str) -> (r: HeaderFields)
    ensures
        opt_text(r.subject) == field_of(text_lines(mail_data@), "Subject: "@),
        opt_text(r.content_type) == field_of(text_lines(mail_data@), "Content-Type: "@),
        opt_list(r.cc) == opt_list_of(field_of(text_lines(mail_data@), "Cc: "@)),
        opt_list(r.bcc) == opt_list_of(field_of(text_lines(mail_data@), "Bcc: "@)),
{
    let lines = split_lines(mail_data);
    let ghost lv = strings_view(lines@);
    let mut subject: Option<String> = None;
    let mut content_type: Option<String> = None;
    let mut cc: Option<Vec<String>> = None;
    let mut bcc: Option<Vec<String>> = None;
    let mut i: usize = 0;
    while i < lines.len()
        invariant
            i <= lines@.len(),
            lv == strings_view(lines@),
            lv == text_lines(mail_data@),
            opt_text(subject) == field_of(lv.subrange(0, i as int), "Subject: "@),
            opt_text(content_type) == field_of(lv.subrange(0, i as int), "Content-Type: "@),
            opt_list(cc) == opt_list_of(field_of(lv.subrange(0, i as int), "Cc: "@)),
            opt_list(bcc) == opt_list_of(field_of(lv.subrange(0, i as int), "Bcc: "@)),
        decreases lines.len() - i,
    {
        let line = lines[i].as_str();
        proof {
            assert(lv.subrange(0, i + 1).drop_last() =~= lv.subrange(0, i as int));
            assert(lv.subrange(0, i + 1).last() == line@);
        }
        if let Some(s) = strip_prefix(line, "Subject: ") {
            subject = Some(s);
        }
        if let Some(s) = strip_prefix(line, "Content-Type: ") {
            content_type = Some(s);
        }
        if let Some(s) = strip_prefix(line, "Cc: ") {
            cc = Some(split_list(s.as_str()));
        }
        if let Some(s) = strip_prefix(line, "Bcc: ") {
            bcc = Some(split_list(s.as_str()));
        }
        i = i + 1;
    }
    proof {
        assert(lv.subrange(0, i as int) =~= lv);
    }
    HeaderFields { subject, content_type, cc, bcc }
}

} // verus!
