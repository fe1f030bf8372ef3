//! The Git credential helper: which requests it answers, and with what.

use vstd::prelude::*;
use crate::text::{
    append, chars_of, first_index, lemma_split_once_at, opt_str, owned, split_once, str_eq,
};

verus! {

/// The attributes of a Git credential request that decide its scope.
#[derive(Debug, Default, PartialEq, Eq)]
pub struct GitCredential<'a> {
    pub protocol: Option<&'a str>,
    pub host: Option<&'a str>,
}

/// Only HTTPS requests to the Git host, with or without its default port.
pub open spec fn credential_in_scope(protocol: Option<Seq<char>>, host: Option<Seq<char>>) -> bool {
    &&& protocol == Some("https"@)
    &&& (host == Some("git.co.codes"@) || host == Some("git.co.codes:443"@))
}

impl<'a> GitCredential<'a> {
    pub open spec fn view_parts(&self) -> (Option<Seq<char>>, Option<Seq<char>>) {
        (opt_str(self.protocol), opt_str(self.host))
    }

    /// Whether credentials may be returned for this request.
    pub fn in_scope(&self) -> (r: bool)
        ensures
            r == credential_in_scope(opt_str(self.protocol), opt_str(self.host)),
    {
        let https = match self.protocol {
            Some(p) => str_eq(p, "https"),
            None => false,
        };
        let host = match self.host {
            Some(h) => str_eq(h, "git.co.codes") || str_eq(h, "git.co.codes:443"),
            None => false,
        };
        https && host
    }
}

/// `j` is where the line that starts at `i` ends: the next newline, or the end.
pub open spec fn is_line_end(s: Seq<char>, i: int, j: int) -> bool {
    &&& i <= j <= s.len()
    &&& (j == s.len() || s[j] == '\n')
    &&& forall|k: int| i <= k < j ==> s[k] != '\n'
}

pub open spec fn line_end(s: Seq<char>, i: int) -> int {
    choose|j: int| is_line_end(s, i, j)
}

proof fn lemma_line_end_unique(s: Seq<char>, i: int, j: int, k: int)
    requires
        is_line_end(s, i, j),
        is_line_end(s, i, k),
    ensures
        j == k,
{
    if j < k {
        assert(s[j] != '\n');
    } else if k < j {
        assert(s[k] != '\n');
    }
}

/// The line that starts at `i` and ends at `end` (exclusive), without its
/// `\r\n` terminator, and with one further trailing `\r` removed.
pub open spec fn clean_line(s: Seq<char>, i: int, end: int) -> Seq<char> {
    let raw = s.subrange(i, end);
    let once = if end < s.len() && raw.len() > 0 && raw.last() == '\r' {
        raw.drop_last()
    } else {
        raw
    };
    if once.len() > 0 && once.last() == '\r' {
        once.drop_last()
    } else {
        once
    }
}

/// Reads `key=value` lines from position `i` up to the first empty line,
/// keeping the last `protocol` and `host`.
pub open spec fn credential_scan(
    s: Seq<char>,
    i: int,
    protocol: Option<Seq<char>>,
    host: Option<Seq<char>>,
) -> (Option<Seq<char>>, Option<Seq<char>>)
    decreases s.len() - i,
{
    if i < 0 || i >= s.len() {
        (protocol, host)
    } else {
        let end = line_end(s, i);
        let line = clean_line(s, i, end);
        if !(i <= end <= s.len()) || line.len() == 0 {
            (protocol, host)
        } else {
            let next: (Option<Seq<char>>, Option<Seq<char>>) = match split_once(line, '=') {
                None => (protocol, host),
                Some((key, value)) => if key == "protocol"@ {
                    (Some(value), host)
                } else if key == "host"@ {
                    (protocol, Some(value))
                } else {
                    (protocol, host)
                },
            };
            if end >= s.len() {
                next
            } else {
                credential_scan(s, end + 1, next.0, next.1)
            }
        }
    }
}

/// Reads the `protocol` and `host` of a Git credential request.
pub fn parse_credential(input: &str) -> (r: GitCredential<'_>)
    ensures
        r.view_parts() == credential_scan(input@, 0, None, None),
{
    let v = chars_of(input);
    let mut credential = GitCredential { protocol: None, host: None };
    let mut i: usize = 0;
    while i < v.len()
        invariant
            i <= v.len(),
            v@ == input@,
            credential_scan(input@, i as int, opt_str(credential.protocol), opt_str(credential.host))
                == credential_scan(input@, 0, None, None),
        decreases v.len() - i,
    {
        let mut end = i;
        while end < v.len() && v[end] != '\n'
            invariant
                i <= end <= v.len(),
                v@ == input@,
                forall|k: int| i <= k < end ==> v@[k] != '\n',
            decreases v.len() - end,
        {
            end += 1;
        }
        proof {
            assert(is_line_end(input@, i as int, end as int));
            lemma_line_end_unique(input@, i as int, end as int, line_end(input@, i as int));
        }
        let mut stop = end;
        if end < v.len() && stop > i && v[stop - 1] == '\r' {
            stop -= 1;
        }
        if stop > i && v[stop - 1] == '\r' {
            stop -= 1;
        }
        let ghost line = clean_line(input@, i as int, end as int);
        assert(line =~= input@.subrange(i as int, stop as int));
        if stop == i {
            return credential;
        }
        let mut k = i;
        while k < stop && v[k] != '='
            invariant
                i <= k <= stop <= v.len(),
                v@ == input@,
                forall|m: int| i <= m < k ==> v@[m] != '=',
            decreases stop - k,
        {
            k += 1;
        }
        let sep: Option<usize> = if k < stop {
            Some(k)
        } else {
            None
        };
        match sep {
            None => {
                assert(!line.contains('=')) by {
                    if line.contains('=') {
                        let m = choose|m: int| 0 <= m < line.len() && line[m] == '=';
                        assert(line[m] == v@[i + m]);
                    }
                }
            },
            Some(eq) => {
                proof {
                    assert(eq == k);
                    assert(crate::text::is_first_index(line, '=', eq - i)) by {
                        assert forall|m: int| 0 <= m < eq - i implies line[m] != '=' by {
                            assert(line[m] == v@[i + m]);
                        }
                    }
                    lemma_split_once_at(line, '=', eq - i);
                    assert(line.take(eq - i) =~= input@.subrange(i as int, eq as int));
                    assert(line.skip(eq - i + 1) =~= input@.subrange(eq + 1, stop as int));
                }
                let key = input.substring_char(i, eq);
                let value = input.substring_char(eq + 1, stop);
                if str_eq(key, "protocol") {
                    credential.protocol = Some(value);
                } else if str_eq(key, "host") {
                    credential.host = Some(value);
                }
            },
        }
        if end == v.len() {
            return credential;
        }
        i = end + 1;
    }
    credential
}

/// Reads lines from position `i` up to the first empty line, keeping the last
/// value given for `key`.
pub open spec fn field_scan(s: Seq<char>, i: int, key: Seq<char>, found: Option<Seq<char>>) -> Option<
    Seq<char>,
>
    decreases s.len() - i,
{
    if i < 0 || i >= s.len() {
        found
    } else {
        let end = line_end(s, i);
        let line = clean_line(s, i, end);
        if !(i <= end <= s.len()) || line.len() == 0 {
            found
        } else {
            let next = match split_once(line, '=') {
                Some((k, value)) => if k == key {
                    Some(value)
                } else {
                    found
                },
                None => found,
            };
            if end >= s.len() {
                next
            } else {
                field_scan(s, end + 1, key, next)
            }
        }
    }
}

/// The value that a Git credential request gives for `key` (such as `path`),
/// read as `parse_credential` reads `protocol` and `host`.
pub fn credential_field<'a>(input: &'a str, key: &str) -> (r: Option<&'a str>)
    ensures
        opt_str(r) == field_scan(input@, 0, key@, None),
{
    let v = chars_of(input);
    let mut found: Option<&'a str> = None;
    let mut i: usize = 0;
    while i < v.len()
        invariant
            i <= v.len(),
            v@ == input@,
            field_scan(input@, i as int, key@, opt_str(found)) == field_scan(input@, 0, key@, None),
        decreases v.len() - i,
    {
        let mut end = i;
        while end < v.len() && v[end] != '\n'
            invariant
                i <= end <= v.len(),
                v@ == input@,
                forall|k: int| i <= k < end ==> v@[k] != '\n',
            decreases v.len() - end,
        {
            end += 1;
        }
        proof {
            assert(is_line_end(input@, i as int, end as int));
            lemma_line_end_unique(input@, i as int, end as int, line_end(input@, i as int));
        }
        let mut stop = end;
        if end < v.len() && stop > i && v[stop - 1] == '\r' {
            stop -= 1;
        }
        if stop > i && v[stop - 1] == '\r' {
            stop -= 1;
        }
        let ghost line = clean_line(input@, i as int, end as int);
        assert(line =~= input@.subrange(i as int, stop as int));
        if stop == i {
            return found;
        }
        let mut k = i;
        while k < stop && v[k] != '='
            invariant
                i <= k <= stop <= v.len(),
                v@ == input@,
                forall|m: int| i <= m < k ==> v@[m] != '=',
            decreases stop - k,
        {
            k += 1;
        }
        if k < stop {
            proof {
                assert(crate::text::is_first_index(line, '=', k - i)) by {
                    assert forall|m: int| 0 <= m < k - i implies line[m] != '=' by {
                        assert(line[m] == v@[i + m]);
                    }
                }
                lemma_split_once_at(line, '=', k - i);
                assert(line.take(k - i) =~= input@.subrange(i as int, k as int));
                assert(line.skip(k - i + 1) =~= input@.subrange(k + 1, stop as int));
            }
            let name = input.substring_char(i, k);
            if str_eq(name, key) {
                found = Some(input.substring_char(k + 1, stop));
            }
        } else {
            assert(!line.contains('=')) by {
                if line.contains('=') {
                    let m = choose|m: int| 0 <= m < line.len() && line[m] == '=';
                    assert(line[m] == v@[i + m]);
                }
            }
        }
        if end == v.len() {
            return found;
        }
        i = end + 1;
    }
    found
}

/// Operations of the Git credential protocol.
pub open spec fn credential_operation(op: Seq<char>) -> bool {
    op == "get"@ || op == "store"@ || op == "erase"@
}

/// Accepts `get`, `store` and `erase`.
pub fn check_credential_operation(operation: &str) -> (r: Result<(), String>)
    ensures
        match r {
            Ok(()) => credential_operation(operation@),
            Err(e) => !credential_operation(operation@) && e@
                == "usage: co git-credential get|store|erase"@,
        },
{
    if str_eq(operation, "get") || str_eq(operation, "store") || str_eq(operation, "erase") {
        Ok(())
    } else {
        Err(owned("usage: co git-credential get|store|erase"))
    }
}

/// Whether the request is one that the session may answer: a `get` in scope.
pub fn wants_session(operation: &str, credential: &GitCredential) -> (r: bool)
    ensures
        r == (operation@ == "get"@ && credential_in_scope(
            opt_str(credential.protocol),
            opt_str(credential.host),
        )),
{
    str_eq(operation, "get") && credential.in_scope()
}

/// The credential response for the session token.
pub open spec fn credential_reply_text(token: Seq<char>) -> Seq<char> {
    "username=co\npassword="@ + token + "\n\n"@
}

/// What the helper writes to Git: the session for an in-scope `get` when
/// signed in, and nothing otherwise.
pub fn credential_reply(
    operation: &str,
    credential: &GitCredential,
    session_token: Option<&str>,
) -> (r: Option<String>)
    ensures
        match r {
            Some(text) => {
                &&& operation@ == "get"@
                &&& credential_in_scope(opt_str(credential.protocol), opt_str(credential.host))
                &&& session_token matches Some(t) && text@ == credential_reply_text(t@)
            },
            None => !(operation@ == "get"@ && credential_in_scope(
                opt_str(credential.protocol),
                opt_str(credential.host),
            ) && session_token is Some),
        },
{
    if !wants_session(operation, credential) {
        return None;
    }
    match session_token {
        Some(token) => Some(token_reply(token)),
        None => None,
    }
}

/// The response that hands Git `token` as the password of user `co`.
pub fn token_reply(token: &str) -> (r: String)
    ensures
        r@ == credential_reply_text(token@),
{
    let mut text = owned("username=co\npassword=");
    append(&mut text, token);
    append(&mut text, "\n\n");
    text
}

/// The response that tells Git to stop asking helpers for this request.
pub open spec fn quit_reply_text() -> Seq<char> {
    "quit=true\n\n"@
}

pub fn quit_reply() -> (r: &'static str)
    ensures
        r@ == quit_reply_text(),
{
    "quit=true\n\n"
}

} // verus!
