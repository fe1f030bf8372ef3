//! Machine enrollment and heartbeats: argument parsing, validation of what
//! the user and the service supply, and what each heartbeat answer means.

use vstd::prelude::*;
use crate::api::is_success;
use crate::cli::args_from;
use crate::config::Config;
use crate::credential::{is_line_end, line_end};
use crate::text::{
    append, chars_match_at, opt_seq, texts, chars_of, chars_start_with, first_word, int_error_message,
    int_error_text, is_ascii_digit, is_ascii_lower, is_whitespace, is_whitespace_char, owned,
    parse_u64, parse_u64_text, slice_string, starts_with, str_eq, trim_bounds, trim_start_text,
    trim_text, utf8_len, utf8_length, utf8_width,
};

verus! {

/// What `co machine` was asked to do.
#[derive(Debug, PartialEq, Eq)]
pub enum MachineRoute {
    Enroll(Vec<String>),
    Heartbeat(String),
    Run(String),
    List,
}

pub open spec fn machine_usage() -> Seq<char> {
    "usage: co machine enroll --setup-key | --owner SLUG --label NAME | co machine list|heartbeat ID|run ID"@
}

/// Dispatches `co machine` arguments.
pub fn route_machine(args: &[String]) -> (r: Result<MachineRoute, String>)
    ensures
        ({
            let a = texts(args@);
            if a.len() >= 1 && a[0] == "enroll"@ {
                r matches Ok(MachineRoute::Enroll(rest)) && texts(rest@) == a.skip(1)
            } else if a.len() == 2 && a[0] == "heartbeat"@ {
                r matches Ok(MachineRoute::Heartbeat(id)) && id@ == a[1]
            } else if a.len() == 2 && a[0] == "run"@ {
                r matches Ok(MachineRoute::Run(id)) && id@ == a[1]
            } else if a.len() == 1 && a[0] == "list"@ {
                r matches Ok(MachineRoute::List)
            } else {
                r matches Err(e) && e@ == machine_usage()
            }
        }),
{
    let n = args.len();
    assert(forall|i: int| 0 <= i < n ==> texts(args@)[i] == (#[trigger] args@[i])@);
    if n >= 1 && str_eq(args[0].as_str(), "enroll") {
        Ok(MachineRoute::Enroll(args_from(args, 1)))
    } else if n == 2 && str_eq(args[0].as_str(), "heartbeat") {
        Ok(MachineRoute::Heartbeat(args[1].clone()))
    } else if n == 2 && str_eq(args[0].as_str(), "run") {
        Ok(MachineRoute::Run(args[1].clone()))
    } else if n == 1 && str_eq(args[0].as_str(), "list") {
        Ok(MachineRoute::List)
    } else {
        Err(
            owned(
                "usage: co machine enroll --setup-key | --owner SLUG --label NAME | co machine list|heartbeat ID|run ID",
            ),
        )
    }
}

pub open spec fn enroll_usage() -> Seq<char> {
    "usage: co machine enroll --setup-key | --owner SLUG --label NAME"@
}

/// How a machine enrolls.
#[derive(Debug, PartialEq, Eq)]
pub enum EnrollMode {
    /// Redeem a setup key read from the terminal or standard input.
    SetupKey,
    /// Register under an owner with the signed-in session.
    SelfRegister { owner: String, label: String },
}

/// The state of an `enroll` argument scan: setup key, owner, label.
pub type EnrollScan = (bool, Option<Seq<char>>, Option<Seq<char>>);

/// Scans `enroll` arguments from position `i`; each option may appear once.
pub open spec fn enroll_scan(args: Seq<Seq<char>>, i: int, st: EnrollScan) -> Result<
    EnrollScan,
    Seq<char>,
>
    decreases args.len() - i,
{
    if i < 0 || i >= args.len() {
        Ok(st)
    } else {
        let a = args[i];
        if a == "--setup-key"@ && !st.0 {
            enroll_scan(args, i + 1, (true, st.1, st.2))
        } else if a == "--owner"@ && st.1 is None {
            if i + 1 >= args.len() {
                Err("--owner requires a slug"@)
            } else {
                enroll_scan(args, i + 2, (st.0, Some(args[i + 1]), st.2))
            }
        } else if a == "--label"@ && st.2 is None {
            if i + 1 >= args.len() {
                Err("--label requires a name"@)
            } else {
                enroll_scan(args, i + 2, (st.0, st.1, Some(args[i + 1])))
            }
        } else {
            Err(enroll_usage())
        }
    }
}

/// Either `--setup-key` alone, or `--owner` with `--label`.
pub open spec fn enroll_result(args: Seq<Seq<char>>) -> Result<
    Option<(Seq<char>, Seq<char>)>,
    Seq<char>,
> {
    match enroll_scan(args, 0, (false, None, None)) {
        Err(e) => Err(e),
        Ok((setup_key, owner, label)) => match (setup_key, owner, label) {
            (true, None, None) => Ok(None),
            (false, Some(o), Some(l)) => Ok(Some((o, l))),
            _ => Err(enroll_usage()),
        },
    }
}

pub open spec fn enroll_mode_view(r: Result<EnrollMode, String>) -> Result<
    Option<(Seq<char>, Seq<char>)>,
    Seq<char>,
> {
    match r {
        Ok(EnrollMode::SetupKey) => Ok(None),
        Ok(EnrollMode::SelfRegister { owner, label }) => Ok(Some((owner@, label@))),
        Err(e) => Err(e@),
    }
}

/// Parses the arguments of `co machine enroll`.
pub fn parse_enroll_args(args: &[String]) -> (r: Result<EnrollMode, String>)
    ensures
        enroll_mode_view(r) == enroll_result(texts(args@)),
{
    let ghost av = texts(args@);
    let mut setup_key = false;
    let mut owner: Option<String> = None;
    let mut label: Option<String> = None;
    let mut index: usize = 0;
    while index < args.len()
        invariant
            index <= args.len(),
            av == texts(args@),
            enroll_scan(av, index as int, (setup_key, opt_seq(owner), opt_seq(label)))
                == enroll_scan(av, 0, (false, None, None)),
        decreases args.len() - index,
    {
        let a = args[index].as_str();
        assert(a@ == av[index as int]);
        if str_eq(a, "--setup-key") && !setup_key {
            setup_key = true;
        } else if str_eq(a, "--owner") && owner.is_none() {
            index += 1;
            if index >= args.len() {
                return Err(owned("--owner requires a slug"));
            }
            assert(args@[index as int]@ == av[index as int]);
            owner = Some(args[index].clone());
        } else if str_eq(a, "--label") && label.is_none() {
            index += 1;
            if index >= args.len() {
                return Err(owned("--label requires a name"));
            }
            assert(args@[index as int]@ == av[index as int]);
            label = Some(args[index].clone());
        } else {
            return Err(owned("usage: co machine enroll --setup-key | --owner SLUG --label NAME"));
        }
        index += 1;
    }
    match (setup_key, owner, label) {
        (true, None, None) => Ok(EnrollMode::SetupKey),
        (false, Some(owner), Some(label)) => Ok(EnrollMode::SelfRegister { owner, label }),
        _ => Err(owned("usage: co machine enroll --setup-key | --owner SLUG --label NAME")),
    }
}

/// A setup key is the entered text without surrounding white space, and
/// starts with `co_setup_`.
pub fn setup_key(raw: &str) -> (r: Result<String, String>)
    ensures
        match r {
            Ok(k) => k@ == trim_text(raw@) && starts_with(k@, "co_setup_"@),
            Err(e) => !starts_with(trim_text(raw@), "co_setup_"@) && e@ == "invalid setup key"@,
        },
{
    let v = chars_of(raw);
    let (from, to) = trim_bounds(&v);
    let key = slice_string(&v, from, to);
    let kv = chars_of(key.as_str());
    let prefix = chars_of("co_setup_");
    if chars_start_with(&kv, &prefix) {
        Ok(key)
    } else {
        Err(owned("invalid setup key"))
    }
}

/// An owner slug for self-registration: lowercase letters, digits and hyphens.
pub open spec fn is_self_register_owner(s: Seq<char>) -> bool {
    s.len() > 0 && forall|i: int|
        0 <= i < s.len() ==> is_ascii_lower(#[trigger] s[i]) || is_ascii_digit(s[i]) || s[i]
            == '-'
}

/// The API path of a self-registration, after checking its owner and label.
pub open spec fn self_registration_result(owner: Seq<char>, label: Seq<char>) -> Result<
    Seq<char>,
    Seq<char>,
> {
    if !is_self_register_owner(owner) {
        Err("owner must be a lowercase slug"@)
    } else if trim_text(label).len() == 0 || utf8_len(label) > 80 {
        Err("label must be 1-80 characters"@)
    } else {
        Ok("/machines/owners/"@ + owner + "/self-register"@)
    }
}

pub fn validate_self_registration(owner: &str, label: &str) -> (r: Result<String, String>)
    requires
        label@.len() <= u64::MAX / 4,
    ensures
        match r {
            Ok(path) => self_registration_result(owner@, label@) == Ok::<Seq<char>, Seq<char>>(
                path@,
            ),
            Err(e) => self_registration_result(owner@, label@) == Err::<Seq<char>, Seq<char>>(
                e@,
            ),
        },
{
    let o = chars_of(owner);
    let mut ok = o.len() > 0;
    let mut i: usize = 0;
    while ok && i < o.len()
        invariant
            i <= o.len(),
            o@ == owner@,
            ok ==> o.len() > 0,
            ok ==> forall|j: int|
                0 <= j < i ==> is_ascii_lower(#[trigger] o@[j]) || is_ascii_digit(o@[j]) || o@[j]
                    == '-',
            !ok ==> !is_self_register_owner(owner@),
        decreases o.len() - i,
    {
        let c = o[i];
        if !(('a' <= c && c <= 'z') || ('0' <= c && c <= '9') || c == '-') {
            ok = false;
        }
        i += 1;
    }
    if !ok {
        return Err(owned("owner must be a lowercase slug"));
    }
    let l = chars_of(label);
    let (from, to) = trim_bounds(&l);
    if from == to || utf8_length(&l) > 80 {
        return Err(owned("label must be 1-80 characters"));
    }
    let mut path = owned("/machines/owners/");
    append(&mut path, owner);
    append(&mut path, "/self-register");
    Ok(path)
}

/// Rejects resources beyond what the service supports.
pub fn check_resources(vcpus: usize, ram_mib: u64) -> (r: Result<(), String>)
    ensures
        match r {
            Ok(()) => vcpus <= 1024 && ram_mib <= 16_777_216,
            Err(e) => !(vcpus <= 1024 && ram_mib <= 16_777_216) && e@
                == "detected resources exceed supported limits"@,
        },
{
    if vcpus > 1024 || ram_mib > 16_777_216 {
        Err(owned("detected resources exceed supported limits"))
    } else {
        Ok(())
    }
}

/// The first word after `MemTotal:` on the first line that has one.
pub open spec fn meminfo_scan(s: Seq<char>, i: int) -> Option<Seq<char>>
    decreases s.len() - i,
{
    if i < 0 || i >= s.len() {
        None
    } else {
        let end = line_end(s, i);
        let line = s.subrange(i, end);
        let found = if starts_with(line, "MemTotal:"@) {
            first_word(line.skip(9))
        } else {
            None
        };
        if !(i <= end <= s.len()) {
            None
        } else if found is Some {
            found
        } else if end >= s.len() {
            None
        } else {
            meminfo_scan(s, end + 1)
        }
    }
}

/// `u64::div_ceil(n, d)`.
pub open spec fn div_ceil(n: int, d: int) -> int {
    (n + d - 1) / d
}

/// Total RAM in MiB from `/proc/meminfo`, which gives it in KiB.
pub open spec fn meminfo_ram_result(text: Seq<char>) -> Result<u64, Seq<char>> {
    match meminfo_scan(text, 0) {
        None => Err("unable to detect total RAM"@),
        Some(word) => match parse_u64_text(word) {
            Err(e) => Err("invalid total RAM: "@ + int_error_text(e)),
            Ok(kib) => Ok(div_ceil(kib as int, 1024) as u64),
        },
    }
}

fn first_word_of(v: &[char], from: usize, to: usize) -> (r: Option<(usize, usize)>)
    requires
        from <= to <= v.len(),
    ensures
        match r {
            Some((a, b)) => from <= a <= b <= to && first_word(v@.subrange(from as int, to as int))
                == Some(v@.subrange(a as int, b as int)),
            None => first_word(v@.subrange(from as int, to as int)) is None,
        },
{
    let ghost s = v@.subrange(from as int, to as int);
    let mut a = from;
    while a < to && is_whitespace_char(v[a])
        invariant
            from <= a <= to <= v.len(),
            s == v@.subrange(from as int, to as int),
            trim_start_text(v@.subrange(a as int, to as int)) == trim_start_text(s),
        decreases to - a,
    {
        assert(v@.subrange(a as int, to as int).drop_first() =~= v@.subrange(a + 1, to as int));
        a += 1;
    }
    let ghost t = v@.subrange(a as int, to as int);
    assert(trim_start_text(t) == t);
    if a == to {
        return None;
    }
    let mut b = a;
    while b < to && !is_whitespace_char(v[b])
        invariant
            a <= b <= to <= v.len(),
            t == v@.subrange(a as int, to as int),
            forall|m: int| 0 <= m < b - a ==> !is_whitespace(#[trigger] t[m]),
        decreases to - b,
    {
        b += 1;
    }
    proof {
        if b < to {
            let k = b - a;
            assert(is_whitespace(t[k]));
            let c = choose|c: int|
                0 <= c < t.len() && is_whitespace(t[c]) && forall|m: int|
                    0 <= m < c ==> !is_whitespace(#[trigger] t[m]);
            if c < k {
                assert(!is_whitespace(t[c]));
            }
            if k < c {
                assert(!is_whitespace(t[k]));
            }
            assert(t.take(k) =~= v@.subrange(a as int, b as int));
        } else {
            assert(t =~= v@.subrange(a as int, b as int));
        }
    }
    Some((a, b))
}

/// Total RAM in MiB from the text of `/proc/meminfo`.
pub fn ram_mib_from_meminfo(text: &str) -> (r: Result<u64, String>)
    ensures
        match r {
            Ok(mib) => meminfo_ram_result(text@) == Ok::<u64, Seq<char>>(mib),
            Err(e) => meminfo_ram_result(text@) == Err::<u64, Seq<char>>(e@),
        },
{
    let v = chars_of(text);
    let prefix = chars_of("MemTotal:");
    proof {
        reveal_strlit("MemTotal:");
    }
    assert(prefix@.len() == 9);
    let mut i: usize = 0;
    let mut word: Option<(usize, usize)> = None;
    while i < v.len()
        invariant_except_break
            word is None,
        invariant
            i <= v.len(),
            v@ == text@,
            prefix@ == "MemTotal:"@,
            meminfo_scan(text@, i as int) == meminfo_scan(text@, 0),
        ensures
            match word {
                Some((a, b)) => a <= b <= v.len() && meminfo_scan(text@, 0) == Some(
                    v@.subrange(a as int, b as int),
                ),
                None => meminfo_scan(text@, 0) is None,
            },
        decreases v.len() - i,
    {
        let mut end = i;
        while end < v.len() && v[end] != '\n'
            invariant
                i <= end <= v.len(),
                v@ == text@,
                forall|k: int| i <= k < end ==> v@[k] != '\n',
            decreases v.len() - end,
        {
            end += 1;
        }
        proof {
            reveal_strlit("MemTotal:");
            assert(is_line_end(text@, i as int, end as int));
            let e2 = line_end(text@, i as int);
            if e2 < end {
                assert(text@[e2] != '\n');
            } else if end < e2 {
                assert(text@[end as int] != '\n');
            }
        }
        let ghost line = text@.subrange(i as int, end as int);
        let mut found: Option<(usize, usize)> = None;
        if end - i >= 9 && chars_match_at(&v, &prefix, i) {
            assert(line.take(9) =~= v@.subrange(i as int, i + 9));
            assert(line.skip(9) =~= v@.subrange(i + 9, end as int));
            found = first_word_of(&v, i + 9, end);
        } else {
            proof {
                if starts_with(line, "MemTotal:"@) {
                    assert(v@.subrange(i as int, i + 9) =~= line.take(9));
                }
            }
        }
        if found.is_some() {
            word = found;
            break;
        }
        if end == v.len() {
            break;
        }
        i = end + 1;
    }
    match word {
        None => Err(owned("unable to detect total RAM")),
        Some((a, b)) => {
            let w = slice_string(&v, a, b);
            match parse_u64(w.as_str()) {
                Err(e) => {
                    let mut m = owned("invalid total RAM: ");
                    let detail = int_error_message(e);
                    append(&mut m, detail.as_str());
                    Err(m)
                },
                Ok(kib) => {
                    let mib = kib / 1024 + if kib % 1024 != 0 {
                        1
                    } else {
                        0
                    };
                    assert(mib == div_ceil(kib as int, 1024));
                    Ok(mib)
                },
            }
        },
    }
}

/// Total RAM in MiB from the byte count that `sysctl -n hw.memsize` prints.
pub open spec fn memsize_ram_result(text: Seq<char>) -> Result<u64, Seq<char>> {
    match parse_u64_text(trim_text(text)) {
        Err(e) => Err("invalid total RAM: "@ + int_error_text(e)),
        Ok(bytes) => Ok(div_ceil(bytes as int, 1048576int) as u64),
    }
}

pub fn ram_mib_from_memsize(text: &str) -> (r: Result<u64, String>)
    ensures
        match r {
            Ok(mib) => memsize_ram_result(text@) == Ok::<u64, Seq<char>>(mib),
            Err(e) => memsize_ram_result(text@) == Err::<u64, Seq<char>>(e@),
        },
{
    let v = chars_of(text);
    let (from, to) = trim_bounds(&v);
    let t = slice_string(&v, from, to);
    match parse_u64(t.as_str()) {
        Err(e) => {
            let mut m = owned("invalid total RAM: ");
            let detail = int_error_message(e);
            append(&mut m, detail.as_str());
            Err(m)
        },
        Ok(bytes) => {
            let mib = bytes / 1048576 + if bytes % 1048576 != 0 {
                1
            } else {
                0
            };
            assert(mib == div_ceil(bytes as int, 1048576int));
            Ok(mib)
        },
    }
}

/// An enrollment answer is usable when its scope is `owner` or `public`, its
/// credential is a runner credential and it names the machine.
pub open spec fn valid_enrollment(machine_id: Seq<char>, scope: Seq<char>, credential: Seq<char>) -> bool {
    &&& scope == "owner"@ || scope == "public"@
    &&& starts_with(credential, "co_runner_"@)
    &&& machine_id.len() > 0
}

pub fn check_enrollment(machine_id: &str, scope: &str, credential: &str) -> (r: Result<(), String>)
    ensures
        match r {
            Ok(()) => valid_enrollment(machine_id@, scope@, credential@),
            Err(e) => !valid_enrollment(machine_id@, scope@, credential@) && e@
                == "invalid enrollment response"@,
        },
{
    let cv = chars_of(credential);
    let prefix = chars_of("co_runner_");
    if !(str_eq(scope, "owner") || str_eq(scope, "public")) || !chars_start_with(&cv, &prefix)
        || chars_of(machine_id).len() == 0 {
        Err(owned("invalid enrollment response"))
    } else {
        Ok(())
    }
}

/// Why a heartbeat failed: permanently (stop), or temporarily (retry).
#[derive(Debug, PartialEq, Eq)]
pub enum HeartbeatError {
    Permanent(String),
    Temporary(String),
}

/// The enrolled machine a heartbeat is for: it must be enrolled, and against
/// the API that is selected now.
pub fn heartbeat_target(config: &Config, id: &str, selected_api: &str) -> (r: Result<
    usize,
    HeartbeatError,
>)
    ensures
        match r {
            Ok(i) => i < config.machines@.len() && config.machines@[i as int].id@ == id@
                && config.machines@[i as int].api_url@ == selected_api@ && forall|j: int|
                0 <= j < i ==> (#[trigger] config.machines@[j]).id@ != id@,
            Err(HeartbeatError::Permanent(e)) => {
                ||| (forall|j: int|
                    0 <= j < config.machines@.len() ==> (#[trigger] config.machines@[j]).id@
                        != id@) && e@ == "machine is not enrolled in this CLI configuration"@
                ||| (exists|i: int|
                    0 <= i < config.machines@.len() && config.machines@[i].id@ == id@
                        && config.machines@[i].api_url@ != selected_api@ && forall|j: int|
                        0 <= j < i ==> (#[trigger] config.machines@[j]).id@ != id@) && e@
                    == "machine was enrolled against a different API; select that API before running it"@
            },
            Err(HeartbeatError::Temporary(_)) => false,
        },
{
    match crate::config::find_machine(config, id) {
        None => Err(
            HeartbeatError::Permanent(owned("machine is not enrolled in this CLI configuration")),
        ),
        Some(i) => {
            if !str_eq(selected_api, config.machines[i].api_url.as_str()) {
                Err(
                    HeartbeatError::Permanent(
                        owned(
                            "machine was enrolled against a different API; select that API before running it",
                        ),
                    ),
                )
            } else {
                Ok(i)
            }
        },
    }
}

/// What a heartbeat answer with the given status (and its text, such as
/// `500 Internal Server Error`) means.
pub fn heartbeat_outcome(status: u16, status_text: &str) -> (r: Result<(), HeartbeatError>)
    ensures
        is_success(status) ==> r is Ok,
        !is_success(status) && status == 401 ==> (r matches Err(HeartbeatError::Permanent(e))
            && e@ == "machine credential revoked or unavailable; enroll again"@),
        !is_success(status) && status != 401 && (500 <= status <= 599 || status == 429) ==> (
        r matches Err(HeartbeatError::Temporary(e)) && e@ == "machine heartbeat failed (HTTP "@
            + status_text@ + seq![')']),
        !is_success(status) && status != 401 && !(500 <= status <= 599 || status == 429) ==> (
        r matches Err(HeartbeatError::Permanent(e)) && e@ == "machine heartbeat failed (HTTP "@
            + status_text@ + seq![')']),
{
    if 200 <= status && status <= 299 {
        return Ok(());
    }
    if status == 401 {
        return Err(
            HeartbeatError::Permanent(owned("machine credential revoked or unavailable; enroll again")),
        );
    }
    let mut e = owned("machine heartbeat failed (HTTP ");
    append(&mut e, status_text);
    e.push(')');
    if (500 <= status && status <= 599) || status == 429 {
        Err(HeartbeatError::Temporary(e))
    } else {
        Err(HeartbeatError::Permanent(e))
    }
}

/// The message of a heartbeat error, whatever its kind.
pub fn heartbeat_message(error: HeartbeatError) -> (r: String)
    ensures
        match error {
            HeartbeatError::Permanent(m) => r == m,
            HeartbeatError::Temporary(m) => r == m,
        },
{
    match error {
        HeartbeatError::Permanent(m) => m,
        HeartbeatError::Temporary(m) => m,
    }
}

} // verus!
