//! Running assigned jobs: which assignments are trusted, the commands that
//! check out and run them, and how their logs and results are reported.

use base64::Engine;
use vstd::prelude::*;
use crate::text::{
    append, chars_contain, chars_end_with, chars_of, contains_text, decimal_text, ends_with,
    is_control, is_lower_hex_digit, opt_seq, owned, push_decimal, str_eq, texts, utf8_len,
    utf8_width,
};

verus! {

/// One step of a job.
pub struct Step {
    pub name: String,
    pub run: String,
}

/// A job assigned to this machine.
pub struct Assignment {
    pub id: String,
    pub assignment_token: String,
    pub checkout_url: String,
    pub commit_oid: String,
    pub steps: Vec<Step>,
    pub vcpus: u32,
    pub ram_mib: u32,
}

/// The reported result of one step.
pub struct StepResult {
    pub name: String,
    pub exit_code: i32,
    pub output: String,
}

/// The parts of a URL that decide whether it is trusted.
pub struct UrlParts {
    pub scheme: String,
    pub host: Option<String>,
    pub path: String,
    pub query: Option<String>,
    pub fragment: Option<String>,
    pub username: String,
    pub password: Option<String>,
}

/// Scheme, host, path, query, fragment, username and password of a URL.
pub type UrlView = (
    Seq<char>,
    Option<Seq<char>>,
    Seq<char>,
    Option<Seq<char>>,
    Option<Seq<char>>,
    Seq<char>,
    Option<Seq<char>>,
);

impl UrlParts {
    pub open spec fn view_tuple(&self) -> UrlView {
        (
            self.scheme@,
            opt_seq(self.host),
            self.path@,
            opt_seq(self.query),
            opt_seq(self.fragment),
            self.username@,
            opt_seq(self.password),
        )
    }
}

/// What the WHATWG URL parser of the `url` crate makes of a text.
pub uninterp spec fn url_parse(text: Seq<char>) -> Option<UrlView>;

/// `reqwest::Url::parse` (the `url` crate's `Url::parse`), read back through
/// its `scheme`, `host_str`, `path`, `query`, `fragment`, `username` and
/// `password` accessors. The contract names the parse; it states nothing of
/// how URLs are parsed.
#[verifier::external_body]
fn parse_url(text: &str) -> (r: Option<UrlParts>)
    ensures
        r matches Some(p) ==> url_parse(text@) == Some(p.view_tuple()),
        r is None ==> url_parse(text@) is None,
{
    let u = reqwest::Url::parse(text).ok()?;
    Some(UrlParts {
        scheme: u.scheme().to_owned(),
        host: u.host_str().map(str::to_owned),
        path: u.path().to_owned(),
        query: u.query().map(str::to_owned),
        fragment: u.fragment().map(str::to_owned),
        username: u.username().to_owned(),
        password: u.password().map(str::to_owned),
    })
}

/// The API runs on this machine: its host is `127.0.0.1`, `localhost` or a
/// subdomain of `localhost`.
pub open spec fn local_api(api_url: Seq<char>) -> bool {
    match url_parse(api_url) {
        Some(u) => match u.1 {
            Some(host) => host == "127.0.0.1"@ || host == "localhost"@ || ends_with(
                host,
                ".localhost"@,
            ),
            None => false,
        },
        None => false,
    }
}

/// Where checkouts may come from: the Git host over HTTPS, or a local
/// origin over HTTP when the API itself is local.
pub open spec fn trusted_origin(u: UrlView, api_url: Seq<char>) -> bool {
    ||| u.0 == "https"@ && (u.1 == Some("git.co.codes"@) || u.1 == Some("co.codes"@))
    ||| local_api(api_url) && u.0 == "http"@ && (u.1 == Some("127.0.0.1"@) || u.1 == Some(
        "localhost"@,
    ))
}

/// A full commit ID: 40 to 64 lowercase hexadecimal digits.
pub open spec fn full_commit_oid(oid: Seq<char>) -> bool {
    40 <= oid.len() <= 64 && forall|i: int| 0 <= i < oid.len() ==> is_lower_hex_digit(#[trigger] oid[i])
}

/// An assignment this machine will run.
pub open spec fn valid_job_spec(job: Assignment, api_url: Seq<char>) -> bool {
    match url_parse(job.checkout_url@) {
        None => false,
        Some(u) => {
            &&& trusted_origin(u, api_url)
            &&& ends_with(u.2, ".git"@)
            &&& u.3 is None
            &&& u.4 is None
            &&& u.5.len() == 0
            &&& u.6 is None
            &&& full_commit_oid(job.commit_oid@)
            &&& job.vcpus > 0
            &&& job.ram_mib > 0
            &&& job.assignment_token@.len() > 0
            &&& job.steps@.len() <= 20
        },
    }
}

fn opt_str_is(o: &Option<String>, text: &str) -> (r: bool)
    ensures
        r == (opt_seq(*o) == Some(text@)),
{
    match o {
        Some(s) => str_eq(s.as_str(), text),
        None => false,
    }
}

fn is_local_api(api_url: &str) -> (r: bool)
    ensures
        r == local_api(api_url@),
{
    match parse_url(api_url) {
        Some(u) => match &u.host {
            Some(h) => {
                let hv = chars_of(h.as_str());
                let suffix = chars_of(".localhost");
                str_eq(h.as_str(), "127.0.0.1") || str_eq(h.as_str(), "localhost")
                    || chars_end_with(&hv, &suffix)
            },
            None => false,
        },
        None => false,
    }
}

/// Whether `oid` is a full commit ID.
pub fn is_full_commit_oid(oid: &str) -> (r: bool)
    ensures
        r == full_commit_oid(oid@),
{
    let v = chars_of(oid);
    if v.len() < 40 || v.len() > 64 {
        return false;
    }
    let mut i: usize = 0;
    while i < v.len()
        invariant
            i <= v.len(),
            v@ == oid@,
            forall|j: int| 0 <= j < i ==> is_lower_hex_digit(#[trigger] v@[j]),
        decreases v.len() - i,
    {
        let c = v[i];
        if !(('0' <= c && c <= '9') || ('a' <= c && c <= 'f')) {
            return false;
        }
        i += 1;
    }
    true
}

/// Whether this machine may run the assignment: a trusted checkout origin,
/// a plain repository URL without credentials, an exact commit, resources,
/// a token and at most 20 steps.
pub fn valid_job(job: &Assignment, api_url: &str) -> (r: bool)
    ensures
        r == valid_job_spec(*job, api_url@),
{
    let u = match parse_url(job.checkout_url.as_str()) {
        Some(u) => u,
        None => {
            return false;
        },
    };
    let local = is_local_api(api_url);
    let https = str_eq(u.scheme.as_str(), "https");
    let http = str_eq(u.scheme.as_str(), "http");
    let trusted = (https && (opt_str_is(&u.host, "git.co.codes") || opt_str_is(
        &u.host,
        "co.codes",
    ))) || (local && http && (opt_str_is(&u.host, "127.0.0.1") || opt_str_is(
        &u.host,
        "localhost",
    )));
    let path = chars_of(u.path.as_str());
    let git = chars_of(".git");
    trusted && chars_end_with(&path, &git) && u.query.is_none() && u.fragment.is_none()
        && chars_of(u.username.as_str()).len() == 0 && u.password.is_none() && is_full_commit_oid(
        job.commit_oid.as_str(),
    ) && job.vcpus > 0 && job.ram_mib > 0 && chars_of(job.assignment_token.as_str()).len() > 0
        && job.steps.len() <= 20
}

/// What the standard Base64 alphabet, with padding, makes of the UTF-8 bytes of a text.
pub uninterp spec fn base64_standard_text(text: Seq<char>) -> Seq<char>;

/// `base64::engine::general_purpose::STANDARD.encode` of the text's bytes.
/// The length bound keeps the encoder's size computation from overflowing,
/// where it would panic.
#[verifier::external_body]
fn base64_standard(text: &str) -> (r: String)
    requires
        text@.len() <= usize::MAX / 8,
    ensures
        r@ == base64_standard_text(text@),
{
    base64::engine::general_purpose::STANDARD.encode(text)
}

/// The commands that fetch the exact commit of an assignment.
pub struct CheckoutPlan {
    /// `git` arguments that clone without checking out.
    pub clone_args: Vec<String>,
    /// The environment of the clone, which carries the assignment token in a header.
    pub clone_env: Vec<(String, String)>,
    /// `git` arguments that check out the commit, detached.
    pub checkout_args: Vec<String>,
    /// The environment of the checkout, which carries no token.
    pub checkout_env: Vec<(String, String)>,
}

/// The header that authenticates the clone with the assignment token.
pub open spec fn checkout_auth_header(token: Seq<char>) -> Seq<char> {
    "Authorization: Basic "@ + base64_standard_text("co:"@ + token)
}

pub open spec fn env_texts(v: Seq<(String, String)>) -> Seq<(Seq<char>, Seq<char>)> {
    v.map_values(|p: (String, String)| (p.0@, p.1@))
}

pub open spec fn checkout_plan_ok(job: Assignment, plan: CheckoutPlan) -> bool {
    &&& texts(plan.clone_args@) == seq![
        "clone"@,
        "--no-checkout"@,
        "--"@,
        job.checkout_url@,
        "source"@,
    ]
    &&& env_texts(plan.clone_env@) == seq![
        ("GIT_TERMINAL_PROMPT"@, "0"@),
        ("GIT_CONFIG_NOSYSTEM"@, "1"@),
        ("GIT_CONFIG_GLOBAL"@, "/dev/null"@),
        ("GIT_CONFIG_COUNT"@, "1"@),
        ("GIT_CONFIG_KEY_0"@, "http.extraHeader"@),
        ("GIT_CONFIG_VALUE_0"@, checkout_auth_header(job.assignment_token@)),
    ]
    &&& texts(plan.checkout_args@) == seq![
        "-C"@,
        "source"@,
        "checkout"@,
        "--detach"@,
        job.commit_oid@,
    ]
    &&& env_texts(plan.checkout_env@) == seq![
        ("GIT_CONFIG_NOSYSTEM"@, "1"@),
        ("GIT_CONFIG_GLOBAL"@, "/dev/null"@),
    ]
}

fn pair(a: &str, b: String) -> (r: (String, String))
    ensures
        r.0@ == a@,
        r.1 == b,
{
    (owned(a), b)
}

/// The checkout commands of an assignment, which must be valid.
pub fn checkout_plan(job: &Assignment, api_url: &str) -> (r: Result<CheckoutPlan, String>)
    requires
        job.assignment_token@.len() + 3 <= usize::MAX / 8,
    ensures
        match r {
            Ok(plan) => valid_job_spec(*job, api_url@) && checkout_plan_ok(*job, plan),
            Err(e) => !valid_job_spec(*job, api_url@) && e@ == "invalid job assignment"@,
        },
{
    if !valid_job(job, api_url) {
        return Err(owned("invalid job assignment"));
    }
    let mut credentials = owned("co:");
    append(&mut credentials, job.assignment_token.as_str());
    proof {
        reveal_strlit("co:");
    }
    let mut header = owned("Authorization: Basic ");
    let encoded = base64_standard(credentials.as_str());
    append(&mut header, encoded.as_str());
    let mut clone_args: Vec<String> = Vec::new();
    clone_args.push(owned("clone"));
    clone_args.push(owned("--no-checkout"));
    clone_args.push(owned("--"));
    clone_args.push(job.checkout_url.clone());
    clone_args.push(owned("source"));
    let mut clone_env: Vec<(String, String)> = Vec::new();
    clone_env.push(pair("GIT_TERMINAL_PROMPT", owned("0")));
    clone_env.push(pair("GIT_CONFIG_NOSYSTEM", owned("1")));
    clone_env.push(pair("GIT_CONFIG_GLOBAL", owned("/dev/null")));
    clone_env.push(pair("GIT_CONFIG_COUNT", owned("1")));
    clone_env.push(pair("GIT_CONFIG_KEY_0", owned("http.extraHeader")));
    clone_env.push(pair("GIT_CONFIG_VALUE_0", header));
    let mut checkout_args: Vec<String> = Vec::new();
    checkout_args.push(owned("-C"));
    checkout_args.push(owned("source"));
    checkout_args.push(owned("checkout"));
    checkout_args.push(owned("--detach"));
    checkout_args.push(job.commit_oid.clone());
    let mut checkout_env: Vec<(String, String)> = Vec::new();
    checkout_env.push(pair("GIT_CONFIG_NOSYSTEM", owned("1")));
    checkout_env.push(pair("GIT_CONFIG_GLOBAL", owned("/dev/null")));
    let plan = CheckoutPlan { clone_args, clone_env, checkout_args, checkout_env };
    assert(texts(plan.clone_args@) =~= seq![
        "clone"@,
        "--no-checkout"@,
        "--"@,
        job.checkout_url@,
        "source"@,
    ]);
    assert(env_texts(plan.clone_env@) =~= seq![
        ("GIT_TERMINAL_PROMPT"@, "0"@),
        ("GIT_CONFIG_NOSYSTEM"@, "1"@),
        ("GIT_CONFIG_GLOBAL"@, "/dev/null"@),
        ("GIT_CONFIG_COUNT"@, "1"@),
        ("GIT_CONFIG_KEY_0"@, "http.extraHeader"@),
        ("GIT_CONFIG_VALUE_0"@, checkout_auth_header(job.assignment_token@)),
    ]);
    assert(texts(plan.checkout_args@) =~= seq![
        "-C"@,
        "source"@,
        "checkout"@,
        "--detach"@,
        job.commit_oid@,
    ]);
    assert(env_texts(plan.checkout_env@) =~= seq![
        ("GIT_CONFIG_NOSYSTEM"@, "1"@),
        ("GIT_CONFIG_GLOBAL"@, "/dev/null"@),
    ]);
    Ok(plan)
}

/// The container that runs step `index` of a job.
pub open spec fn container_name(job_id: Seq<char>, index: u64) -> Seq<char> {
    "co-"@ + job_id + seq!['-'] + decimal_text(index as nat)
}

pub fn step_container_name(job: &Assignment, index: u64) -> (r: String)
    ensures
        r@ == container_name(job.id@, index),
{
    let mut name = owned("co-");
    append(&mut name, job.id.as_str());
    name.push('-');
    push_decimal(&mut name, index);
    name
}

/// The `podman` arguments that run one step: no network, a read-only root,
/// no capabilities, the job's CPU and memory, and only the checkout mounted.
pub open spec fn step_args_text(
    image: Seq<char>,
    directory: Seq<char>,
    run: Seq<char>,
    container: Seq<char>,
    ram_mib: u32,
    vcpus: u32,
) -> Seq<Seq<char>> {
    seq![
        "run"@,
        "--rm"@,
        "--pull=never"@,
        "--name"@,
        container,
        "--network=none"@,
        "--read-only"@,
        "--cap-drop=ALL"@,
        "--security-opt=no-new-privileges"@,
        "--pids-limit=256"@,
        "--userns=keep-id"@,
        "--tmpfs=/tmp:rw,nosuid,nodev,size=64m"@,
        "--workdir=/workspace"@,
        "--env=HOME=/tmp"@,
        "--env=PATH=/usr/local/bin:/usr/bin:/bin"@,
        "--memory="@ + decimal_text(ram_mib as nat) + seq!['m'],
        "--cpus="@ + decimal_text(vcpus as nat),
        "--volume="@ + directory + ":/workspace:rw,Z"@,
        image,
        "sh"@,
        "-e"@,
        "-c"@,
        run,
    ]
}

pub fn step_command_args(
    image: &str,
    directory: &str,
    step: &Step,
    job: &Assignment,
    index: u64,
) -> (r: Vec<String>)
    ensures
        texts(r@) == step_args_text(
            image@,
            directory@,
            step.run@,
            container_name(job.id@, index),
            job.ram_mib,
            job.vcpus,
        ),
{
    let container = step_container_name(job, index);
    let mut memory = owned("--memory=");
    push_decimal(&mut memory, job.ram_mib as u64);
    memory.push('m');
    let mut cpus = owned("--cpus=");
    push_decimal(&mut cpus, job.vcpus as u64);
    let mut volume = owned("--volume=");
    append(&mut volume, directory);
    append(&mut volume, ":/workspace:rw,Z");
    assert(memory@ =~= "--memory="@ + decimal_text(job.ram_mib as nat) + seq!['m']);
    let mut args: Vec<String> = Vec::new();
    args.push(owned("run"));
    args.push(owned("--rm"));
    args.push(owned("--pull=never"));
    args.push(owned("--name"));
    args.push(container);
    args.push(owned("--network=none"));
    args.push(owned("--read-only"));
    args.push(owned("--cap-drop=ALL"));
    args.push(owned("--security-opt=no-new-privileges"));
    args.push(owned("--pids-limit=256"));
    args.push(owned("--userns=keep-id"));
    args.push(owned("--tmpfs=/tmp:rw,nosuid,nodev,size=64m"));
    args.push(owned("--workdir=/workspace"));
    args.push(owned("--env=HOME=/tmp"));
    args.push(owned("--env=PATH=/usr/local/bin:/usr/bin:/bin"));
    args.push(memory);
    args.push(cpus);
    args.push(volume);
    args.push(owned(image));
    args.push(owned("sh"));
    args.push(owned("-e"));
    args.push(owned("-c"));
    args.push(step.run.clone());
    assert(texts(args@) =~= step_args_text(
        image@,
        directory@,
        step.run@,
        container_name(job.id@, index),
        job.ram_mib,
        job.vcpus,
    ));
    args
}

/// The `podman` arguments that stop a step's container at once.
pub fn stop_container_args(container: &str) -> (r: Vec<String>)
    ensures
        texts(r@) == seq!["stop"@, "--time=0"@, container@],
{
    let mut args: Vec<String> = Vec::new();
    args.push(owned("stop"));
    args.push(owned("--time=0"));
    args.push(owned(container));
    assert(texts(args@) =~= seq!["stop"@, "--time=0"@, container@]);
    args
}

/// How many leading characters of `s` fit in `limit` bytes of UTF-8.
pub open spec fn fitting_chars(s: Seq<char>, limit: int) -> nat
    decreases s.len(),
{
    if s.len() == 0 || utf8_width(s[0]) > limit {
        0
    } else {
        1 + fitting_chars(s.drop_first(), limit - utf8_width(s[0]))
    }
}

/// The longest prefix of `s` whose UTF-8 encoding fits in `limit` bytes.
pub open spec fn fitting_prefix(s: Seq<char>, limit: int) -> Seq<char> {
    s.take(fitting_chars(s, limit) as int)
}

fn char_width(c: char) -> (w: usize)
    ensures
        w == utf8_width(c),
{
    if c <= '\u{7f}' {
        1
    } else if c <= '\u{7ff}' {
        2
    } else if c <= '\u{ffff}' {
        3
    } else {
        4
    }
}

/// The number of leading characters of `v` that fit in `limit` bytes, and their byte length.
fn fitting(v: &[char], limit: usize) -> (r: (usize, usize))
    ensures
        r.0 == fitting_chars(v@, limit as int),
        r.0 <= v.len(),
        r.1 <= limit,
        r.1 == utf8_len(v@.take(r.0 as int)),
{
    let mut i: usize = 0;
    let mut used: usize = 0;
    assert(v@.skip(0) =~= v@);
    while i < v.len() && char_width(v[i]) <= limit - used
        invariant
            i <= v.len(),
            used <= limit,
            used == utf8_len(v@.take(i as int)),
            fitting_chars(v@, limit as int) == i + fitting_chars(v@.skip(i as int), limit - used),
        decreases v.len() - i,
    {
        assert(v@.skip(i as int).drop_first() =~= v@.skip(i + 1));
        assert(v@.take(i + 1).drop_last() =~= v@.take(i as int));
        used = used + char_width(v[i]);
        i += 1;
    }
    (i, used)
}

/// The log of a step: standard output cut to 512 bytes, then standard error
/// cut to what is left of 1024 bytes, each at a character boundary.
pub open spec fn step_output_text(stdout: Seq<char>, stderr: Seq<char>) -> Seq<char> {
    let out = fitting_prefix(stdout, 512);
    out + fitting_prefix(stderr, 1024 - utf8_len(out))
}

pub fn combine_step_output(stdout: &str, stderr: &str) -> (r: String)
    ensures
        r@ == step_output_text(stdout@, stderr@),
{
    let out = chars_of(stdout);
    let err = chars_of(stderr);
    let (n_out, used) = fitting(&out, 512);
    let (n_err, _) = fitting(&err, 1024 - used);
    let mut r = crate::text::slice_string(&out, 0, n_out);
    let tail = crate::text::slice_string(&err, 0, n_err);
    append(&mut r, tail.as_str());
    assert(out@.subrange(0, n_out as int) =~= fitting_prefix(stdout@, 512));
    assert(err@.subrange(0, n_err as int) =~= fitting_prefix(stderr@, 1024 - utf8_len(
        fitting_prefix(stdout@, 512),
    )));
    r
}

/// A character that step logs keep: not a control character, except newline and tab.
pub open spec fn printable(c: char) -> bool {
    !is_control(c) || c == '\n' || c == '\t'
}

/// A step log without control characters other than newline and tab.
pub fn keep_printable(text: &str) -> (r: String)
    ensures
        r@ == text@.filter(|c: char| printable(c)),
{
    let v = chars_of(text);
    let ghost pred = |c: char| printable(c);
    let mut r = String::new();
    let mut i: usize = 0;
    while i < v.len()
        invariant
            i <= v.len(),
            v@ == text@,
            pred == (|c: char| printable(c)),
            r@ == v@.take(i as int).filter(pred),
        decreases v.len() - i,
    {
        let c = v[i];
        assert(v@.take(i + 1).drop_last() =~= v@.take(i as int));
        reveal(Seq::filter);
        if !(c <= '\u{1f}' || ('\u{7f}' <= c && c <= '\u{9f}')) || c == '\n' || c == '\t' {
            r.push(c);
        }
        i += 1;
    }
    assert(v@.take(v.len() as int) =~= v@);
    r
}

/// How many bytes of a read to keep when `kept` bytes are kept already: at
/// most 2048 in all.
pub fn bytes_to_keep(kept: usize, count: usize) -> (r: usize)
    requires
        kept <= 2048,
    ensures
        r == if count < 2048 - kept {
            count as int
        } else {
            2048 - kept
        },
{
    if count < 2048 - kept {
        count
    } else {
        2048 - kept
    }
}

/// A job succeeds when it was not cancelled, every step ran, and every step exited 0.
pub open spec fn job_success(cancelled: bool, results: Seq<StepResult>, step_count: int) -> bool {
    &&& !cancelled
    &&& results.len() == step_count
    &&& forall|i: int| 0 <= i < results.len() ==> (#[trigger] results[i]).exit_code == 0
}

pub fn job_succeeded(cancelled: bool, results: &[StepResult], step_count: usize) -> (r: bool)
    ensures
        r == job_success(cancelled, results@, step_count as int),
{
    if cancelled || results.len() != step_count {
        return false;
    }
    let mut i: usize = 0;
    while i < results.len()
        invariant
            i <= results.len(),
            forall|j: int| 0 <= j < i ==> (#[trigger] results@[j]).exit_code == 0,
        decreases results.len() - i,
    {
        if results[i].exit_code != 0 {
            return false;
        }
        i += 1;
    }
    true
}

/// What to do while a step's container runs.
#[derive(Debug, PartialEq, Eq)]
pub enum StepWait {
    /// The step finished; report this exit code.
    Finished(i32),
    /// Waiting for the process failed: kill it and report this exit code.
    Kill(i32),
    /// The job was cancelled or ran out of time: stop the container, kill
    /// the process and report this exit code.
    StopAndKill(i32),
    /// Keep waiting.
    Wait,
}

/// The action while a step runs. `exited` is what a wait for the process
/// found: `Some(code)` once it exited (`code` is `None` when a signal ended
/// it), `None` while it runs; `wait_failed` says the wait itself failed.
/// A finished process reports its code (1 without one); a failed wait kills
/// the process; a running step that is cancelled, past its own time limit or
/// past the job's deadline is stopped; otherwise the wait goes on.
pub open spec fn step_wait_spec(
    exited: Option<Option<i32>>,
    wait_failed: bool,
    cancelled: bool,
    timed_out: bool,
    past_deadline: bool,
) -> StepWait {
    match exited {
        Some(Some(code)) => StepWait::Finished(code),
        Some(None) => StepWait::Finished(1),
        None => if wait_failed {
            StepWait::Kill(1)
        } else if cancelled || timed_out || past_deadline {
            StepWait::StopAndKill(1)
        } else {
            StepWait::Wait
        },
    }
}

pub fn step_wait_action(
    exited: Option<Option<i32>>,
    wait_failed: bool,
    cancelled: bool,
    timed_out: bool,
    past_deadline: bool,
) -> (r: StepWait)
    ensures
        r == step_wait_spec(exited, wait_failed, cancelled, timed_out, past_deadline),
{
    match exited {
        Some(Some(code)) => StepWait::Finished(code),
        Some(None) => StepWait::Finished(1),
        None => if wait_failed {
            StepWait::Kill(1)
        } else if cancelled || timed_out || past_deadline {
            StepWait::StopAndKill(1)
        } else {
            StepWait::Wait
        },
    }
}

/// A renewal answered 409 or 401 means the assignment was taken back: the
/// job is cancelled.
pub fn renewal_cancels_job(status: u16) -> (r: bool)
    ensures
        r == (status == 409 || status == 401),
{
    status == 409 || status == 401
}

/// Every step so far exited 0.
pub open spec fn all_exited_zero(results: Seq<StepResult>) -> bool {
    forall|i: int| 0 <= i < results.len() ==> (#[trigger] results[i]).exit_code == 0
}

/// A job runs its next step while steps remain, it is not cancelled, its
/// deadline has not passed, and every step so far exited 0.
pub open spec fn next_step_runs(
    step_count: int,
    results: Seq<StepResult>,
    cancelled: bool,
    past_deadline: bool,
) -> bool {
    &&& results.len() < step_count
    &&& !cancelled
    &&& !past_deadline
    &&& all_exited_zero(results)
}

/// Whether the job runs its next step, after `results` of `step_count` steps.
pub fn run_next_step(
    step_count: usize,
    results: &[StepResult],
    cancelled: bool,
    past_deadline: bool,
) -> (r: bool)
    ensures
        r == next_step_runs(step_count as int, results@, cancelled, past_deadline),
{
    if results.len() >= step_count || cancelled || past_deadline {
        return false;
    }
    let mut i: usize = 0;
    while i < results.len()
        invariant
            i <= results.len(),
            forall|j: int| 0 <= j < i ==> (#[trigger] results@[j]).exit_code == 0,
        decreases results.len() - i,
    {
        if results[i].exit_code != 0 {
            return false;
        }
        i += 1;
    }
    true
}

/// A job whose steps each ran only when `run_next_step` allowed it runs at
/// most its steps, and stops at the first failing step: only the last
/// result can have a nonzero exit code.
pub proof fn law_steps_stop_at_first_failure(
    step_count: nat,
    results: Seq<StepResult>,
    cancelled: Seq<bool>,
    past_deadline: Seq<bool>,
)
    requires
        cancelled.len() == results.len(),
        past_deadline.len() == results.len(),
        forall|k: int|
            0 <= k < results.len() ==> next_step_runs(
                step_count as int,
                #[trigger] results.take(k),
                cancelled[k],
                past_deadline[k],
            ),
    ensures
        results.len() <= step_count,
        forall|i: int| 0 <= i < results.len() - 1 ==> (#[trigger] results[i]).exit_code == 0,
{
    if results.len() > 0 {
        let last = results.len() - 1;
        assert(next_step_runs(step_count as int, results.take(last), cancelled[last], past_deadline[last]));
        assert(results.take(last).len() == last);
    }
    assert forall|i: int| 0 <= i < results.len() - 1 implies (#[trigger] results[i]).exit_code
        == 0 by {
        assert(next_step_runs(step_count as int, results.take(i + 1), cancelled[i + 1], past_deadline[i + 1]));
        assert(results.take(i + 1)[i] == results[i]);
    }
}

/// The result reported when a job could not start: named after its first
/// step (or `Checkout`), exit code 1, and the message as output.
pub fn setup_failure(job: &Assignment, message: String) -> (r: StepResult)
    ensures
        r.name@ == if job.steps@.len() > 0 {
            job.steps@[0].name@
        } else {
            "Checkout"@
        },
        r.exit_code == 1,
        r.output == message,
{
    let name = if job.steps.len() > 0 {
        job.steps[0].name.clone()
    } else {
        owned("Checkout")
    };
    StepResult { name, exit_code: 1, output: message }
}

/// The result reported when a step's container cannot start.
pub fn start_failure(step: &Step, error_text: &str) -> (r: StepResult)
    ensures
        r.name@ == step.name@,
        r.exit_code == 1,
        r.output@ == "Unable to start container: "@ + error_text@,
{
    let mut output = owned("Unable to start container: ");
    append(&mut output, error_text);
    StepResult { name: step.name.clone(), exit_code: 1, output }
}

/// The container image must be pinned by digest.
pub fn check_image_pinned(image: &str) -> (r: Result<(), String>)
    ensures
        match r {
            Ok(()) => contains_text(image@, "@sha256:"@),
            Err(e) => !contains_text(image@, "@sha256:"@) && e@
                == "CO_MACHINE_IMAGE must be pinned by digest"@,
        },
{
    let v = chars_of(image);
    let digest = chars_of("@sha256:");
    if chars_contain(&v, &digest) {
        Ok(())
    } else {
        Err(owned("CO_MACHINE_IMAGE must be pinned by digest"))
    }
}

/// The result a finished job reports.
pub fn job_result_label(success: bool) -> (r: &'static str)
    ensures
        r@ == if success {
            "success"@
        } else {
            "failure"@
        },
{
    if success {
        "success"
    } else {
        "failure"
    }
}

proof fn lemma_utf8_len_concat(a: Seq<char>, b: Seq<char>)
    ensures
        utf8_len(a + b) == utf8_len(a) + utf8_len(b),
    decreases b.len(),
{
    if b.len() == 0 {
        assert(a + b =~= a);
    } else {
        lemma_utf8_len_concat(a, b.drop_last());
        assert((a + b).drop_last() =~= a + b.drop_last());
    }
}

proof fn lemma_fitting_chars_bound(s: Seq<char>, limit: int)
    ensures
        fitting_chars(s, limit) <= s.len(),
    decreases s.len(),
{
    if s.len() > 0 && utf8_width(s[0]) <= limit {
        lemma_fitting_chars_bound(s.drop_first(), limit - utf8_width(s[0]));
    }
}

proof fn lemma_fitting_prefix_fits(s: Seq<char>, limit: int)
    requires
        limit >= 0,
    ensures
        utf8_len(fitting_prefix(s, limit)) <= limit,
    decreases s.len(),
{
    let k = fitting_chars(s, limit);
    if k == 0 {
        assert(s.take(0) =~= Seq::<char>::empty());
    } else {
        let w = utf8_width(s[0]);
        lemma_fitting_chars_bound(s, limit);
        lemma_fitting_chars_bound(s.drop_first(), limit - w);
        lemma_fitting_prefix_fits(s.drop_first(), limit - w);
        assert(s.take(k as int) =~= seq![s[0]] + fitting_prefix(s.drop_first(), limit - w));
        lemma_utf8_len_concat(seq![s[0]], fitting_prefix(s.drop_first(), limit - w));
        assert(seq![s[0]].drop_last() =~= Seq::<char>::empty());
        assert(utf8_len(Seq::<char>::empty()) == 0);
        assert(utf8_len(seq![s[0]]) == w);
        assert(fitting_prefix(s, limit) == s.take(k as int));
    }
}

/// A step log never exceeds 1024 bytes, and its standard output part never
/// exceeds 512.
pub proof fn law_step_output_fits(stdout: Seq<char>, stderr: Seq<char>)
    ensures
        utf8_len(fitting_prefix(stdout, 512)) <= 512,
        utf8_len(step_output_text(stdout, stderr)) <= 1024,
{
    let out = fitting_prefix(stdout, 512);
    lemma_fitting_prefix_fits(stdout, 512);
    lemma_fitting_prefix_fits(stderr, 1024 - utf8_len(out));
    lemma_utf8_len_concat(out, fitting_prefix(stderr, 1024 - utf8_len(out)));
}

} // verus!
