//! Decisions of the human-approved agent access flow: what is requested,
//! how long to wait between polls, and what each poll answer means.

use vstd::prelude::*;
use crate::config::{
    find_pending_submission, submission_matches, AgentGrant, Config, PendingAgentRequest,
    PendingAgentSubmission,
};
use crate::text::{
    append, chars_of, debug_quote, debug_quoted, owned, parse_u64, parse_u64_text, slice_string,
    str_eq, trim_bounds, trim_text, utf8_len, utf8_length, opt_seq, texts,
};

verus! {

/// The operations an access request asks for: pull, and push when asked.
pub open spec fn requested_operations_text(push: bool) -> Seq<Seq<char>> {
    if push {
        seq!["pull"@, "push"@]
    } else {
        seq!["pull"@]
    }
}

pub fn requested_operations(push: bool) -> (r: Vec<String>)
    ensures
        texts(r@) == requested_operations_text(push),
{
    let mut ops: Vec<String> = Vec::new();
    ops.push(owned("pull"));
    if push {
        ops.push(owned("push"));
    }
    assert(texts(ops@) =~= requested_operations_text(push));
    ops
}

/// A copy of a list of strings.
pub fn copy_strings(v: &[String]) -> (r: Vec<String>)
    ensures
        r@ == v@,
{
    let mut r: Vec<String> = Vec::new();
    let mut i: usize = 0;
    while i < v.len()
        invariant
            i <= v.len(),
            r@ == v@.take(i as int),
        decreases v.len() - i,
    {
        r.push(v[i].clone());
        assert(v@.take(i as int).push(v@[i as int]) =~= v@.take(i + 1));
        i += 1;
    }
    assert(v@.take(v.len() as int) =~= v@);
    r
}

/// When a pending request expires: the time the service reports, else the
/// requested lifetime from now.
pub fn pending_expiry(reported: Option<u64>, now: u64, ttl_seconds: u64) -> (r: u64)
    ensures
        r == match reported {
            Some(t) => t as int,
            None => if now + ttl_seconds > u64::MAX {
                u64::MAX as int
            } else {
                now + ttl_seconds
            },
        },
{
    match reported {
        Some(t) => t,
        None => now.saturating_add(ttl_seconds),
    }
}

/// The next wait between polls: doubled, at most 15 seconds.
pub fn next_backoff(backoff: u64) -> (r: u64)
    requires
        backoff <= u64::MAX / 2,
    ensures
        r == if backoff * 2 < 15 {
            backoff * 2
        } else {
            15
        },
{
    let doubled = backoff * 2;
    if doubled < 15 {
        doubled
    } else {
        15
    }
}

/// The wait after a rate-limited or failed poll: the server's `Retry-After`
/// (else the backoff), at least one second, and no longer than the time left
/// before the request expires (but at least one second).
pub open spec fn retry_delay_value(retry_after: Option<u64>, backoff: u64, expires: u64, now: u64) -> int {
    let wanted = match retry_after {
        Some(s) => s as int,
        None => backoff as int,
    };
    let at_least_one = if wanted < 1 {
        1
    } else {
        wanted
    };
    let left = if expires > now {
        expires - now
    } else {
        0
    };
    let cap = if left < 1 {
        1
    } else {
        left
    };
    if at_least_one < cap {
        at_least_one
    } else {
        cap
    }
}

pub fn retry_delay(retry_after: Option<u64>, backoff: u64, expires: u64, now: u64) -> (r: u64)
    ensures
        r == retry_delay_value(retry_after, backoff, expires, now),
        1 <= r,
        expires > now ==> r <= expires - now,
{
    let wanted = match retry_after {
        Some(s) => s,
        None => backoff,
    };
    let at_least_one = if wanted < 1 {
        1
    } else {
        wanted
    };
    let left = expires.saturating_sub(now);
    let cap = if left < 1 {
        1
    } else {
        left
    };
    if at_least_one < cap {
        at_least_one
    } else {
        cap
    }
}

/// The seconds since the Unix epoch of an HTTP date, as `httpdate` parses it.
pub uninterp spec fn http_date_seconds(text: Seq<char>) -> Option<u64>;

/// `httpdate::parse_http_date`, as whole seconds since the Unix epoch; `None`
/// when the text is not an HTTP date or names a time before the epoch.
#[verifier::external_body]
fn parse_http_date_seconds(text: &str) -> (r: Option<u64>)
    ensures
        r == http_date_seconds(text@),
{
    httpdate::parse_http_date(text).ok().and_then(
        |time| time.duration_since(std::time::UNIX_EPOCH).ok(),
    ).map(|duration| duration.as_secs())
}

/// Whole seconds from `now` (seconds and nanoseconds since the epoch) until
/// the time `date`, or `None` when `date` is earlier than `now`.
pub open spec fn seconds_until(date: u64, now_secs: u64, now_nanos: u32) -> Option<u64> {
    if now_nanos == 0 {
        if date >= now_secs {
            Some((date - now_secs) as u64)
        } else {
            None
        }
    } else if date > now_secs {
        Some((date - now_secs - 1) as u64)
    } else {
        None
    }
}

/// How long a `Retry-After` header asks to wait: a number of seconds, or an
/// HTTP date in the future.
pub open spec fn retry_after_value(header: Seq<char>, now_secs: u64, now_nanos: u32) -> Option<u64> {
    match parse_u64_text(header) {
        Ok(seconds) => Some(seconds),
        Err(_) => match http_date_seconds(header) {
            Some(date) => seconds_until(date, now_secs, now_nanos),
            None => None,
        },
    }
}

pub fn retry_after_seconds(header: &str, now_secs: u64, now_nanos: u32) -> (r: Option<u64>)
    requires
        now_nanos < 1_000_000_000,
    ensures
        r == retry_after_value(header@, now_secs, now_nanos),
{
    match parse_u64(header) {
        Ok(seconds) => Some(seconds),
        Err(_) => match parse_http_date_seconds(header) {
            Some(date) => {
                if now_nanos == 0 {
                    if date >= now_secs {
                        Some(date - now_secs)
                    } else {
                        None
                    }
                } else if date > now_secs {
                    Some(date - now_secs - 1)
                } else {
                    None
                }
            },
            None => None,
        },
    }
}

/// What one poll of a pending request tells the waiting command to do.
pub enum PollOutcome {
    /// Still pending: wait and poll again.
    Wait,
    /// Approved: store this grant.
    Approved(AgentGrant),
    /// Denied or expired: forget the pending request and fail with this message.
    Closed(String),
    /// The answer cannot be used: fail with this message.
    Failed(String),
}

/// The grant that an approval of `pending` yields.
pub open spec fn approved_grant(
    pending: PendingAgentRequest,
    grant_id: Seq<char>,
    lineage_token: Seq<char>,
    g: AgentGrant,
) -> bool {
    &&& g.agent_id@ == pending.agent_id@
    &&& g.owner@ == pending.owner@
    &&& g.repo@ == pending.repo@
    &&& g.grant_id@ == grant_id
    &&& g.lineage_token@ == lineage_token
    &&& g.operations@ == pending.operations@
    &&& g.expires_unix == pending.requested_expires_unix
}

/// The meaning of a poll answer with the given status.
pub open spec fn poll_outcome_ok(
    status: Seq<char>,
    grant_id: Option<Seq<char>>,
    lineage_token: Option<Seq<char>>,
    pending: PendingAgentRequest,
    r: PollOutcome,
) -> bool {
    if status == "pending"@ {
        r is Wait
    } else if status == "approved"@ {
        match (grant_id, lineage_token) {
            (Some(g), Some(l)) => r matches PollOutcome::Approved(grant) && approved_grant(
                pending,
                g,
                l,
                grant,
            ),
            (None, _) => r matches PollOutcome::Failed(e) && e@
                == "approved response omitted grantId"@,
            (Some(_), None) => r matches PollOutcome::Failed(e) && e@
                == "approved response omitted lineageToken"@,
        }
    } else if status == "denied"@ {
        r matches PollOutcome::Closed(e) && e@ == "access request was denied by the human approver"@
    } else if status == "expired"@ {
        r matches PollOutcome::Closed(e) && e@ == request_expired_text()
    } else {
        r matches PollOutcome::Failed(e) && e@ == "unknown access request status "@
            + debug_quoted(status)
    }
}

/// Interprets one poll answer for a pending request.
pub fn grant_poll_outcome(
    status: &str,
    grant_id: Option<String>,
    lineage_token: Option<String>,
    pending: &PendingAgentRequest,
) -> (r: PollOutcome)
    ensures
        poll_outcome_ok(status@, opt_seq(grant_id), opt_seq(lineage_token), *pending, r),
{
    if str_eq(status, "pending") {
        PollOutcome::Wait
    } else if str_eq(status, "approved") {
        let grant_id = match grant_id {
            Some(g) => g,
            None => {
                return PollOutcome::Failed(owned("approved response omitted grantId"));
            },
        };
        let lineage_token = match lineage_token {
            Some(l) => l,
            None => {
                return PollOutcome::Failed(owned("approved response omitted lineageToken"));
            },
        };
        PollOutcome::Approved(
            AgentGrant {
                agent_id: pending.agent_id.clone(),
                owner: pending.owner.clone(),
                repo: pending.repo.clone(),
                grant_id,
                lineage_token,
                operations: copy_strings(pending.operations.as_slice()),
                expires_unix: pending.requested_expires_unix,
            },
        )
    } else if str_eq(status, "denied") {
        PollOutcome::Closed(owned("access request was denied by the human approver"))
    } else if str_eq(status, "expired") {
        PollOutcome::Closed(request_expired_error())
    } else {
        let mut e = owned("unknown access request status ");
        let q = debug_quote(status);
        append(&mut e, q.as_str());
        PollOutcome::Failed(e)
    }
}

/// The error for a pending request that ran out of time.
pub open spec fn request_expired_text() -> Seq<char> {
    "access request expired; run `co access request` again"@
}

pub fn request_expired_error() -> (r: String)
    ensures
        r@ == request_expired_text(),
{
    owned("access request expired; run `co access request` again")
}

/// Whether a pending request has run out of time.
pub fn request_expired(now: u64, expires: u64) -> (r: bool)
    ensures
        r == (now >= expires),
{
    now >= expires
}

/// A lowercase hexadecimal digit.
pub open spec fn hex_digit(d: nat) -> char {
    if d == 0 {
        '0'
    } else if d == 1 {
        '1'
    } else if d == 2 {
        '2'
    } else if d == 3 {
        '3'
    } else if d == 4 {
        '4'
    } else if d == 5 {
        '5'
    } else if d == 6 {
        '6'
    } else if d == 7 {
        '7'
    } else if d == 8 {
        '8'
    } else if d == 9 {
        '9'
    } else if d == 10 {
        'a'
    } else if d == 11 {
        'b'
    } else if d == 12 {
        'c'
    } else if d == 13 {
        'd'
    } else if d == 14 {
        'e'
    } else {
        'f'
    }
}

/// `n` in lowercase hexadecimal without leading zeros (what `{:x}` prints).
pub open spec fn hex_text(n: nat) -> Seq<char>
    decreases n,
{
    if n < 16 {
        seq![hex_digit(n)]
    } else {
        hex_text(n / 16).push(hex_digit(n % 16))
    }
}

fn hex_digit_char(d: u128) -> (c: char)
    requires
        d < 16,
    ensures
        c == hex_digit(d as nat),
{
    if d == 0 {
        '0'
    } else if d == 1 {
        '1'
    } else if d == 2 {
        '2'
    } else if d == 3 {
        '3'
    } else if d == 4 {
        '4'
    } else if d == 5 {
        '5'
    } else if d == 6 {
        '6'
    } else if d == 7 {
        '7'
    } else if d == 8 {
        '8'
    } else if d == 9 {
        '9'
    } else if d == 10 {
        'a'
    } else if d == 11 {
        'b'
    } else if d == 12 {
        'c'
    } else if d == 13 {
        'd'
    } else if d == 14 {
        'e'
    } else {
        'f'
    }
}

/// Appends `n` in lowercase hexadecimal.
pub fn push_hex(out: &mut String, n: u128)
    ensures
        final(out)@ == old(out)@ + hex_text(n as nat),
    decreases n,
{
    if n >= 16 {
        push_hex(out, n / 16);
    }
    out.push(hex_digit_char(n % 16));
}

/// The idempotency key of a grant request submission: `co-<pid>-<nanos>` in hexadecimal.
pub open spec fn idempotency_key_text(pid: u32, nanos: u128) -> Seq<char> {
    "co-"@ + hex_text(pid as nat) + seq!['-'] + hex_text(nanos as nat)
}

pub fn idempotency_key(pid: u32, nanos: u128) -> (r: String)
    ensures
        r@ == idempotency_key_text(pid, nanos),
{
    let mut key = owned("co-");
    push_hex(&mut key, pid as u128);
    key.push('-');
    push_hex(&mut key, nanos);
    key
}

/// A grant request answered 401 or 409 used an expired or spent capability.
pub fn capability_rejected(status: u16) -> (r: bool)
    ensures
        r == (status == 401 || status == 409),
{
    status == 401 || status == 409
}

/// A poll answered 429 or 5xx is retried after a delay.
pub fn should_retry_poll(status: u16) -> (r: bool)
    ensures
        r == (status == 429 || (500 <= status <= 599)),
{
    status == 429 || (500 <= status && status <= 599)
}

/// An agent name as registered: the given name without surrounding white
/// space, 1 to 80 bytes long.
pub fn validate_agent_name(name: &str) -> (r: Result<String, String>)
    requires
        name@.len() <= u64::MAX / 4,
    ensures
        match r {
            Ok(n) => n@ == trim_text(name@) && 1 <= utf8_len(n@) <= 80,
            Err(e) => !(1 <= utf8_len(trim_text(name@)) <= 80) && e@
                == "agent name must contain 1 to 80 characters"@,
        },
{
    let v = chars_of(name);
    let (from, to) = trim_bounds(&v);
    let trimmed = slice_string(&v, from, to);
    let tv = chars_of(trimmed.as_str());
    let len = utf8_length(&tv);
    if len < 1 || len > 80 {
        Err(owned("agent name must contain 1 to 80 characters"))
    } else {
        Ok(trimmed)
    }
}


/// What `co access request` asks for, once its agent and repository are known.
pub struct GrantRequest {
    pub agent_id: String,
    pub owner: String,
    pub repo: String,
    pub operations: Vec<String>,
    pub ttl_seconds: u64,
    pub reason: Option<String>,
}

/// A saved submission that asks for exactly this request.
pub open spec fn saved_for(s: PendingAgentSubmission, request: GrantRequest) -> bool {
    submission_matches(
        s,
        request.agent_id@,
        request.owner@,
        request.repo@,
        texts(request.operations@),
        request.ttl_seconds,
        opt_seq(request.reason),
    )
}

/// Submission `i` is the first saved one for this request.
pub open spec fn first_saved_for(
    submissions: Seq<PendingAgentSubmission>,
    request: GrantRequest,
    i: int,
) -> bool {
    &&& 0 <= i < submissions.len()
    &&& saved_for(submissions[i], request)
    &&& forall|j: int| 0 <= j < i ==> !saved_for(#[trigger] submissions[j], request)
}

/// Two submissions with the same fields.
pub open spec fn same_submission(a: PendingAgentSubmission, b: PendingAgentSubmission) -> bool {
    &&& a.agent_id == b.agent_id
    &&& a.owner == b.owner
    &&& a.repo == b.repo
    &&& a.operations@ == b.operations@
    &&& a.ttl_seconds == b.ttl_seconds
    &&& a.reason == b.reason
    &&& a.request_capability == b.request_capability
    &&& a.idempotency_key == b.idempotency_key
}

/// What has just happened in `co access request`.
pub enum GrantRequestEvent {
    /// The command starts: nothing has been sent yet.
    Start,
    /// The service issued a fresh request capability, and this idempotency
    /// key was made for the submission that will use it.
    CapabilityIssued { capability: String, idempotency_key: String },
    /// The submission with this key was answered with a failure status.
    Refused { idempotency_key: String, status: u16 },
    /// The submission with this key created a pending request; `now` is the
    /// time of the answer and `expires_at_unix` the expiry the service gave.
    Created {
        idempotency_key: String,
        id: String,
        poll_token: String,
        expires_at_unix: Option<u64>,
        now: u64,
    },
}

/// What `co access request` does next.
pub enum GrantRequestAction {
    /// No submission is saved for this request: obtain a fresh request
    /// capability with the session.
    IssueCapability,
    /// Save this submission first, then send it.
    SaveThenSend(PendingAgentSubmission),
    /// Send this saved submission again, with its capability and key.
    Resend(PendingAgentSubmission),
    /// The capability was expired or spent: forget the submission with this
    /// key and fail with this error, so that a rerun starts afresh.
    Forget { idempotency_key: String, error: String },
    /// Fail, keeping the submission so that a rerun resends it.
    Keep,
    /// Record this pending request in place of the submission with this key;
    /// only then open the approval page.
    RecordThenOpen { idempotency_key: String, pending: PendingAgentRequest },
}

/// The error of a grant request whose capability was expired or spent.
pub open spec fn capability_spent_error() -> Seq<char> {
    "request capability expired or was already used; rerun the command to issue a fresh capability"@
}

/// The step of `co access request` for `event`, with these saved submissions.
pub open spec fn grant_request_step_ok(
    submissions: Seq<PendingAgentSubmission>,
    request: GrantRequest,
    event: GrantRequestEvent,
    action: GrantRequestAction,
) -> bool {
    match event {
        GrantRequestEvent::Start => {
            ||| exists|i: int|
                first_saved_for(submissions, request, i) && (action matches GrantRequestAction::Resend(
                    s,
                ) && same_submission(s, #[trigger] submissions[i]))
            ||| (forall|j: int| 0 <= j < submissions.len() ==> !saved_for(#[trigger] submissions[j], request))
                && action is IssueCapability
        },
        GrantRequestEvent::CapabilityIssued { capability, idempotency_key } => action
            matches GrantRequestAction::SaveThenSend(s) && saved_for(s, request)
            && s.request_capability == capability && s.idempotency_key == idempotency_key,
        GrantRequestEvent::Refused { idempotency_key, status } => if status == 401 || status
            == 409 {
            action matches GrantRequestAction::Forget { idempotency_key: k, error }
                && k == idempotency_key && error@ == capability_spent_error()
        } else {
            action is Keep
        },
        GrantRequestEvent::Created { idempotency_key, id, poll_token, expires_at_unix, now } => {
            &&& action matches GrantRequestAction::RecordThenOpen { idempotency_key: k, pending }
            &&& k == idempotency_key
            &&& pending.id == id
            &&& pending.poll_token == poll_token
            &&& pending.agent_id == request.agent_id
            &&& pending.owner == request.owner
            &&& pending.repo == request.repo
            &&& pending.operations@ == request.operations@
            &&& pending.requested_expires_unix == match expires_at_unix {
                Some(t) => t as int,
                None => if now + request.ttl_seconds > u64::MAX {
                    u64::MAX as int
                } else {
                    now + request.ttl_seconds
                },
            }
        },
    }
}

fn copy_reason(reason: &Option<String>) -> (r: Option<String>)
    ensures
        r == *reason,
{
    match reason {
        Some(text) => Some(text.clone()),
        None => None,
    }
}

fn copy_submission(s: &PendingAgentSubmission) -> (r: PendingAgentSubmission)
    ensures
        same_submission(r, *s),
{
    PendingAgentSubmission {
        agent_id: s.agent_id.clone(),
        owner: s.owner.clone(),
        repo: s.repo.clone(),
        operations: copy_strings(s.operations.as_slice()),
        ttl_seconds: s.ttl_seconds,
        reason: copy_reason(&s.reason),
        request_capability: s.request_capability.clone(),
        idempotency_key: s.idempotency_key.clone(),
    }
}

/// Decides the next step of `co access request`. A submission is saved
/// before it is first sent; a rerun of the same request resends the first
/// saved submission for it, with its capability and idempotency key; and the
/// approval page opens only once the created request is recorded.
pub fn grant_request_step(config: &Config, request: &GrantRequest, event: GrantRequestEvent) -> (r:
    GrantRequestAction)
    ensures
        grant_request_step_ok(config.pending_agent_submissions@, *request, event, r),
{
    match event {
        GrantRequestEvent::Start => {
            match find_pending_submission(
                config,
                request.agent_id.as_str(),
                request.owner.as_str(),
                request.repo.as_str(),
                request.operations.as_slice(),
                request.ttl_seconds,
                match &request.reason {
                    Some(text) => Some(text.as_str()),
                    None => None,
                },
            ) {
                Some(i) => {
                    let r = GrantRequestAction::Resend(
                        copy_submission(&config.pending_agent_submissions[i]),
                    );
                    assert(first_saved_for(config.pending_agent_submissions@, *request, i as int));
                    r
                },
                None => GrantRequestAction::IssueCapability,
            }
        },
        GrantRequestEvent::CapabilityIssued { capability, idempotency_key } => {
            GrantRequestAction::SaveThenSend(
                PendingAgentSubmission {
                    agent_id: request.agent_id.clone(),
                    owner: request.owner.clone(),
                    repo: request.repo.clone(),
                    operations: copy_strings(request.operations.as_slice()),
                    ttl_seconds: request.ttl_seconds,
                    reason: copy_reason(&request.reason),
                    request_capability: capability,
                    idempotency_key,
                },
            )
        },
        GrantRequestEvent::Refused { idempotency_key, status } => {
            if capability_rejected(status) {
                GrantRequestAction::Forget {
                    idempotency_key,
                    error: owned(
                        "request capability expired or was already used; rerun the command to issue a fresh capability",
                    ),
                }
            } else {
                GrantRequestAction::Keep
            }
        },
        GrantRequestEvent::Created { idempotency_key, id, poll_token, expires_at_unix, now } => {
            let pending = PendingAgentRequest {
                id,
                agent_id: request.agent_id.clone(),
                owner: request.owner.clone(),
                repo: request.repo.clone(),
                poll_token,
                operations: copy_strings(request.operations.as_slice()),
                requested_expires_unix: pending_expiry(expires_at_unix, now, request.ttl_seconds),
            };
            GrantRequestAction::RecordThenOpen { idempotency_key, pending }
        },
    }
}

/// Rerunning an interrupted request resends what the first run saved: when
/// nothing was saved for the request, the first run issues a capability and
/// saves a submission for it, and once that submission is saved, a rerun's
/// first step resends exactly that submission, with its capability and
/// idempotency key.
pub proof fn law_rerun_resends_saved_submission(
    submissions: Seq<PendingAgentSubmission>,
    request: GrantRequest,
    issued: GrantRequestEvent,
    first: GrantRequestAction,
    saving: GrantRequestAction,
    rerun: GrantRequestAction,
)
    requires
        grant_request_step_ok(submissions, request, GrantRequestEvent::Start, first),
        first is IssueCapability,
        issued is CapabilityIssued,
        grant_request_step_ok(submissions, request, issued, saving),
        grant_request_step_ok(
            submissions.push(saving->SaveThenSend_0),
            request,
            GrantRequestEvent::Start,
            rerun,
        ),
    ensures
        rerun is Resend,
        same_submission(rerun->Resend_0, saving->SaveThenSend_0),
        rerun->Resend_0.request_capability == issued->capability,
        rerun->Resend_0.idempotency_key == issued->CapabilityIssued_idempotency_key,
{
    let saved = saving->SaveThenSend_0;
    let after = submissions.push(saved);
    if exists|i: int| first_saved_for(submissions, request, i) {
        let i = choose|i: int| first_saved_for(submissions, request, i);
        assert(first is Resend);
    }
    assert(forall|j: int| 0 <= j < submissions.len() ==> !saved_for(#[trigger] submissions[j], request));
    assert(after[submissions.len() as int] == saved);
    assert(saved_for(after[submissions.len() as int], request));
    if exists|i: int| first_saved_for(after, request, i) {
        let i = choose|i: int| first_saved_for(after, request, i);
        if i < submissions.len() {
            assert(after[i] == submissions[i]);
        }
        assert(i == submissions.len());
    } else {
        assert(!saved_for(after[submissions.len() as int], request));
    }
}


/// A JSON document as the API returns it.
#[verifier::external_type_specification]
#[verifier::external_body]
pub struct ExJsonValue(serde_json::Value);

/// The keys of the `urls` object of a JSON document, when the document is an
/// object whose `urls` member is an object.
pub uninterp spec fn urls_keys(doc: serde_json::Value) -> Option<Set<Seq<char>>>;

/// Everything in a JSON document but the members of its `urls` object.
pub uninterp spec fn outside_urls(doc: serde_json::Value) -> serde_json::Value;

/// `Value::get_mut("urls")`, `Value::as_object_mut` and `Map::remove` of
/// `serde_json`: removes `key` from the document's `urls` object, if the
/// document has one, and leaves everything else as it was.
#[verifier::external_body]
fn remove_url(doc: &mut serde_json::Value, key: &str)
    ensures
        urls_keys(*final(doc)) == match urls_keys(*old(doc)) {
            Some(keys) => Some(keys.remove(key@)),
            None => None,
        },
        outside_urls(*final(doc)) == outside_urls(*old(doc)),
{
    if let Some(urls) = doc.get_mut("urls").and_then(serde_json::Value::as_object_mut) {
        urls.remove(key);
    }
}

/// What `co access view` prints of the agent repository document: the
/// document without its token-bearing `urls.self` link.
pub fn strip_self_url(doc: &mut serde_json::Value)
    ensures
        urls_keys(*final(doc)) == match urls_keys(*old(doc)) {
            Some(keys) => Some(keys.remove("self"@)),
            None => None,
        },
        urls_keys(*final(doc)) matches Some(keys) ==> !keys.contains("self"@),
        outside_urls(*final(doc)) == outside_urls(*old(doc)),
{
    remove_url(doc, "self");
}

} // verus!
