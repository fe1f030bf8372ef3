//! The local configuration and the updates the commands make to it.

use vstd::prelude::*;
use crate::text::{append, debug_quote, debug_quoted, opt_seq, opt_str, owned, str_eq, texts};

verus! {

/// An agent identity registered with the service and known locally.
pub struct AgentIdentity {
    pub id: String,
    pub name: String,
}

/// A grant request that waits for a human approver.
pub struct PendingAgentRequest {
    pub id: String,
    pub agent_id: String,
    pub owner: String,
    pub repo: String,
    pub poll_token: String,
    pub operations: Vec<String>,
    pub requested_expires_unix: u64,
}

/// A grant request whose submission may be retried with the same idempotency key.
pub struct PendingAgentSubmission {
    pub agent_id: String,
    pub owner: String,
    pub repo: String,
    pub operations: Vec<String>,
    pub ttl_seconds: u64,
    pub reason: Option<String>,
    pub request_capability: String,
    pub idempotency_key: String,
}

/// An approved, repository-scoped agent grant.
pub struct AgentGrant {
    pub agent_id: String,
    pub owner: String,
    pub repo: String,
    pub grant_id: String,
    pub lineage_token: String,
    pub operations: Vec<String>,
    pub expires_unix: u64,
}

/// A machine enrolled to run jobs.
pub struct MachineIdentity {
    pub id: String,
    pub scope: String,
    pub api_url: String,
    pub credential: String,
}

/// The configuration file's contents.
pub struct Config {
    pub api_url: Option<String>,
    pub session_token: Option<String>,
    pub upstream_name: Option<String>,
    pub jj: bool,
    pub agents: Vec<AgentIdentity>,
    pub pending_agent_submissions: Vec<PendingAgentSubmission>,
    pub pending_agent_requests: Vec<PendingAgentRequest>,
    pub agent_grants: Vec<AgentGrant>,
    pub machines: Vec<MachineIdentity>,
}

impl Default for Config {
    /// The configuration used when no file exists.
    fn default() -> (r: Self)
        ensures
            r.api_url is None,
            r.session_token is None,
            r.upstream_name is None,
            !r.jj,
            r.agents@.len() == 0,
            r.pending_agent_submissions@.len() == 0,
            r.pending_agent_requests@.len() == 0,
            r.agent_grants@.len() == 0,
            r.machines@.len() == 0,
    {
        Config {
            api_url: None,
            session_token: None,
            upstream_name: None,
            jj: false,
            agents: Vec::new(),
            pending_agent_submissions: Vec::new(),
            pending_agent_requests: Vec::new(),
            agent_grants: Vec::new(),
            machines: Vec::new(),
        }
    }
}

pub open spec fn not_signed_in_error() -> Seq<char> {
    "not signed in; run `co login` and have a human authorize this machine"@
}

/// The human session token, required by commands that act for the signed-in user.
pub fn session_token(config: &Config) -> (r: Result<&str, String>)
    ensures
        match r {
            Ok(t) => config.session_token matches Some(s) && t@ == s@,
            Err(e) => config.session_token is None && e@ == not_signed_in_error(),
        },
{
    match &config.session_token {
        Some(s) => Ok(s.as_str()),
        None => Err(owned("not signed in; run `co login` and have a human authorize this machine")),
    }
}

/// The pending request with the given ID is not this one.
pub open spec fn request_id_differs(request_id: Seq<char>) -> spec_fn(PendingAgentRequest) -> bool {
    |r: PendingAgentRequest| r.id@ != request_id
}

/// Keeps, in order, the items on which `keep` holds.
fn retain_where<T, F: Fn(&T) -> bool>(v: Vec<T>, pred: Ghost<spec_fn(T) -> bool>, keep: F) -> (r: Vec<T>)
    requires
        forall|x: &T| #[trigger] keep.requires((x,)),
        forall|x: &T, b: bool| keep.ensures((x,), b) ==> b == pred@(*x),
    ensures
        r@ == v@.filter(pred@),
{
    let ghost all = v@;
    let mut kept: Vec<T> = Vec::new();
    for x in it: v.into_iter()
        invariant
            it.seq() == all,
            forall|x: &T| #[trigger] keep.requires((x,)),
            forall|x: &T, b: bool| keep.ensures((x,), b) ==> b == pred@(*x),
            kept@ == all.take(it.index()).filter(pred@),
    {
        let ghost i = it.index();
        assert(all.take(i + 1).drop_last() =~= all.take(i));
        assert(all.take(i + 1).last() == x);
        reveal(Seq::filter);
        if keep(&x) {
            kept.push(x);
        }
    }
    assert(all.take(all.len() as int) =~= all);
    kept
}

/// Removes every pending request with the given ID and leaves the rest in order.
pub fn remove_pending_agent_request(config: &mut Config, request_id: &str)
    ensures
        final(config).pending_agent_requests@ == old(config).pending_agent_requests@.filter(
            request_id_differs(request_id@),
        ),
        final(config).api_url == old(config).api_url,
        final(config).session_token == old(config).session_token,
        final(config).upstream_name == old(config).upstream_name,
        final(config).jj == old(config).jj,
        final(config).agents == old(config).agents,
        final(config).pending_agent_submissions == old(config).pending_agent_submissions,
        final(config).agent_grants == old(config).agent_grants,
        final(config).machines == old(config).machines,
{
    let mut taken: Vec<PendingAgentRequest> = Vec::new();
    std::mem::swap(&mut taken, &mut config.pending_agent_requests);
    let keep = |r: &PendingAgentRequest| -> (b: bool)
        ensures
            b == (r.id@ != request_id@),
        { !str_eq(r.id.as_str(), request_id) };
    config.pending_agent_requests = retain_where(taken, Ghost(request_id_differs(request_id@)), keep);
}

/// The settings that a list update leaves alone.
pub open spec fn same_settings(a: Config, b: Config) -> bool {
    &&& a.api_url == b.api_url
    &&& a.session_token == b.session_token
    &&& a.upstream_name == b.upstream_name
    &&& a.jj == b.jj
}

/// A grant for some other agent or repository than the pending request names.
pub open spec fn other_grant_target(pending: PendingAgentRequest) -> spec_fn(AgentGrant) -> bool {
    |g: AgentGrant|
        !(g.agent_id@ == pending.agent_id@ && g.owner@ == pending.owner@ && g.repo@
            == pending.repo@)
}

/// Stores an approved grant in place of any earlier grant of the same agent
/// for the same repository, and forgets the pending request it answers.
pub fn store_approved_agent_grant(
    config: &mut Config,
    pending: &PendingAgentRequest,
    grant: AgentGrant,
)
    ensures
        final(config).agent_grants@ == old(config).agent_grants@.filter(
            other_grant_target(*pending),
        ).push(grant),
        final(config).pending_agent_requests@ == old(config).pending_agent_requests@.filter(
            request_id_differs(pending.id@),
        ),
        same_settings(*final(config), *old(config)),
        final(config).agents == old(config).agents,
        final(config).pending_agent_submissions == old(config).pending_agent_submissions,
        final(config).machines == old(config).machines,
{
    let mut grants: Vec<AgentGrant> = Vec::new();
    std::mem::swap(&mut grants, &mut config.agent_grants);
    let keep = |g: &AgentGrant| -> (b: bool)
        ensures
            b == (other_grant_target(*pending))(*g),
        {
            !(str_eq(g.agent_id.as_str(), pending.agent_id.as_str()) && str_eq(
                g.owner.as_str(),
                pending.owner.as_str(),
            ) && str_eq(g.repo.as_str(), pending.repo.as_str()))
        };
    let mut grants = retain_where(grants, Ghost(other_grant_target(*pending)), keep);
    grants.push(grant);
    config.agent_grants = grants;
    remove_pending_agent_request(config, pending.id.as_str());
}

/// A submission whose idempotency key differs from the given one.
pub open spec fn submission_key_differs(key: Seq<char>) -> spec_fn(PendingAgentSubmission) -> bool {
    |s: PendingAgentSubmission| s.idempotency_key@ != key
}

/// Forgets the submission with the given idempotency key.
pub fn drop_pending_submission(config: &mut Config, idempotency_key: &str)
    ensures
        final(config).pending_agent_submissions@ == old(config).pending_agent_submissions@.filter(
            submission_key_differs(idempotency_key@),
        ),
        same_settings(*final(config), *old(config)),
        final(config).agents == old(config).agents,
        final(config).pending_agent_requests == old(config).pending_agent_requests,
        final(config).agent_grants == old(config).agent_grants,
        final(config).machines == old(config).machines,
{
    let mut taken: Vec<PendingAgentSubmission> = Vec::new();
    std::mem::swap(&mut taken, &mut config.pending_agent_submissions);
    let keep = |s: &PendingAgentSubmission| -> (b: bool)
        ensures
            b == (s.idempotency_key@ != idempotency_key@),
        { !str_eq(s.idempotency_key.as_str(), idempotency_key) };
    config.pending_agent_submissions = retain_where(
        taken,
        Ghost(submission_key_differs(idempotency_key@)),
        keep,
    );
}

/// Records a submission before it is sent, so that a retry reuses its key.
pub fn add_pending_submission(config: &mut Config, submission: PendingAgentSubmission)
    ensures
        final(config).pending_agent_submissions@ == old(config).pending_agent_submissions@.push(
            submission,
        ),
        same_settings(*final(config), *old(config)),
        final(config).agents == old(config).agents,
        final(config).pending_agent_requests == old(config).pending_agent_requests,
        final(config).agent_grants == old(config).agent_grants,
        final(config).machines == old(config).machines,
{
    config.pending_agent_submissions.push(submission);
}

/// Replaces a sent submission by the pending request the service created for it.
pub fn record_pending_request(
    config: &mut Config,
    idempotency_key: &str,
    pending: PendingAgentRequest,
)
    ensures
        final(config).pending_agent_submissions@ == old(config).pending_agent_submissions@.filter(
            submission_key_differs(idempotency_key@),
        ),
        final(config).pending_agent_requests@ == old(config).pending_agent_requests@.filter(
            request_id_differs(pending.id@),
        ).push(pending),
        same_settings(*final(config), *old(config)),
        final(config).agents == old(config).agents,
        final(config).agent_grants == old(config).agent_grants,
        final(config).machines == old(config).machines,
{
    drop_pending_submission(config, idempotency_key);
    remove_pending_agent_request(config, pending.id.as_str());
    config.pending_agent_requests.push(pending);
}

/// A saved submission for exactly this request.
pub open spec fn submission_matches(
    s: PendingAgentSubmission,
    agent_id: Seq<char>,
    owner: Seq<char>,
    repo: Seq<char>,
    operations: Seq<Seq<char>>,
    ttl_seconds: u64,
    reason: Option<Seq<char>>,
) -> bool {
    &&& s.agent_id@ == agent_id
    &&& s.owner@ == owner
    &&& s.repo@ == repo
    &&& texts(s.operations@) == operations
    &&& s.ttl_seconds == ttl_seconds
    &&& opt_seq(s.reason) == reason
}

/// Whether two lists of strings hold the same texts.
pub fn strings_eq(a: &[String], b: &[String]) -> (r: bool)
    ensures
        r == (texts(a@) == texts(b@)),
{
    if a.len() != b.len() {
        assert(texts(a@).len() != texts(b@).len());
        return false;
    }
    let mut i: usize = 0;
    while i < a.len()
        invariant
            i <= a.len() == b.len(),
            forall|j: int| 0 <= j < i ==> a@[j]@ == b@[j]@,
        decreases a.len() - i,
    {
        if !str_eq(a[i].as_str(), b[i].as_str()) {
            assert(texts(a@)[i as int] != texts(b@)[i as int]);
            return false;
        }
        i += 1;
    }
    assert(texts(a@) =~= texts(b@));
    true
}

fn opt_string_eq(a: &Option<String>, b: Option<&str>) -> (r: bool)
    ensures
        r == (opt_seq(*a) == opt_str(b)),
{
    match (a, b) {
        (Some(x), Some(y)) => str_eq(x.as_str(), y),
        (None, None) => true,
        _ => false,
    }
}

/// The first saved submission for exactly this request, if any.
pub fn find_pending_submission(
    config: &Config,
    agent_id: &str,
    owner: &str,
    repo: &str,
    operations: &[String],
    ttl_seconds: u64,
    reason: Option<&str>,
) -> (r: Option<usize>)
    ensures
        match r {
            Some(i) => i < config.pending_agent_submissions@.len() && submission_matches(
                config.pending_agent_submissions@[i as int],
                agent_id@,
                owner@,
                repo@,
                texts(operations@),
                ttl_seconds,
                opt_str(reason),
            ) && forall|j: int|
                0 <= j < i ==> !submission_matches(
                    #[trigger] config.pending_agent_submissions@[j],
                    agent_id@,
                    owner@,
                    repo@,
                    texts(operations@),
                    ttl_seconds,
                    opt_str(reason),
                ),
            None => forall|j: int|
                0 <= j < config.pending_agent_submissions@.len() ==> !submission_matches(
                    #[trigger] config.pending_agent_submissions@[j],
                    agent_id@,
                    owner@,
                    repo@,
                    texts(operations@),
                    ttl_seconds,
                    opt_str(reason),
                ),
        },
{
    let subs = &config.pending_agent_submissions;
    let mut i: usize = 0;
    while i < subs.len()
        invariant
            i <= subs.len(),
            subs == &config.pending_agent_submissions,
            forall|j: int|
                0 <= j < i ==> !submission_matches(
                    #[trigger] subs@[j],
                    agent_id@,
                    owner@,
                    repo@,
                    texts(operations@),
                    ttl_seconds,
                    opt_str(reason),
                ),
        decreases subs.len() - i,
    {
        let s = &subs[i];
        if str_eq(s.agent_id.as_str(), agent_id) && str_eq(s.owner.as_str(), owner) && str_eq(
            s.repo.as_str(),
            repo,
        ) && strings_eq(s.operations.as_slice(), operations) && s.ttl_seconds == ttl_seconds
            && opt_string_eq(&s.reason, reason) {
            return Some(i);
        }
        i += 1;
    }
    None
}

/// Whether a list of operations names `op`.
pub fn has_operation(operations: &[String], op: &str) -> (r: bool)
    ensures
        r == texts(operations@).contains(op@),
{
    let mut i: usize = 0;
    while i < operations.len()
        invariant
            i <= operations.len(),
            forall|j: int| 0 <= j < i ==> operations@[j]@ != op@,
        decreases operations.len() - i,
    {
        if str_eq(operations[i].as_str(), op) {
            assert(texts(operations@)[i as int] == op@);
            return true;
        }
        i += 1;
    }
    proof {
        if texts(operations@).contains(op@) {
            let k = choose|k: int| 0 <= k < texts(operations@).len() && texts(operations@)[k] == op@;
            assert(operations@[k]@ == op@);
        }
    }
    false
}

/// A grant that authorises pulls from `owner/repo` and is still live at `now`.
pub open spec fn live_pull_grant(g: AgentGrant, owner: Seq<char>, repo: Seq<char>, now: u64) -> bool {
    &&& g.owner@ == owner
    &&& g.repo@ == repo
    &&& g.expires_unix > now
    &&& texts(g.operations@).contains("pull"@)
}

pub open spec fn no_live_grant_error(owner: Seq<char>, repo: Seq<char>) -> Seq<char> {
    "no live pull grant for "@ + owner + seq!['/'] + repo + "; run `co access request "@ + owner
        + seq!['/'] + repo + seq!['`']
}

pub open spec fn multiple_grants_error(owner: Seq<char>, repo: Seq<char>) -> Seq<char> {
    "multiple live agent grants for "@ + owner + seq!['/'] + repo
        + "; use a separate local co config per agent"@
}

fn is_live_pull_grant(g: &AgentGrant, owner: &str, repo: &str, now: u64) -> (r: bool)
    ensures
        r == live_pull_grant(*g, owner@, repo@, now),
{
    str_eq(g.owner.as_str(), owner) && str_eq(g.repo.as_str(), repo) && g.expires_unix > now
        && has_operation(g.operations.as_slice(), "pull")
}

/// The one live pull grant for `owner/repo`, which mints the agent's
/// repository tokens; none, or more than one, is an error.
pub fn select_pull_grant(config: &Config, owner: &str, repo: &str, now: u64) -> (r: Result<
    usize,
    String,
>)
    ensures
        match r {
            Ok(i) => i < config.agent_grants@.len() && live_pull_grant(
                config.agent_grants@[i as int],
                owner@,
                repo@,
                now,
            ) && forall|j: int|
                0 <= j < config.agent_grants@.len() && j != i ==> !live_pull_grant(
                    #[trigger] config.agent_grants@[j],
                    owner@,
                    repo@,
                    now,
                ),
            Err(e) => {
                ||| (forall|j: int|
                    0 <= j < config.agent_grants@.len() ==> !live_pull_grant(
                        #[trigger] config.agent_grants@[j],
                        owner@,
                        repo@,
                        now,
                    )) && e@ == no_live_grant_error(owner@, repo@)
                ||| (exists|j: int, k: int|
                    0 <= j < k < config.agent_grants@.len() && live_pull_grant(
                        #[trigger] config.agent_grants@[j],
                        owner@,
                        repo@,
                        now,
                    ) && live_pull_grant(#[trigger] config.agent_grants@[k], owner@, repo@, now))
                    && e@ == multiple_grants_error(owner@, repo@)
            },
        },
{
    let grants = &config.agent_grants;
    let mut found: Option<usize> = None;
    let mut i: usize = 0;
    while i < grants.len()
        invariant
            i <= grants.len(),
            grants == &config.agent_grants,
            match found {
                Some(f) => f < i && live_pull_grant(grants@[f as int], owner@, repo@, now)
                    && forall|j: int|
                    0 <= j < i && j != f ==> !live_pull_grant(
                        #[trigger] grants@[j],
                        owner@,
                        repo@,
                        now,
                    ),
                None => forall|j: int|
                    0 <= j < i ==> !live_pull_grant(#[trigger] grants@[j], owner@, repo@, now),
            },
        decreases grants.len() - i,
    {
        if is_live_pull_grant(&grants[i], owner, repo, now) {
            match found {
                Some(f) => {
                    let mut e = owned("multiple live agent grants for ");
                    append(&mut e, owner);
                    e.push('/');
                    append(&mut e, repo);
                    append(&mut e, "; use a separate local co config per agent");
                    assert(e@ =~= multiple_grants_error(owner@, repo@));
                    assert(live_pull_grant(grants@[f as int], owner@, repo@, now));
                    assert(live_pull_grant(grants@[i as int], owner@, repo@, now));
                    return Err(e);
                },
                None => {
                    found = Some(i);
                },
            }
        }
        i += 1;
    }
    match found {
        Some(f) => Ok(f),
        None => {
            let mut e = owned("no live pull grant for ");
            append(&mut e, owner);
            e.push('/');
            append(&mut e, repo);
            append(&mut e, "; run `co access request ");
            append(&mut e, owner);
            e.push('/');
            append(&mut e, repo);
            e.push('`');
            assert(e@ =~= no_live_grant_error(owner@, repo@));
            Err(e)
        },
    }
}

pub open spec fn unknown_request_error(request_id: Seq<char>) -> Seq<char> {
    "no local pending request "@ + debug_quoted(request_id)
}

/// Which pending request `co access wait` resumes: the one with the given ID,
/// or the only one when none is given.
pub fn pending_request_index(config: &Config, request_id: Option<&str>) -> (r: Result<
    usize,
    String,
>)
    ensures
        match request_id {
            Some(id) => match r {
                Ok(i) => i < config.pending_agent_requests@.len()
                    && config.pending_agent_requests@[i as int].id@ == id@ && forall|j: int|
                    0 <= j < i ==> (#[trigger] config.pending_agent_requests@[j]).id@ != id@,
                Err(e) => (forall|j: int|
                    0 <= j < config.pending_agent_requests@.len() ==> (
                    #[trigger] config.pending_agent_requests@[j]).id@ != id@) && e@
                    == unknown_request_error(id@),
            },
            None => {
                &&& config.pending_agent_requests@.len() == 0 ==> (r matches Err(e) && e@
                    == "no pending agent access request"@)
                &&& config.pending_agent_requests@.len() == 1 ==> r == Ok::<usize, String>(0)
                &&& config.pending_agent_requests@.len() > 1 ==> (r matches Err(e) && e@
                    == "multiple pending requests; pass the request ID shown by `co access request`"@)
            },
        },
{
    let requests = &config.pending_agent_requests;
    match request_id {
        Some(id) => {
            let mut i: usize = 0;
            while i < requests.len()
                invariant
                    i <= requests.len(),
                    requests == &config.pending_agent_requests,
                    request_id == Some(id),
                    forall|j: int| 0 <= j < i ==> (#[trigger] requests@[j]).id@ != id@,
                decreases requests.len() - i,
            {
                if str_eq(requests[i].id.as_str(), id) {
                    assert(requests@[i as int].id@ == id@);
                    return Ok(i);
                }
                i += 1;
            }
            let mut e = owned("no local pending request ");
            let q = debug_quote(id);
            append(&mut e, q.as_str());
            Err(e)
        },
        None => {
            if requests.len() == 0 {
                Err(owned("no pending agent access request"))
            } else if requests.len() == 1 {
                Ok(0)
            } else {
                Err(
                    owned(
                        "multiple pending requests; pass the request ID shown by `co access request`",
                    ),
                )
            }
        },
    }
}

/// How an `--agent` selector resolves against a list of agents.
#[derive(Debug, PartialEq, Eq)]
pub enum AgentMatch {
    Found(usize),
    Ambiguous,
    Missing,
}

/// A selector resolves to the first agent with that ID, else to the one agent
/// with that name; several agents with that name are ambiguous.
pub open spec fn agent_match_ok(agents: Seq<AgentIdentity>, selector: Seq<char>, m: AgentMatch) -> bool {
    let by_id = exists|j: int| 0 <= j < agents.len() && (#[trigger] agents[j]).id@ == selector;
    match m {
        AgentMatch::Found(i) => {
            &&& i < agents.len()
            &&& if by_id {
                agents[i as int].id@ == selector && forall|j: int|
                    0 <= j < i ==> (#[trigger] agents[j]).id@ != selector
            } else {
                agents[i as int].name@ == selector && forall|j: int|
                    0 <= j < agents.len() && j != i ==> (#[trigger] agents[j]).name@ != selector
            }
        },
        AgentMatch::Ambiguous => !by_id && exists|j: int, k: int|
            0 <= j < k < agents.len() && (#[trigger] agents[j]).name@ == selector && (
            #[trigger] agents[k]).name@ == selector,
        AgentMatch::Missing => forall|j: int|
            0 <= j < agents.len() ==> (#[trigger] agents[j]).id@ != selector && agents[j].name@
                != selector,
    }
}

/// Resolves an agent selector by ID, then by unique name.
pub fn find_agent(agents: &[AgentIdentity], selector: &str) -> (r: AgentMatch)
    ensures
        agent_match_ok(agents@, selector@, r),
{
    let mut i: usize = 0;
    while i < agents.len()
        invariant
            i <= agents.len(),
            forall|j: int| 0 <= j < i ==> (#[trigger] agents@[j]).id@ != selector@,
        decreases agents.len() - i,
    {
        if str_eq(agents[i].id.as_str(), selector) {
            assert(agents@[i as int].id@ == selector@);
            return AgentMatch::Found(i);
        }
        i += 1;
    }
    let mut found: Option<usize> = None;
    let mut k: usize = 0;
    while k < agents.len()
        invariant
            k <= agents.len(),
            forall|j: int| 0 <= j < agents.len() ==> (#[trigger] agents@[j]).id@ != selector@,
            match found {
                Some(f) => f < k && agents@[f as int].name@ == selector@ && forall|j: int|
                    0 <= j < k && j != f ==> (#[trigger] agents@[j]).name@ != selector@,
                None => forall|j: int| 0 <= j < k ==> (#[trigger] agents@[j]).name@ != selector@,
            },
        decreases agents.len() - k,
    {
        if str_eq(agents[k].name.as_str(), selector) {
            match found {
                Some(f) => {
                    assert(agents@[f as int].name@ == selector@);
                    assert(agents@[k as int].name@ == selector@);
                    return AgentMatch::Ambiguous;
                },
                None => {
                    found = Some(k);
                },
            }
        }
        k += 1;
    }
    match found {
        Some(f) => AgentMatch::Found(f),
        None => AgentMatch::Missing,
    }
}

pub open spec fn ambiguous_agent_text(selector: Seq<char>) -> Seq<char> {
    "multiple agents are named "@ + debug_quoted(selector) + "; pass an agent ID"@
}

pub fn ambiguous_agent_error(selector: &str) -> (r: String)
    ensures
        r@ == ambiguous_agent_text(selector@),
{
    let mut e = owned("multiple agents are named ");
    let q = debug_quote(selector);
    append(&mut e, q.as_str());
    append(&mut e, "; pass an agent ID");
    e
}

/// The agent to use when no `--agent` is given: the only local one.
pub fn default_agent(config: &Config) -> (r: Result<usize, String>)
    ensures
        config.agents@.len() == 1 ==> r == Ok::<usize, String>(0),
        config.agents@.len() == 0 ==> (r matches Err(e) && e@
            == "no local agent; pass `--agent <name>` to register one"@),
        config.agents@.len() > 1 ==> (r matches Err(e) && e@
            == "multiple local agents; pass `--agent <id-or-name>`"@),
{
    if config.agents.len() == 1 {
        Ok(0)
    } else if config.agents.len() == 0 {
        Err(owned("no local agent; pass `--agent <name>` to register one"))
    } else {
        Err(owned("multiple local agents; pass `--agent <id-or-name>`"))
    }
}

/// Adds a registered agent unless an agent with its ID is already known;
/// tells whether it was added.
pub fn add_agent_if_new(config: &mut Config, agent: AgentIdentity) -> (added: bool)
    ensures
        added == forall|j: int|
            0 <= j < old(config).agents@.len() ==> (#[trigger] old(config).agents@[j]).id@
                != agent.id@,
        added ==> final(config).agents@ == old(config).agents@.push(agent),
        !added ==> final(config).agents@ == old(config).agents@,
        same_settings(*final(config), *old(config)),
        final(config).pending_agent_submissions == old(config).pending_agent_submissions,
        final(config).pending_agent_requests == old(config).pending_agent_requests,
        final(config).agent_grants == old(config).agent_grants,
        final(config).machines == old(config).machines,
{
    let mut i: usize = 0;
    while i < config.agents.len()
        invariant
            i <= config.agents@.len(),
            *config == *old(config),
            forall|j: int| 0 <= j < i ==> (#[trigger] config.agents@[j]).id@ != agent.id@,
        decreases config.agents@.len() - i,
    {
        if str_eq(config.agents[i].id.as_str(), agent.id.as_str()) {
            assert(config.agents@[i as int].id@ == agent.id@);
            return false;
        }
        i += 1;
    }
    config.agents.push(agent);
    true
}

pub open spec fn default_api_url() -> Seq<char> {
    "https://api.co.codes"@
}

/// `s` without its trailing slashes.
pub open spec fn trim_end_slashes(s: Seq<char>) -> Seq<char>
    decreases s.len(),
{
    if s.len() > 0 && s.last() == '/' {
        trim_end_slashes(s.drop_last())
    } else {
        s
    }
}

/// The API base URL: `CO_API_URL` when set, else the configured one, else
/// the production API, without trailing slashes.
pub open spec fn api_url_text(env_override: Option<Seq<char>>, configured: Option<Seq<char>>) -> Seq<
    char,
> {
    trim_end_slashes(
        match env_override {
            Some(u) => u,
            None => match configured {
                Some(u) => u,
                None => default_api_url(),
            },
        },
    )
}

/// Chooses the API base URL from the environment override and the configuration.
pub fn api_url(env_override: Option<&str>, config: &Config) -> (r: String)
    ensures
        r@ == api_url_text(opt_str(env_override), opt_seq(config.api_url)),
{
    let chosen: &str = match env_override {
        Some(u) => u,
        None => match &config.api_url {
            Some(u) => u.as_str(),
            None => "https://api.co.codes",
        },
    };
    let v = crate::text::chars_of(chosen);
    let mut end = v.len();
    assert(v@.take(end as int) =~= chosen@);
    while end > 0 && v[end - 1] == '/'
        invariant
            end <= v.len(),
            v@ == chosen@,
            trim_end_slashes(v@.take(end as int)) == trim_end_slashes(chosen@),
        decreases end,
    {
        assert(v@.take(end as int).drop_last() =~= v@.take(end - 1));
        end -= 1;
    }
    let r = crate::text::slice_string(&v, 0, end);
    assert(r@ =~= v@.take(end as int));
    r
}

/// Where the configuration file lives.
#[derive(Debug, PartialEq, Eq, Clone, Copy)]
pub enum ConfigDir {
    /// `$CO_CONFIG_DIR/config.json`
    Override,
    /// `$XDG_CONFIG_HOME/co/config.json`
    XdgConfigHome,
    /// `$HOME/.config/co/config.json`
    Home,
}

/// A nonempty `CO_CONFIG_DIR` takes precedence over `XDG_CONFIG_HOME`, which
/// takes precedence over `HOME`; with none of them there is no location.
pub fn config_dir(override_nonempty: bool, xdg_set: bool, home_set: bool) -> (r: Result<
    ConfigDir,
    String,
>)
    ensures
        override_nonempty ==> r == Ok::<ConfigDir, String>(ConfigDir::Override),
        !override_nonempty && xdg_set ==> r == Ok::<ConfigDir, String>(ConfigDir::XdgConfigHome),
        !override_nonempty && !xdg_set && home_set ==> r == Ok::<ConfigDir, String>(
            ConfigDir::Home,
        ),
        !override_nonempty && !xdg_set && !home_set ==> (r matches Err(e) && e@
            == "HOME is unset; set XDG_CONFIG_HOME for co"@),
{
    if override_nonempty {
        Ok(ConfigDir::Override)
    } else if xdg_set {
        Ok(ConfigDir::XdgConfigHome)
    } else if home_set {
        Ok(ConfigDir::Home)
    } else {
        Err(owned("HOME is unset; set XDG_CONFIG_HOME for co"))
    }
}

/// The path of the configuration file below the chosen directory.
pub fn config_file_suffix(dir: ConfigDir) -> (r: &'static str)
    ensures
        r@ == match dir {
            ConfigDir::Override => "config.json"@,
            ConfigDir::XdgConfigHome => "co/config.json"@,
            ConfigDir::Home => ".config/co/config.json"@,
        },
{
    match dir {
        ConfigDir::Override => "config.json",
        ConfigDir::XdgConfigHome => "co/config.json",
        ConfigDir::Home => ".config/co/config.json",
    }
}

/// A machine other than the one with the given ID.
pub open spec fn machine_id_differs(id: Seq<char>) -> spec_fn(MachineIdentity) -> bool {
    |m: MachineIdentity| m.id@ != id
}

/// Records an enrolled machine in place of any earlier one with its ID.
pub fn record_machine(config: &mut Config, machine: MachineIdentity)
    ensures
        final(config).machines@ == old(config).machines@.filter(machine_id_differs(machine.id@)).push(
            machine,
        ),
        same_settings(*final(config), *old(config)),
        final(config).agents == old(config).agents,
        final(config).pending_agent_submissions == old(config).pending_agent_submissions,
        final(config).pending_agent_requests == old(config).pending_agent_requests,
        final(config).agent_grants == old(config).agent_grants,
{
    let mut taken: Vec<MachineIdentity> = Vec::new();
    std::mem::swap(&mut taken, &mut config.machines);
    let keep = |m: &MachineIdentity| -> (b: bool)
        ensures
            b == (m.id@ != machine.id@),
        { !str_eq(m.id.as_str(), machine.id.as_str()) };
    let mut kept = retain_where(taken, Ghost(machine_id_differs(machine.id@)), keep);
    kept.push(machine);
    config.machines = kept;
}

/// The first enrolled machine with the given ID, if any.
pub fn find_machine(config: &Config, id: &str) -> (r: Option<usize>)
    ensures
        match r {
            Some(i) => i < config.machines@.len() && config.machines@[i as int].id@ == id@
                && forall|j: int| 0 <= j < i ==> (#[trigger] config.machines@[j]).id@ != id@,
            None => forall|j: int|
                0 <= j < config.machines@.len() ==> (#[trigger] config.machines@[j]).id@ != id@,
        },
{
    let mut i: usize = 0;
    while i < config.machines.len()
        invariant
            i <= config.machines@.len(),
            forall|j: int| 0 <= j < i ==> (#[trigger] config.machines@[j]).id@ != id@,
        decreases config.machines@.len() - i,
    {
        if str_eq(config.machines[i].id.as_str(), id) {
            assert(config.machines@[i as int].id@ == id@);
            return Some(i);
        }
        i += 1;
    }
    None
}

/// The request that mints a repository token from a grant: the API path
/// and the `authorization` header.
pub open spec fn token_request_text(g: AgentGrant) -> (Seq<char>, Seq<char>) {
    ("/grants/"@ + g.grant_id@ + "/token"@, "Lineage "@ + g.lineage_token@)
}

/// The token request for the one live pull grant of `owner/repo`.
pub fn agent_token_request(config: &Config, owner: &str, repo: &str, now: u64) -> (r: Result<
    (String, String),
    String,
>)
    ensures
        match r {
            Ok((path, authorization)) => exists|i: int|
                0 <= i < config.agent_grants@.len() && live_pull_grant(
                    #[trigger] config.agent_grants@[i],
                    owner@,
                    repo@,
                    now,
                ) && (forall|j: int|
                    0 <= j < config.agent_grants@.len() && j != i ==> !live_pull_grant(
                        #[trigger] config.agent_grants@[j],
                        owner@,
                        repo@,
                        now,
                    )) && token_request_text(config.agent_grants@[i]) == (path@, authorization@),
            Err(e) => {
                ||| (forall|j: int|
                    0 <= j < config.agent_grants@.len() ==> !live_pull_grant(
                        #[trigger] config.agent_grants@[j],
                        owner@,
                        repo@,
                        now,
                    )) && e@ == no_live_grant_error(owner@, repo@)
                ||| (exists|j: int, k: int|
                    0 <= j < k < config.agent_grants@.len() && live_pull_grant(
                        #[trigger] config.agent_grants@[j],
                        owner@,
                        repo@,
                        now,
                    ) && live_pull_grant(#[trigger] config.agent_grants@[k], owner@, repo@, now))
                    && e@ == multiple_grants_error(owner@, repo@)
            },
        },
{
    let i = match select_pull_grant(config, owner, repo, now) {
        Ok(i) => i,
        Err(e) => {
            return Err(e);
        },
    };
    let grant = &config.agent_grants[i];
    let mut path = owned("/grants/");
    append(&mut path, grant.grant_id.as_str());
    append(&mut path, "/token");
    let mut authorization = owned("Lineage ");
    append(&mut authorization, grant.lineage_token.as_str());
    assert(token_request_text(config.agent_grants@[i as int]) == (path@, authorization@));
    Ok((path, authorization))
}

/// A grant for the agent and repository that a pending request names.
pub open spec fn grant_for_request(g: AgentGrant, pending: PendingAgentRequest) -> bool {
    g.agent_id@ == pending.agent_id@ && g.owner@ == pending.owner@ && g.repo@ == pending.repo@
}

/// After an approved grant is stored, it is the only grant of its agent for
/// its repository, the other grants stay in order, and the pending request
/// it answers is gone.
pub proof fn law_stored_grant_is_the_only_one(
    grants: Seq<AgentGrant>,
    requests: Seq<PendingAgentRequest>,
    pending: PendingAgentRequest,
    grant: AgentGrant,
)
    requires
        grant_for_request(grant, pending),
    ensures
        ({
            let stored = grants.filter(other_grant_target(pending)).push(grant);
            &&& stored.last() == grant
            &&& forall|j: int|
                0 <= j < stored.len() - 1 ==> !grant_for_request(#[trigger] stored[j], pending)
            &&& forall|j: int|
                0 <= j < stored.len() - 1 ==> grants.contains(#[trigger] stored[j])
        }),
        forall|j: int|
            0 <= j < requests.filter(request_id_differs(pending.id@)).len() ==> (
            #[trigger] requests.filter(request_id_differs(pending.id@))[j]).id@ != pending.id@,
{
    let p = other_grant_target(pending);
    let kept = grants.filter(p);
    let stored = kept.push(grant);
    assert forall|j: int| 0 <= j < stored.len() - 1 implies !grant_for_request(
        #[trigger] stored[j],
        pending,
    ) && grants.contains(stored[j]) by {
        assert(stored[j] == kept[j]);
        grants.lemma_filter_pred(p, j);
        grants.lemma_filter_contains_rev(p, kept[j]);
    }
    let q = request_id_differs(pending.id@);
    assert forall|j: int|
        0 <= j < requests.filter(q).len() implies (#[trigger] requests.filter(q)[j]).id@
        != pending.id@ by {
        requests.lemma_filter_pred(q, j);
    }
}

/// Two grants for the same agent and the same repository.
pub open spec fn same_grant_target(a: AgentGrant, b: AgentGrant) -> bool {
    a.agent_id@ == b.agent_id@ && a.owner@ == b.owner@ && a.repo@ == b.repo@
}

/// No two grants are for the same agent and repository.
pub open spec fn grants_unique(grants: Seq<AgentGrant>) -> bool {
    forall|i: int, j: int|
        0 <= i < j < grants.len() ==> !same_grant_target(#[trigger] grants[i], #[trigger] grants[j])
}

proof fn lemma_filter_keeps_unique(grants: Seq<AgentGrant>, p: spec_fn(AgentGrant) -> bool)
    requires
        grants_unique(grants),
    ensures
        grants_unique(grants.filter(p)),
    decreases grants.len(),
{
    reveal(Seq::filter);
    if grants.len() > 0 {
        let rest = grants.drop_last();
        assert(grants_unique(rest)) by {
            assert forall|i: int, j: int| 0 <= i < j < rest.len() implies !same_grant_target(
                #[trigger] rest[i],
                #[trigger] rest[j],
            ) by {
                assert(rest[i] == grants[i] && rest[j] == grants[j]);
            }
        }
        lemma_filter_keeps_unique(rest, p);
        let kept = rest.filter(p);
        let last = grants.last();
        if p(last) {
            let stored = kept.push(last);
            assert(grants.filter(p) == stored);
            assert forall|i: int, j: int| 0 <= i < j < stored.len() implies !same_grant_target(
                #[trigger] stored[i],
                #[trigger] stored[j],
            ) by {
                if j == stored.len() - 1 {
                    assert(stored[i] == kept[i]);
                    assert(kept.contains(kept[i]));
                    rest.lemma_filter_contains_rev(p, kept[i]);
                    let k = choose|k: int| 0 <= k < rest.len() && rest[k] == kept[i];
                    assert(grants[k] == kept[i]);
                    assert(!same_grant_target(grants[k], grants[grants.len() - 1]));
                } else {
                    assert(stored[i] == kept[i] && stored[j] == kept[j]);
                }
            }
        } else {
            assert(grants.filter(p) == kept);
        }
    }
}

/// Storing approved grants keeps at most one grant per agent and repository:
/// when the stored grants hold no two for the same agent and repository,
/// neither do they after a grant for the pending request is stored.
pub proof fn law_grants_stay_unique(
    grants: Seq<AgentGrant>,
    pending: PendingAgentRequest,
    grant: AgentGrant,
)
    requires
        grants_unique(grants),
        grant_for_request(grant, pending),
    ensures
        grants_unique(grants.filter(other_grant_target(pending)).push(grant)),
{
    let p = other_grant_target(pending);
    lemma_filter_keeps_unique(grants, p);
    let kept = grants.filter(p);
    let stored = kept.push(grant);
    assert forall|i: int, j: int| 0 <= i < j < stored.len() implies !same_grant_target(
        #[trigger] stored[i],
        #[trigger] stored[j],
    ) by {
        assert(stored[i] == kept[i]);
        if j == stored.len() - 1 {
            grants.lemma_filter_pred(p, i);
        } else {
            assert(stored[j] == kept[j]);
        }
    }
}

/// Storing an approved grant loses no other grant: every grant that is not
/// for the pending request's agent, owner and repository is still stored
/// afterwards, and every grant that is gone was for exactly that agent,
/// owner and repository.
pub proof fn law_storing_a_grant_keeps_the_others(
    grants: Seq<AgentGrant>,
    pending: PendingAgentRequest,
    grant: AgentGrant,
)
    ensures
        forall|j: int|
            0 <= j < grants.len() && !(grants[j].agent_id@ == pending.agent_id@ && grants[j].owner@
                == pending.owner@ && grants[j].repo@ == pending.repo@) ==> grants.filter(
                other_grant_target(pending),
            ).push(grant).contains(#[trigger] grants[j]),
        forall|g: AgentGrant|
            grants.contains(g) && !(#[trigger] grants.filter(other_grant_target(pending)).push(
                grant,
            ).contains(g)) ==> g.agent_id@ == pending.agent_id@ && g.owner@ == pending.owner@
                && g.repo@ == pending.repo@,
{
    let p = other_grant_target(pending);
    let stored = grants.filter(p).push(grant);
    assert forall|j: int|
        0 <= j < grants.len() && !(grants[j].agent_id@ == pending.agent_id@ && grants[j].owner@
            == pending.owner@ && grants[j].repo@ == pending.repo@) implies stored.contains(
        #[trigger] grants[j],
    ) by {
        grants.lemma_filter_contains(p, j);
        let k = choose|k: int| 0 <= k < grants.filter(p).len() && grants.filter(p)[k] == grants[j];
        assert(stored[k] == grants[j]);
    }
    assert forall|g: AgentGrant| grants.contains(g) && !(#[trigger] stored.contains(g)) implies g.agent_id@
        == pending.agent_id@ && g.owner@ == pending.owner@ && g.repo@ == pending.repo@ by {
        let j = choose|j: int| 0 <= j < grants.len() && grants[j] == g;
        if !(g.agent_id@ == pending.agent_id@ && g.owner@ == pending.owner@ && g.repo@
            == pending.repo@) {
            grants.lemma_filter_contains(p, j);
            let k = choose|k: int| 0 <= k < grants.filter(p).len() && grants.filter(p)[k] == g;
            assert(stored[k] == g);
        }
    }
}

/// A pull grant counts as live for `owner/repo` exactly when it is for that
/// owner and that repository, allows `pull`, and expires after `now`; a grant
/// for another owner or another repository never counts.
pub proof fn law_live_pull_grant_is_for_the_repository(
    g: AgentGrant,
    owner: Seq<char>,
    repo: Seq<char>,
    now: u64,
)
    ensures
        live_pull_grant(g, owner, repo, now) ==> g.owner@ == owner && g.repo@ == repo,
        g.owner@ != owner ==> !live_pull_grant(g, owner, repo, now),
        g.repo@ != repo ==> !live_pull_grant(g, owner, repo, now),
        g.expires_unix <= now ==> !live_pull_grant(g, owner, repo, now),
        !texts(g.operations@).contains("pull"@) ==> !live_pull_grant(g, owner, repo, now),
        g.owner@ == owner && g.repo@ == repo && g.expires_unix > now && texts(
            g.operations@,
        ).contains("pull"@) ==> live_pull_grant(g, owner, repo, now),
{
}

/// The grant that mints an agent's repository token belongs to that
/// repository: when the selection succeeds, the chosen grant's owner and
/// repository are the requested ones.
pub proof fn law_selected_pull_grant_is_for_the_repository(
    grants: Seq<AgentGrant>,
    i: int,
    owner: Seq<char>,
    repo: Seq<char>,
    now: u64,
)
    requires
        0 <= i < grants.len(),
        live_pull_grant(grants[i], owner, repo, now),
    ensures
        grants[i].owner@ == owner,
        grants[i].repo@ == repo,
        grants[i].expires_unix > now,
{
}

/// Once a pending request is removed, no request with its ID is left, so
/// `co access wait` with that ID reports it unknown.
pub proof fn law_removed_request_is_unknown(requests: Seq<PendingAgentRequest>, request_id: Seq<char>)
    ensures
        forall|j: int|
            0 <= j < requests.filter(request_id_differs(request_id)).len() ==> (
            #[trigger] requests.filter(request_id_differs(request_id))[j]).id@ != request_id,
{
    let q = request_id_differs(request_id);
    assert forall|j: int|
        0 <= j < requests.filter(q).len() implies (#[trigger] requests.filter(q)[j]).id@
        != request_id by {
        requests.lemma_filter_pred(q, j);
    }
}

/// After a created request is recorded, exactly one pending request has its
/// ID (the recorded one, last), and `co access wait` with that ID finds it.
pub proof fn law_recorded_request_is_found_once(
    requests: Seq<PendingAgentRequest>,
    pending: PendingAgentRequest,
)
    ensures
        ({
            let recorded = requests.filter(request_id_differs(pending.id@)).push(pending);
            &&& recorded.last() == pending
            &&& forall|j: int|
                0 <= j < recorded.len() - 1 ==> (#[trigger] recorded[j]).id@ != pending.id@
            &&& exists|i: int|
                0 <= i < recorded.len() && (#[trigger] recorded[i]).id@ == pending.id@
                    && forall|j: int| 0 <= j < i ==> (#[trigger] recorded[j]).id@ != pending.id@
        }),
{
    let q = request_id_differs(pending.id@);
    let kept = requests.filter(q);
    let recorded = kept.push(pending);
    assert forall|j: int| 0 <= j < recorded.len() - 1 implies (#[trigger] recorded[j]).id@
        != pending.id@ by {
        assert(recorded[j] == kept[j]);
        requests.lemma_filter_pred(q, j);
    }
    let last = recorded.len() - 1;
    assert(recorded[last].id@ == pending.id@);
}

/// A submission saved before it is sent is found again by a rerun of the
/// same request, so the rerun reuses its capability and idempotency key.
pub proof fn law_saved_submission_is_reused(
    submissions: Seq<PendingAgentSubmission>,
    saved: PendingAgentSubmission,
)
    ensures
        exists|i: int|
            0 <= i < submissions.push(saved).len() && submission_matches(
                #[trigger] submissions.push(saved)[i],
                saved.agent_id@,
                saved.owner@,
                saved.repo@,
                texts(saved.operations@),
                saved.ttl_seconds,
                opt_seq(saved.reason),
            ),
{
    let i = submissions.len() as int;
    assert(submissions.push(saved)[i] == saved);
}

/// The chosen API base URL never ends with a slash, and choosing it again
/// from itself changes nothing.
pub proof fn law_api_url_is_trimmed(env_override: Option<Seq<char>>, configured: Option<Seq<char>>)
    ensures
        ({
            let u = api_url_text(env_override, configured);
            &&& !(u.len() > 0 && u.last() == '/')
            &&& api_url_text(Some(u), configured) == u
        }),
{
    let chosen = match env_override {
        Some(u) => u,
        None => match configured {
            Some(u) => u,
            None => default_api_url(),
        },
    };
    lemma_trim_end_slashes(chosen);
}

proof fn lemma_trim_end_slashes(s: Seq<char>)
    ensures
        !(trim_end_slashes(s).len() > 0 && trim_end_slashes(s).last() == '/'),
        trim_end_slashes(trim_end_slashes(s)) == trim_end_slashes(s),
    decreases s.len(),
{
    if s.len() > 0 && s.last() == '/' {
        lemma_trim_end_slashes(s.drop_last());
    }
}

} // verus!
