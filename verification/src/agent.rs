//! Publishing as an agent: the push grant that `CO_AGENT_ID` selects, the
//! credentials the Git helper hands out in agent mode, and commit attestation.

use vstd::prelude::*;
use crate::config::{AgentGrant, Config, token_request_text};
use crate::credential::{
    credential_field, credential_in_scope, field_scan, parse_credential, credential_scan,
    GitCredential,
};
use crate::api::{api_error, api_error_text, ApiError};
use crate::cli::args_from;
use crate::repo::{repo_spec, repo_spec_error, repo_spec_parts};
use crate::runner::{full_commit_oid, is_full_commit_oid};
use crate::text::{
    append, chars_end_with, chars_of, debug_quote, debug_quoted, ends_with, opt_seq, opt_str, owned,
    str_eq, texts,
};

verus! {

/// A grant that lets `agent` push to `owner/repo` and is still live at `now`.
pub open spec fn live_push_grant(
    g: AgentGrant,
    agent: Seq<char>,
    owner: Seq<char>,
    repo: Seq<char>,
    now: u64,
) -> bool {
    &&& g.agent_id@ == agent
    &&& g.owner@ == owner
    &&& g.repo@ == repo
    &&& g.expires_unix > now
    &&& texts(g.operations@).contains("push"@)
}

pub open spec fn no_push_grant_error(agent: Seq<char>, owner: Seq<char>, repo: Seq<char>) -> Seq<
    char,
> {
    "no live push grant for agent "@ + agent + " on "@ + owner + seq!['/'] + repo
        + "; run `co access request --agent "@ + agent + " --push "@ + owner + seq!['/'] + repo
        + seq!['`']
}

pub open spec fn multiple_push_grants_error(
    agent: Seq<char>,
    owner: Seq<char>,
    repo: Seq<char>,
) -> Seq<char> {
    "multiple live push grants for agent "@ + agent + " on "@ + owner + seq!['/'] + repo
}

/// Grant `i` is the one live push grant of `agent` on `owner/repo`.
pub open spec fn sole_push_grant(
    grants: Seq<AgentGrant>,
    i: int,
    agent: Seq<char>,
    owner: Seq<char>,
    repo: Seq<char>,
    now: u64,
) -> bool {
    &&& 0 <= i < grants.len()
    &&& live_push_grant(grants[i], agent, owner, repo, now)
    &&& forall|j: int|
        0 <= j < grants.len() && j != i ==> !live_push_grant(
            #[trigger] grants[j],
            agent,
            owner,
            repo,
            now,
        )
}

/// No grant lets `agent` push to `owner/repo` at `now`.
pub open spec fn no_push_grant(
    grants: Seq<AgentGrant>,
    agent: Seq<char>,
    owner: Seq<char>,
    repo: Seq<char>,
    now: u64,
) -> bool {
    forall|j: int| 0 <= j < grants.len() ==> !live_push_grant(#[trigger] grants[j], agent, owner, repo, now)
}

/// Two grants or more let `agent` push to `owner/repo` at `now`.
pub open spec fn several_push_grants(
    grants: Seq<AgentGrant>,
    agent: Seq<char>,
    owner: Seq<char>,
    repo: Seq<char>,
    now: u64,
) -> bool {
    exists|j: int, k: int|
        0 <= j < k < grants.len() && live_push_grant(#[trigger] grants[j], agent, owner, repo, now)
            && live_push_grant(#[trigger] grants[k], agent, owner, repo, now)
}

/// Why no push grant could be selected.
pub open spec fn push_grant_refusal(
    grants: Seq<AgentGrant>,
    agent: Seq<char>,
    owner: Seq<char>,
    repo: Seq<char>,
    now: u64,
    e: Seq<char>,
) -> bool {
    ||| no_push_grant(grants, agent, owner, repo, now) && e == no_push_grant_error(agent, owner, repo)
    ||| several_push_grants(grants, agent, owner, repo, now) && e == multiple_push_grants_error(
        agent,
        owner,
        repo,
    )
}

fn is_live_push_grant(g: &AgentGrant, agent: &str, owner: &str, repo: &str, now: u64) -> (r: bool)
    ensures
        r == live_push_grant(*g, agent@, owner@, repo@, now),
{
    str_eq(g.agent_id.as_str(), agent) && str_eq(g.owner.as_str(), owner) && str_eq(
        g.repo.as_str(),
        repo,
    ) && g.expires_unix > now && crate::config::has_operation(g.operations.as_slice(), "push")
}

fn push_grant_error(agent: &str, owner: &str, repo: &str) -> (e: String)
    ensures
        e@ == no_push_grant_error(agent@, owner@, repo@),
{
    let mut e = owned("no live push grant for agent ");
    append(&mut e, agent);
    append(&mut e, " on ");
    append(&mut e, owner);
    e.push('/');
    append(&mut e, repo);
    append(&mut e, "; run `co access request --agent ");
    append(&mut e, agent);
    append(&mut e, " --push ");
    append(&mut e, owner);
    e.push('/');
    append(&mut e, repo);
    e.push('`');
    e
}

/// The one live push grant of `agent` for `owner/repo`; none, or more than
/// one, is an error.
pub fn select_push_grant(config: &Config, agent: &str, owner: &str, repo: &str, now: u64) -> (r:
    Result<usize, String>)
    ensures
        match r {
            Ok(i) => sole_push_grant(config.agent_grants@, i as int, agent@, owner@, repo@, now),
            Err(e) => push_grant_refusal(config.agent_grants@, agent@, owner@, repo@, now, e@),
        },
{
    let grants = &config.agent_grants;
    let mut found: Option<usize> = None;
    let mut i: usize = 0;
    while i < grants.len()
        invariant
            i <= grants.len(),
            grants == &config.agent_grants,
            match found {
                Some(f) => f < i && live_push_grant(grants@[f as int], agent@, owner@, repo@, now)
                    && forall|j: int|
                    0 <= j < i && j != f ==> !live_push_grant(
                        #[trigger] grants@[j],
                        agent@,
                        owner@,
                        repo@,
                        now,
                    ),
                None => forall|j: int|
                    0 <= j < i ==> !live_push_grant(
                        #[trigger] grants@[j],
                        agent@,
                        owner@,
                        repo@,
                        now,
                    ),
            },
        decreases grants.len() - i,
    {
        if is_live_push_grant(&grants[i], agent, owner, repo, now) {
            match found {
                Some(f) => {
                    let mut e = owned("multiple live push grants for agent ");
                    append(&mut e, agent);
                    append(&mut e, " on ");
                    append(&mut e, owner);
                    e.push('/');
                    append(&mut e, repo);
                    assert(e@ =~= multiple_push_grants_error(agent@, owner@, repo@));
                    assert(live_push_grant(grants@[f as int], agent@, owner@, repo@, now));
                    assert(live_push_grant(grants@[i as int], agent@, owner@, repo@, now));
                    return Err(e);
                },
                None => {
                    found = Some(i);
                },
            }
        }
        i += 1;
    }
    match found {
        Some(f) => Ok(f),
        None => {
            let e = push_grant_error(agent, owner, repo);
            Err(e)
        },
    }
}

/// The token request (API path and `authorization` header) for the one live
/// push grant of `agent` on `owner/repo`.
pub fn agent_push_token_request(
    config: &Config,
    agent: &str,
    owner: &str,
    repo: &str,
    now: u64,
) -> (r: Result<(String, String), String>)
    ensures
        match r {
            Ok((path, authorization)) => exists|i: int|
                sole_push_grant(config.agent_grants@, i, agent@, owner@, repo@, now)
                    && token_request_text(#[trigger] config.agent_grants@[i]) == (
                    path@,
                    authorization@,
                ),
            Err(e) => push_grant_refusal(config.agent_grants@, agent@, owner@, repo@, now, e@),
        },
{
    let i = match select_push_grant(config, agent, owner, repo, now) {
        Ok(i) => i,
        Err(e) => {
            return Err(e);
        },
    };
    let grant = &config.agent_grants[i];
    let mut path = owned("/grants/");
    append(&mut path, grant.grant_id.as_str());
    append(&mut path, "/token");
    let mut authorization = owned("Lineage ");
    append(&mut authorization, grant.lineage_token.as_str());
    assert(token_request_text(config.agent_grants@[i as int]) == (path@, authorization@));
    Ok((path, authorization))
}


/// The repository that an agent-mode credential request names: an HTTPS
/// request to the Git host whose `path` is `<owner>/<repo>.git`.
pub open spec fn agent_request_repo(
    protocol: Option<Seq<char>>,
    host: Option<Seq<char>>,
    path: Option<Seq<char>>,
) -> Option<(Seq<char>, Seq<char>)> {
    if credential_in_scope(protocol, host) {
        match path {
            Some(p) => if ends_with(p, ".git"@) {
                repo_spec_parts(p.take(p.len() - 4))
            } else {
                None
            },
            None => None,
        }
    } else {
        None
    }
}

pub open spec fn agent_request_error() -> Seq<char> {
    "agent credentials are issued only for https://git.co.codes/<owner>/<repo>.git requests; run `co link` again so that Git sends the repository path"@
}

fn agent_request_refusal() -> (e: String)
    ensures
        e@ == agent_request_error(),
{
    owned(
        "agent credentials are issued only for https://git.co.codes/<owner>/<repo>.git requests; run `co link` again so that Git sends the repository path",
    )
}

/// The owner and repository of an agent-mode credential request.
pub fn agent_request_repo_of<'a>(credential: &GitCredential, path: Option<&'a str>) -> (r: Result<
    (&'a str, &'a str),
    String,
>)
    ensures
        match r {
            Ok((owner, repo)) => agent_request_repo(
                opt_str(credential.protocol),
                opt_str(credential.host),
                opt_str(path),
            ) == Some((owner@, repo@)),
            Err(e) => agent_request_repo(
                opt_str(credential.protocol),
                opt_str(credential.host),
                opt_str(path),
            ) is None && e@ == agent_request_error(),
        },
{
    if !credential.in_scope() {
        return Err(agent_request_refusal());
    }
    let p = match path {
        Some(p) => p,
        None => {
            return Err(agent_request_refusal());
        },
    };
    let v = chars_of(p);
    let suffix = chars_of(".git");
    proof {
        reveal_strlit(".git");
    }
    if !chars_end_with(&v, &suffix) {
        return Err(agent_request_refusal());
    }
    let stem = p.substring_char(0, v.len() - 4);
    assert(stem@ =~= p@.take(p@.len() - 4));
    match repo_spec(stem) {
        Ok((owner, repo)) => Ok((owner, repo)),
        Err(_) => Err(agent_request_refusal()),
    }
}

/// What the Git credential helper does in agent mode.
#[derive(Debug, PartialEq, Eq)]
pub enum AgentCredentialStep {
    /// Nothing: `store` and `erase` need no answer.
    Ignore,
    /// Mint a repository token with this request and hand it to Git.
    Mint { path: String, authorization: String },
    /// Refuse, for this reason, and tell Git to stop asking other helpers.
    Refuse(String),
}

/// The repository that the request text `input` names in agent mode.
pub open spec fn agent_input_repo(input: Seq<char>) -> Option<(Seq<char>, Seq<char>)> {
    let (protocol, host) = credential_scan(input, 0, None, None);
    agent_request_repo(protocol, host, field_scan(input, 0, "path"@, None))
}

/// The agent-mode step is right for `operation` on request `input`, for
/// agent `agent`, with these grants at `now`.
pub open spec fn agent_step_ok(
    operation: Seq<char>,
    input: Seq<char>,
    agent: Seq<char>,
    grants: Seq<AgentGrant>,
    now: u64,
    step: AgentCredentialStep,
) -> bool {
    if operation != "get"@ {
        step is Ignore
    } else {
        match agent_input_repo(input) {
            None => step matches AgentCredentialStep::Refuse(e) && e@ == agent_request_error(),
            Some((owner, repo)) => match step {
                AgentCredentialStep::Mint { path, authorization } => exists|i: int|
                    sole_push_grant(grants, i, agent, owner, repo, now) && token_request_text(
                        #[trigger] grants[i],
                    ) == (path@, authorization@),
                AgentCredentialStep::Refuse(e) => push_grant_refusal(
                    grants,
                    agent,
                    owner,
                    repo,
                    now,
                    e@,
                ),
                AgentCredentialStep::Ignore => false,
            },
        }
    }
}

/// Decides the agent-mode answer to a Git credential request: only the
/// selected agent's live push grant for the exact repository that the
/// request names is ever used; the human session plays no part.
pub fn agent_credential_step(
    operation: &str,
    input: &str,
    agent: &str,
    config: &Config,
    now: u64,
) -> (r: AgentCredentialStep)
    ensures
        agent_step_ok(operation@, input@, agent@, config.agent_grants@, now, r),
{
    if !str_eq(operation, "get") {
        return AgentCredentialStep::Ignore;
    }
    let credential = parse_credential(input);
    let path = credential_field(input, "path");
    let (owner, repo) = match agent_request_repo_of(&credential, path) {
        Ok(found) => found,
        Err(e) => {
            return AgentCredentialStep::Refuse(e);
        },
    };
    match agent_push_token_request(config, agent, owner, repo, now) {
        Ok((path, authorization)) => AgentCredentialStep::Mint { path, authorization },
        Err(e) => AgentCredentialStep::Refuse(e),
    }
}


/// Commits to attest for an agent: the repository and the commit IDs.
#[derive(Debug, PartialEq, Eq)]
pub struct AttestCommand {
    pub spec: String,
    pub commits: Vec<String>,
}

pub open spec fn attest_usage() -> Seq<char> {
    "usage: co agent attest <owner/repo> <full-commit-id>..."@
}

pub open spec fn too_many_commits_error() -> Seq<char> {
    "attest at most 100 commit IDs per invocation"@
}

/// A commit ID that may be attested: a full SHA-1 (40) or SHA-256 (64)
/// object ID in lowercase hexadecimal.
pub open spec fn attestable_commit(oid: Seq<char>) -> bool {
    full_commit_oid(oid) && (oid.len() == 40 || oid.len() == 64)
}

pub open spec fn commit_id_error(oid: Seq<char>) -> Seq<char> {
    debug_quoted(oid) + " is not a full 40- or 64-character commit ID"@
}

/// Argument `i` is the first commit ID that may not be attested.
pub open spec fn first_bad_commit(args: Seq<Seq<char>>, i: int) -> bool {
    &&& 1 <= i < args.len()
    &&& !attestable_commit(args[i])
    &&& forall|j: int| 1 <= j < i ==> attestable_commit(#[trigger] args[j])
}

/// What `co agent attest` makes of its arguments: the repository and the
/// commits, or the first problem with them.
pub open spec fn attest_result(args: Seq<Seq<char>>) -> Result<(Seq<char>, Seq<Seq<char>>), Seq<char>> {
    if args.len() < 2 {
        Err(attest_usage())
    } else if args.len() > 101 {
        Err(too_many_commits_error())
    } else if repo_spec_parts(args[0]) is None {
        Err(repo_spec_error())
    } else if exists|i: int| first_bad_commit(args, i) {
        Err(commit_id_error(args[choose|i: int| first_bad_commit(args, i)]))
    } else {
        Ok((args[0], args.skip(1)))
    }
}

pub open spec fn attest_view(r: Result<AttestCommand, String>) -> Result<(Seq<char>, Seq<Seq<char>>), Seq<char>> {
    match r {
        Ok(c) => Ok((c.spec@, texts(c.commits@))),
        Err(e) => Err(e@),
    }
}

proof fn lemma_first_bad_commit_unique(args: Seq<Seq<char>>, i: int, k: int)
    requires
        first_bad_commit(args, i),
        first_bad_commit(args, k),
    ensures
        i == k,
{
    if i < k {
        assert(attestable_commit(args[i]));
    } else if k < i {
        assert(attestable_commit(args[k]));
    }
}

proof fn lemma_first_bad_commit_exists(args: Seq<Seq<char>>, m: int)
    requires
        1 <= m < args.len(),
        !attestable_commit(args[m]),
    ensures
        exists|k: int| first_bad_commit(args, k),
    decreases m,
{
    if exists|j: int| 1 <= j < m && !attestable_commit(#[trigger] args[j]) {
        let j = choose|j: int| 1 <= j < m && !attestable_commit(#[trigger] args[j]);
        lemma_first_bad_commit_exists(args, j);
    } else {
        assert(first_bad_commit(args, m));
    }
}

fn is_attestable_commit(oid: &str) -> (r: bool)
    ensures
        r == attestable_commit(oid@),
{
    let n = chars_of(oid).len();
    is_full_commit_oid(oid) && (n == 40 || n == 64)
}

/// Reads the arguments of `co agent attest`: `<owner/repo>` and one to a
/// hundred full commit IDs.
pub fn parse_attest_args(args: &[String]) -> (r: Result<AttestCommand, String>)
    ensures
        attest_view(r) == attest_result(texts(args@)),
{
    let ghost av = texts(args@);
    if args.len() < 2 {
        return Err(owned("usage: co agent attest <owner/repo> <full-commit-id>..."));
    }
    if args.len() > 101 {
        return Err(owned("attest at most 100 commit IDs per invocation"));
    }
    assert(av[0] == args@[0]@);
    if let Err(e) = repo_spec(args[0].as_str()) {
        return Err(e);
    }
    let mut i: usize = 1;
    while i < args.len()
        invariant
            1 <= i <= args.len(),
            av == texts(args@),
            2 <= args.len() <= 101,
            repo_spec_parts(av[0]) is Some,
            forall|j: int| 1 <= j < i ==> attestable_commit(#[trigger] av[j]),
        decreases args.len() - i,
    {
        assert(av[i as int] == args@[i as int]@);
        if !is_attestable_commit(args[i].as_str()) {
            proof {
                assert(first_bad_commit(av, i as int));
                lemma_first_bad_commit_unique(av, i as int, choose|k: int| first_bad_commit(av, k));
            }
            let mut e = debug_quote(args[i].as_str());
            append(&mut e, " is not a full 40- or 64-character commit ID");
            assert(e@ == commit_id_error(av[i as int]));
            return Err(e);
        }
        i += 1;
    }
    assert(!exists|k: int| first_bad_commit(av, k));
    let commits = args_from(args, 1);
    Ok(AttestCommand { spec: args[0].clone(), commits })
}

pub open spec fn missing_agent_error() -> Seq<char> {
    "set CO_AGENT_ID to the ID of the agent whose commits these are"@
}

/// The agent that `CO_AGENT_ID` names for an attestation; it must be set and
/// not empty.
pub fn attesting_agent(env: Option<&str>) -> (r: Result<&str, String>)
    ensures
        match r {
            Ok(agent) => opt_str(env) == Some(agent@) && agent@.len() > 0,
            Err(e) => (env is None || env.unwrap()@.len() == 0) && e@ == missing_agent_error(),
        },
{
    match env {
        Some(agent) => {
            if chars_of(agent).len() > 0 {
                Ok(agent)
            } else {
                Err(owned("set CO_AGENT_ID to the ID of the agent whose commits these are"))
            }
        },
        None => Err(owned("set CO_AGENT_ID to the ID of the agent whose commits these are")),
    }
}

/// The API path that records the agent's participation in a commit.
pub open spec fn provenance_path_text(owner: Seq<char>, repo: Seq<char>, oid: Seq<char>) -> Seq<char> {
    "/repos/"@ + owner + seq!['/'] + repo + "/commits/"@ + oid + "/provenance"@
}

pub fn provenance_path(owner: &str, repo: &str, oid: &str) -> (r: String)
    ensures
        r@ == provenance_path_text(owner@, repo@, oid@),
{
    let mut path = owned("/repos/");
    append(&mut path, owner);
    path.push('/');
    append(&mut path, repo);
    append(&mut path, "/commits/");
    append(&mut path, oid);
    append(&mut path, "/provenance");
    path
}

/// The line printed for each attested commit.
pub open spec fn attested_text(oid: Seq<char>, agent: Seq<char>) -> Seq<char> {
    "Attested "@ + oid + " as "@ + agent
}

pub fn attested_line(oid: &str, agent: &str) -> (r: String)
    ensures
        r@ == attested_text(oid@, agent@),
{
    let mut line = owned("Attested ");
    append(&mut line, oid);
    append(&mut line, " as ");
    append(&mut line, agent);
    line
}

/// The message for a refused attestation: a commit the contribution index
/// has not reached yet is to be retried later; other errors read as usual.
pub open spec fn attestation_error_text(oid: Seq<char>, error: ApiError) -> Seq<char> {
    if opt_seq(error.error) == Some("contribution_index_pending"@) {
        "commit "@ + oid + " is not indexed yet; retry the attestation after indexing catches up"@
    } else {
        api_error_text(error)
    }
}

pub fn attestation_error(oid: &str, error: ApiError) -> (r: String)
    ensures
        r@ == attestation_error_text(oid@, error),
{
    let pending = match &error.error {
        Some(code) => str_eq(code.as_str(), "contribution_index_pending"),
        None => false,
    };
    if pending {
        let mut e = owned("commit ");
        append(&mut e, oid);
        append(&mut e, " is not indexed yet; retry the attestation after indexing catches up");
        e
    } else {
        api_error(error)
    }
}


/// In agent mode the helper hands Git a token only through a live push grant
/// of the selected agent for exactly the repository that the request path
/// names, and only when that grant is the agent's one grant there.
pub proof fn law_agent_credentials_use_own_push_grant(
    operation: Seq<char>,
    input: Seq<char>,
    agent: Seq<char>,
    grants: Seq<AgentGrant>,
    now: u64,
    step: AgentCredentialStep,
)
    requires
        agent_step_ok(operation, input, agent, grants, now, step),
        step is Mint,
    ensures
        operation == "get"@,
        agent_input_repo(input) is Some,
        exists|i: int|
            0 <= i < grants.len() && (#[trigger] grants[i]).agent_id@ == agent && Some(
                (grants[i].owner@, grants[i].repo@),
            ) == agent_input_repo(input) && grants[i].expires_unix > now && texts(
                grants[i].operations@,
            ).contains("push"@) && step->authorization@ == "Lineage "@ + grants[i].lineage_token@,
{
    let (owner, repo) = agent_input_repo(input).unwrap();
    let i = choose|i: int|
        sole_push_grant(grants, i, agent, owner, repo, now) && token_request_text(
            #[trigger] grants[i],
        ) == (step->path@, step->authorization@);
    assert(grants[i].agent_id@ == agent);
}

/// `co agent attest` accepts only one to a hundred commit IDs, each a full
/// 40- or 64-character object ID, for a well-formed repository.
pub proof fn law_attest_takes_full_commit_ids(args: Seq<Seq<char>>)
    requires
        attest_result(args) is Ok,
    ensures
        repo_spec_parts(attest_result(args)->Ok_0.0) is Some,
        1 <= attest_result(args)->Ok_0.1.len() <= 100,
        forall|i: int|
            0 <= i < attest_result(args)->Ok_0.1.len() ==> attestable_commit(
                #[trigger] attest_result(args)->Ok_0.1[i],
            ),
{
    assert forall|i: int| 0 <= i < attest_result(args)->Ok_0.1.len() implies attestable_commit(
        #[trigger] attest_result(args)->Ok_0.1[i],
    ) by {
        if !attestable_commit(args[i + 1]) {
            lemma_first_bad_commit_exists(args, i + 1);
        }
    }
}


/// A push grant counts for `agent` on `owner/repo` only when it is that
/// agent's, for that owner and that repository, allows `push`, and expires
/// after `now`; a grant of another agent, owner or repository never counts.
pub proof fn law_live_push_grant_is_the_agents_own(
    g: AgentGrant,
    agent: Seq<char>,
    owner: Seq<char>,
    repo: Seq<char>,
    now: u64,
)
    ensures
        g.agent_id@ != agent ==> !live_push_grant(g, agent, owner, repo, now),
        g.owner@ != owner ==> !live_push_grant(g, agent, owner, repo, now),
        g.repo@ != repo ==> !live_push_grant(g, agent, owner, repo, now),
        g.expires_unix <= now ==> !live_push_grant(g, agent, owner, repo, now),
        !texts(g.operations@).contains("push"@) ==> !live_push_grant(g, agent, owner, repo, now),
        g.agent_id@ == agent && g.owner@ == owner && g.repo@ == repo && g.expires_unix > now
            && texts(g.operations@).contains("push"@) ==> live_push_grant(g, agent, owner, repo, now),
{
}

} // verus!
