use co::access::{
    grant_request_step, GrantRequest, GrantRequestAction, GrantRequestEvent,
    capability_rejected, grant_poll_outcome, idempotency_key, next_backoff, pending_expiry,
    request_expired, requested_operations, retry_after_seconds, retry_delay, should_retry_poll,
    validate_agent_name, PollOutcome,
};
use co::config::{
    add_agent_if_new, add_pending_submission, agent_token_request, default_agent,
    drop_pending_submission, find_agent, find_pending_submission, pending_request_index,
    record_pending_request, remove_pending_agent_request, select_pull_grant, session_token,
    store_approved_agent_grant, AgentGrant, AgentIdentity, AgentMatch, Config,
    PendingAgentRequest, PendingAgentSubmission,
};

fn request(id: &str) -> PendingAgentRequest {
    PendingAgentRequest {
        id: id.into(),
        agent_id: "agent".into(),
        owner: "owner".into(),
        repo: "repo".into(),
        poll_token: "poll".into(),
        operations: vec!["pull".into()],
        requested_expires_unix: 1000,
    }
}

fn grant(agent: &str, id: &str, ops: &[&str], expires: u64) -> AgentGrant {
    AgentGrant {
        agent_id: agent.into(),
        owner: "owner".into(),
        repo: "repo".into(),
        grant_id: id.into(),
        lineage_token: format!("lineage-{id}"),
        operations: ops.iter().map(|op| op.to_string()).collect(),
        expires_unix: expires,
    }
}

fn submission(key: &str) -> PendingAgentSubmission {
    PendingAgentSubmission {
        agent_id: "agent".into(),
        owner: "owner".into(),
        repo: "repo".into(),
        operations: vec!["pull".into()],
        ttl_seconds: 3600,
        reason: None,
        request_capability: "cap".into(),
        idempotency_key: key.into(),
    }
}

#[test]
fn pending_requests_are_resumed_by_id_or_alone() {
    let mut config = Config::default();
    assert_eq!(pending_request_index(&config, None).unwrap_err(), "no pending agent access request");
    config.pending_agent_requests.push(request("r1"));
    assert_eq!(pending_request_index(&config, None).unwrap(), 0);
    config.pending_agent_requests.push(request("r2"));
    assert!(pending_request_index(&config, None).unwrap_err().starts_with("multiple pending requests"));
    assert_eq!(pending_request_index(&config, Some("r2")).unwrap(), 1);
    assert_eq!(
        pending_request_index(&config, Some("r9")).unwrap_err(),
        "no local pending request \"r9\""
    );
    remove_pending_agent_request(&mut config, "r1");
    assert_eq!(config.pending_agent_requests.len(), 1);
    assert_eq!(config.pending_agent_requests[0].id, "r2");
    assert!(pending_request_index(&config, Some("r1")).is_err());
}

#[test]
fn recording_a_request_replaces_its_submission_and_duplicates() {
    let mut config = Config::default();
    add_pending_submission(&mut config, submission("k1"));
    add_pending_submission(&mut config, submission("k2"));
    config.pending_agent_requests.push(request("r1"));
    record_pending_request(&mut config, "k1", request("r1"));
    assert_eq!(config.pending_agent_submissions.len(), 1);
    assert_eq!(config.pending_agent_submissions[0].idempotency_key, "k2");
    assert_eq!(config.pending_agent_requests.len(), 1);
    assert_eq!(pending_request_index(&config, Some("r1")).unwrap(), 0);
    drop_pending_submission(&mut config, "k2");
    assert!(config.pending_agent_submissions.is_empty());
}

#[test]
fn a_saved_submission_is_found_again() {
    let mut config = Config::default();
    let ops = vec!["pull".to_string()];
    assert_eq!(find_pending_submission(&config, "agent", "owner", "repo", &ops, 3600, None), None);
    add_pending_submission(&mut config, submission("k1"));
    assert_eq!(find_pending_submission(&config, "agent", "owner", "repo", &ops, 3600, None), Some(0));
    assert_eq!(find_pending_submission(&config, "agent", "owner", "repo", &ops, 900, None), None);
    assert_eq!(
        find_pending_submission(&config, "agent", "owner", "repo", &ops, 3600, Some("why")),
        None
    );
    let push = vec!["pull".to_string(), "push".to_string()];
    assert_eq!(find_pending_submission(&config, "agent", "owner", "repo", &push, 3600, None), None);
}

#[test]
fn an_approved_grant_replaces_the_previous_one() {
    let mut config = Config::default();
    config.agent_grants.push(grant("agent", "old", &["pull"], 10));
    config.agent_grants.push(grant("other", "keep", &["pull"], 10));
    config.pending_agent_requests.push(request("r1"));
    store_approved_agent_grant(&mut config, &request("r1"), grant("agent", "new", &["pull"], 20));
    let ids: Vec<&str> = config.agent_grants.iter().map(|g| g.grant_id.as_str()).collect();
    assert_eq!(ids, vec!["keep", "new"]);
    assert!(config.pending_agent_requests.is_empty());
}

#[test]
fn selects_the_single_live_pull_grant() {
    let mut config = Config::default();
    assert_eq!(
        select_pull_grant(&config, "owner", "repo", 100).unwrap_err(),
        "no live pull grant for owner/repo; run `co access request owner/repo`"
    );
    config.agent_grants.push(grant("a", "push-only", &["push"], 1000));
    config.agent_grants.push(grant("a", "expired", &["pull"], 100));
    config.agent_grants.push(grant("a", "live", &["pull", "push"], 1000));
    assert_eq!(select_pull_grant(&config, "owner", "repo", 100).unwrap(), 2);
    assert_eq!(
        agent_token_request(&config, "owner", "repo", 100).unwrap(),
        ("/grants/live/token".to_string(), "Lineage lineage-live".to_string())
    );
    assert!(select_pull_grant(&config, "owner", "other", 100).is_err());
    config.agent_grants.push(grant("b", "second", &["pull"], 1000));
    assert_eq!(
        select_pull_grant(&config, "owner", "repo", 100).unwrap_err(),
        "multiple live agent grants for owner/repo; use a separate local co config per agent"
    );
    assert_eq!(
        agent_token_request(&config, "owner", "repo", 100).unwrap_err(),
        "multiple live agent grants for owner/repo; use a separate local co config per agent"
    );
    assert_eq!(
        agent_token_request(&config, "owner", "other", 100).unwrap_err(),
        "no live pull grant for owner/other; run `co access request owner/other`"
    );
}

#[test]
fn stored_grants_stay_one_per_agent_and_repository() {
    let mut config = Config::default();
    config.agent_grants.push(grant("b", "other-agent", &["pull"], 1000));
    for (request_id, grant_id) in [("r1", "g1"), ("r2", "g2"), ("r3", "g3")] {
        let pending = request(request_id);
        config.pending_agent_requests.push(request(request_id));
        store_approved_agent_grant(&mut config, &pending, grant("agent", grant_id, &["pull"], 1000));
    }
    let ids: Vec<&str> = config.agent_grants.iter().map(|g| g.grant_id.as_str()).collect();
    assert_eq!(ids, vec!["other-agent", "g3"]);
    assert!(config.pending_agent_requests.is_empty());
}

fn access_request() -> GrantRequest {
    GrantRequest {
        agent_id: "agent".into(),
        owner: "owner".into(),
        repo: "repo".into(),
        operations: vec!["pull".into()],
        ttl_seconds: 3600,
        reason: None,
    }
}

#[test]
fn access_requests_save_before_sending_and_resend_on_rerun() {
    let mut config = Config::default();
    let request = access_request();
    assert!(matches!(
        grant_request_step(&config, &request, GrantRequestEvent::Start),
        GrantRequestAction::IssueCapability
    ));
    let issued = GrantRequestEvent::CapabilityIssued {
        capability: "cap-1".into(),
        idempotency_key: "key-1".into(),
    };
    let GrantRequestAction::SaveThenSend(saved) = grant_request_step(&config, &request, issued)
    else {
        panic!("a fresh capability is saved, then sent");
    };
    assert_eq!(saved.request_capability, "cap-1");
    assert_eq!(saved.idempotency_key, "key-1");
    assert_eq!(saved.operations, vec!["pull".to_string()]);
    add_pending_submission(&mut config, saved);
    let GrantRequestAction::Resend(again) =
        grant_request_step(&config, &request, GrantRequestEvent::Start)
    else {
        panic!("a rerun resends the saved submission");
    };
    assert_eq!(again.request_capability, "cap-1");
    assert_eq!(again.idempotency_key, "key-1");
    let mut other = access_request();
    other.ttl_seconds = 900;
    assert!(matches!(
        grant_request_step(&config, &other, GrantRequestEvent::Start),
        GrantRequestAction::IssueCapability
    ));
}

#[test]
fn access_request_answers_decide_what_is_kept() {
    let config = Config::default();
    let request = access_request();
    for status in [401, 409] {
        let refused = GrantRequestEvent::Refused { idempotency_key: "key-1".into(), status };
        assert!(matches!(
            grant_request_step(&config, &request, refused),
            GrantRequestAction::Forget { idempotency_key, error }
                if idempotency_key == "key-1"
                    && error == "request capability expired or was already used; rerun the command to issue a fresh capability"
        ));
    }
    let refused = GrantRequestEvent::Refused { idempotency_key: "key-1".into(), status: 500 };
    assert!(matches!(grant_request_step(&config, &request, refused), GrantRequestAction::Keep));
    let created = GrantRequestEvent::Created {
        idempotency_key: "key-1".into(),
        id: "req-9".into(),
        poll_token: "poll-9".into(),
        expires_at_unix: None,
        now: 1000,
    };
    let GrantRequestAction::RecordThenOpen { idempotency_key, pending } =
        grant_request_step(&config, &request, created)
    else {
        panic!("a created request is recorded before the browser opens");
    };
    assert_eq!(idempotency_key, "key-1");
    assert_eq!(pending.id, "req-9");
    assert_eq!(pending.poll_token, "poll-9");
    assert_eq!(pending.requested_expires_unix, 4600);
}

#[test]
fn resolves_agents_by_id_then_unique_name() {
    let agents = vec![
        AgentIdentity { id: "id1".into(), name: "bot".into() },
        AgentIdentity { id: "id2".into(), name: "bot".into() },
        AgentIdentity { id: "bot".into(), name: "named-like-an-id".into() },
        AgentIdentity { id: "id4".into(), name: "solo".into() },
    ];
    assert_eq!(find_agent(&agents, "bot"), AgentMatch::Found(2));
    assert_eq!(find_agent(&agents, "solo"), AgentMatch::Found(3));
    assert_eq!(find_agent(&agents[..2], "bot"), AgentMatch::Ambiguous);
    assert_eq!(find_agent(&agents, "nobody"), AgentMatch::Missing);
    let mut config = Config::default();
    assert!(default_agent(&config).unwrap_err().starts_with("no local agent"));
    assert!(add_agent_if_new(&mut config, AgentIdentity { id: "id1".into(), name: "bot".into() }));
    assert!(!add_agent_if_new(&mut config, AgentIdentity { id: "id1".into(), name: "b".into() }));
    assert_eq!(default_agent(&config).unwrap(), 0);
    assert!(add_agent_if_new(&mut config, AgentIdentity { id: "id2".into(), name: "b".into() }));
    assert!(default_agent(&config).unwrap_err().starts_with("multiple local agents"));
}

#[test]
fn session_token_is_required() {
    let config = Config { session_token: Some("t".into()), ..Config::default() };
    assert_eq!(session_token(&config).unwrap(), "t");
    assert!(session_token(&Config::default()).unwrap_err().contains("co login"));
}

#[test]
fn polling_decisions() {
    assert_eq!(next_backoff(2), 4);
    assert_eq!(next_backoff(8), 15);
    assert_eq!(next_backoff(15), 15);
    assert_eq!(retry_delay(Some(0), 2, 100, 50), 1);
    assert_eq!(retry_delay(Some(120), 2, 100, 50), 50);
    assert_eq!(retry_delay(None, 4, 100, 50), 4);
    assert_eq!(retry_delay(None, 4, 100, 200), 1);
    assert!(should_retry_poll(429) && should_retry_poll(503) && !should_retry_poll(404));
    assert!(capability_rejected(401) && capability_rejected(409) && !capability_rejected(403));
    assert!(request_expired(10, 10) && !request_expired(9, 10));
    assert_eq!(pending_expiry(Some(5), 100, 60), 5);
    assert_eq!(pending_expiry(None, 100, 60), 160);
    assert_eq!(pending_expiry(None, u64::MAX - 1, 60), u64::MAX);
}

#[test]
fn retry_after_accepts_seconds_and_http_dates() {
    assert_eq!(retry_after_seconds("7", 0, 0), Some(7));
    assert_eq!(retry_after_seconds("Thu, 01 Jan 1970 00:01:40 GMT", 40, 0), Some(60));
    assert_eq!(retry_after_seconds("Thu, 01 Jan 1970 00:01:40 GMT", 40, 500), Some(59));
    assert_eq!(retry_after_seconds("Thu, 01 Jan 1970 00:01:40 GMT", 200, 0), None);
    assert_eq!(retry_after_seconds("soon", 0, 0), None);
}

#[test]
fn poll_answers() {
    let pending = request("r1");
    assert!(matches!(grant_poll_outcome("pending", None, None, &pending), PollOutcome::Wait));
    match grant_poll_outcome("approved", Some("g".into()), Some("l".into()), &pending) {
        PollOutcome::Approved(grant) => {
            assert_eq!(grant.grant_id, "g");
            assert_eq!(grant.lineage_token, "l");
            assert_eq!(grant.agent_id, "agent");
            assert_eq!(grant.operations, vec!["pull".to_string()]);
            assert_eq!(grant.expires_unix, 1000);
        }
        _ => panic!("approval not stored"),
    }
    match grant_poll_outcome("approved", None, Some("l".into()), &pending) {
        PollOutcome::Failed(m) => assert_eq!(m, "approved response omitted grantId"),
        _ => panic!(),
    }
    match grant_poll_outcome("approved", Some("g".into()), None, &pending) {
        PollOutcome::Failed(m) => assert_eq!(m, "approved response omitted lineageToken"),
        _ => panic!(),
    }
    match grant_poll_outcome("denied", None, None, &pending) {
        PollOutcome::Closed(m) => assert_eq!(m, "access request was denied by the human approver"),
        _ => panic!(),
    }
    match grant_poll_outcome("expired", None, None, &pending) {
        PollOutcome::Closed(m) => assert!(m.starts_with("access request expired")),
        _ => panic!(),
    }
    match grant_poll_outcome("odd", None, None, &pending) {
        PollOutcome::Failed(m) => assert_eq!(m, "unknown access request status \"odd\""),
        _ => panic!(),
    }
}

#[test]
fn request_contents() {
    assert_eq!(requested_operations(false), vec!["pull"]);
    assert_eq!(requested_operations(true), vec!["pull", "push"]);
    assert_eq!(idempotency_key(255, 4096), "co-ff-1000");
    assert_eq!(idempotency_key(0, 10), "co-0-a");
    assert_eq!(validate_agent_name("  bot  ").unwrap(), "bot");
    assert_eq!(
        validate_agent_name("   ").unwrap_err(),
        "agent name must contain 1 to 80 characters"
    );
    assert!(validate_agent_name(&"é".repeat(41)).is_err());
    assert!(validate_agent_name(&"é".repeat(40)).is_ok());
}
