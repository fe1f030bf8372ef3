use co::agent::{
    agent_credential_step, agent_push_token_request, agent_request_repo_of, attestation_error,
    attested_line, attesting_agent, parse_attest_args, provenance_path, select_push_grant,
    AgentCredentialStep,
};
use co::access::{request_expired_error, strip_self_url};
use co::api::{time_since_epoch, whole_seconds, ApiError};
use co::cli::{route, Route};
use co::config::{AgentGrant, Config};
use co::credential::{credential_field, parse_credential, quit_reply, token_reply};

fn grant(agent: &str, id: &str, ops: &[&str], expires: u64) -> AgentGrant {
    AgentGrant {
        agent_id: agent.into(),
        owner: "owner".into(),
        repo: "repo".into(),
        grant_id: id.into(),
        lineage_token: format!("{id}-lineage"),
        operations: ops.iter().map(|op| op.to_string()).collect(),
        expires_unix: expires,
    }
}

fn strings(items: &[&str]) -> Vec<String> {
    items.iter().map(|item| item.to_string()).collect()
}

fn human_config() -> Config {
    let mut config = Config::default();
    config.session_token = Some("human-secret".into());
    config
}

#[test]
fn agent_mode_never_returns_human_credentials_on_invalid_or_missing_grants() {
    let config = human_config();
    for (agent, request) in [
        ("agent", "protocol=https\nhost=git.co.codes\npath=owner/repo.git\n\n"),
        ("agent", "protocol=https\nhost=git.co.codes\n\n"),
        ("agent", "protocol=https\nhost=evil.example\npath=owner/repo.git\n\n"),
        ("", "protocol=https\nhost=git.co.codes\npath=owner/repo.git\n\n"),
    ] {
        match agent_credential_step("get", request, agent, &config, 100) {
            AgentCredentialStep::Refuse(error) => assert!(!error.contains("human-secret")),
            _ => panic!("agent request {request:?} was not refused"),
        }
    }
    assert_eq!(quit_reply(), "quit=true\n\n");
}

#[test]
fn attestation_uses_selected_agent_lineage_and_explicit_commit() {
    let oid = "a".repeat(40);
    let mut config = human_config();
    config.agent_grants.push(grant("other", "wrong-grant", &["push"], 700));
    config.agent_grants.push(grant("selected", "selected-grant", &["push"], 700));
    let command = parse_attest_args(&strings(&["owner/repo", &oid])).unwrap();
    assert_eq!(command.spec, "owner/repo");
    assert_eq!(command.commits, vec![oid.clone()]);
    let agent = attesting_agent(Some("selected")).unwrap();
    let (path, authorization) =
        agent_push_token_request(&config, agent, "owner", "repo", 100).unwrap();
    assert_eq!(path, "/grants/selected-grant/token");
    assert_eq!(authorization, "Lineage selected-grant-lineage");
    assert_eq!(
        provenance_path("owner", "repo", &oid),
        format!("/repos/owner/repo/commits/{oid}/provenance")
    );
    assert_eq!(attested_line(&oid, agent), format!("Attested {oid} as selected"));
}

#[test]
fn agent_mode_mints_from_the_selected_push_grant() {
    let mut config = human_config();
    config.agent_grants.push(grant("other", "g1", &["pull", "push"], 700));
    config.agent_grants.push(grant("agent", "g2", &["pull", "push"], 700));
    let request = "protocol=https\r\nhost=git.co.codes:443\r\npath=owner/repo.git\r\n\r\n";
    assert_eq!(
        agent_credential_step("get", request, "agent", &config, 100),
        AgentCredentialStep::Mint {
            path: "/grants/g2/token".into(),
            authorization: "Lineage g2-lineage".into()
        }
    );
    assert_eq!(
        agent_credential_step("store", request, "agent", &config, 100),
        AgentCredentialStep::Ignore
    );
    assert_eq!(
        agent_credential_step("erase", "", "agent", &config, 100),
        AgentCredentialStep::Ignore
    );
    // The same request for another repository is refused.
    let elsewhere = "protocol=https\nhost=git.co.codes\npath=owner/other.git\n\n";
    assert!(matches!(
        agent_credential_step("get", elsewhere, "agent", &config, 100),
        AgentCredentialStep::Refuse(_)
    ));
    assert_eq!(token_reply("t0k"), "username=co\npassword=t0k\n\n");
}

#[test]
fn push_grants_must_be_live_and_unique() {
    let mut config = Config::default();
    config.agent_grants.push(grant("agent", "pull-only", &["pull"], 700));
    config.agent_grants.push(grant("agent", "expired", &["push"], 100));
    assert_eq!(
        select_push_grant(&config, "agent", "owner", "repo", 100).unwrap_err(),
        "no live push grant for agent agent on owner/repo; run `co access request --agent agent --push owner/repo`"
    );
    config.agent_grants.push(grant("agent", "live", &["push"], 101));
    assert_eq!(select_push_grant(&config, "agent", "owner", "repo", 100).unwrap(), 2);
    config.agent_grants.push(grant("agent", "again", &["push"], 500));
    assert_eq!(
        select_push_grant(&config, "agent", "owner", "repo", 100).unwrap_err(),
        "multiple live push grants for agent agent on owner/repo"
    );
}

#[test]
fn agent_requests_name_a_repository_path() {
    let input = "protocol=https\nhost=git.co.codes\npath=first/one.git\npath=owner/repo.git\n\n";
    assert_eq!(credential_field(input, "path"), Some("owner/repo.git"));
    assert_eq!(credential_field(input, "username"), None);
    assert_eq!(credential_field("path=a\n\npath=b\n", "path"), Some("a"));
    let credential = parse_credential(input);
    assert_eq!(
        agent_request_repo_of(&credential, credential_field(input, "path")).unwrap(),
        ("owner", "repo")
    );
    for path in [None, Some("owner/repo"), Some("owner/repo/x.git"), Some("Owner/repo.git")] {
        assert!(agent_request_repo_of(&credential, path).is_err());
    }
}

#[test]
fn attest_arguments_take_full_commit_ids() {
    let sha1 = "0123456789abcdef0123456789abcdef01234567";
    let sha256 = "f".repeat(64);
    let command = parse_attest_args(&strings(&["owner/repo", sha1, &sha256, sha1])).unwrap();
    assert_eq!(command.commits, strings(&[sha1, &sha256, sha1]));
    assert_eq!(
        parse_attest_args(&strings(&["owner/repo"])).unwrap_err(),
        "usage: co agent attest <owner/repo> <full-commit-id>..."
    );
    assert_eq!(
        parse_attest_args(&strings(&["owner/repo", &sha1.to_uppercase()])).unwrap_err(),
        "\"0123456789ABCDEF0123456789ABCDEF01234567\" is not a full 40- or 64-character commit ID"
    );
    assert!(parse_attest_args(&strings(&["owner/repo", &"a".repeat(41)])).is_err());
    assert!(parse_attest_args(&strings(&["owner/repo", "abc1234"])).is_err());
    assert_eq!(
        parse_attest_args(&strings(&["owner", sha1])).unwrap_err(),
        "repository must be written as <owner/repo>"
    );
    let mut many = vec!["owner/repo".to_string()];
    many.extend(std::iter::repeat(sha1.to_string()).take(100));
    assert_eq!(parse_attest_args(&many).unwrap().commits.len(), 100);
    many.push(sha1.to_string());
    assert_eq!(
        parse_attest_args(&many).unwrap_err(),
        "attest at most 100 commit IDs per invocation"
    );
}

#[test]
fn attestation_needs_an_agent_and_explains_pending_indexes() {
    let missing = "set CO_AGENT_ID to the ID of the agent whose commits these are";
    assert_eq!(attesting_agent(None).unwrap_err(), missing);
    assert_eq!(attesting_agent(Some("")).unwrap_err(), missing);
    let pending = ApiError {
        error: Some("contribution_index_pending".into()),
        error_description: None,
        message: None,
    };
    assert_eq!(
        attestation_error("abc", pending),
        "commit abc is not indexed yet; retry the attestation after indexing catches up"
    );
    let other = ApiError {
        error: Some("forbidden".into()),
        error_description: Some("grant expired".into()),
        message: None,
    };
    assert_eq!(attestation_error("abc", other), "grant expired");
    assert_eq!(
        route(&strings(&["agent", "attest", "owner/repo", "x"])).unwrap(),
        Route::AgentAttest(strings(&["owner/repo", "x"]))
    );
}

#[test]
fn clock_readings_become_epoch_times() {
    let before = "system clock is before Unix epoch";
    assert_eq!(whole_seconds(Some((1_700_000_000, 5))), Ok(1_700_000_000));
    assert_eq!(whole_seconds(None), Err(before.to_string()));
    assert_eq!(time_since_epoch(Some((42, 999_999_999))), Ok((42, 999_999_999)));
    assert_eq!(time_since_epoch(None), Err(before.to_string()));
}

#[test]
fn access_view_drops_the_token_bearing_self_url() {
    let mut doc: serde_json::Value = serde_json::from_str(
        r#"{"name":"repo","urls":{"self":"https://api.co.codes/t:secret/o/r","git":"https://git.co.codes/o/r.git"}}"#,
    )
    .unwrap();
    strip_self_url(&mut doc);
    let expected: serde_json::Value = serde_json::from_str(
        r#"{"name":"repo","urls":{"git":"https://git.co.codes/o/r.git"}}"#,
    )
    .unwrap();
    assert_eq!(doc, expected);
    let mut plain: serde_json::Value = serde_json::from_str(r#"{"urls":"self","self":1}"#).unwrap();
    let before = plain.clone();
    strip_self_url(&mut plain);
    assert_eq!(plain, before);
}

#[test]
fn expired_requests_explain_themselves() {
    assert_eq!(request_expired_error(), "access request expired; run `co access request` again");
}
