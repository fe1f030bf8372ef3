use co::cli::{parse_access_request, parse_repo_command, AccessRequestCommand, RepoCommand};
use co::config::{api_url, Config};
use co::credential::{parse_credential, GitCredential};
use co::repo::{clone_command_args, credential_helper, repo_spec};

#[test]
fn parses_repo_spec() {
    assert_eq!(repo_spec("hackr/co").unwrap(), ("hackr", "co"));
    assert!(repo_spec("co").is_err());
    assert!(repo_spec("a/b/c").is_err());
    assert!(repo_spec("Upper/co").is_err());
    assert!(repo_spec("hackr/-co").is_err());
    assert!(repo_spec("hackr/..").is_err());
    assert!(repo_spec("hackr/co?token=x").is_err());
}

#[test]
fn parses_and_scopes_git_credentials() {
    let credential =
        parse_credential("protocol=https\r\nhost=git.co.codes:443\r\npath=hackr/www.git\r\n\r\n");
    assert_eq!(
        credential,
        GitCredential {
            protocol: Some("https"),
            host: Some("git.co.codes:443")
        }
    );
    assert!(credential.in_scope());
    assert!(parse_credential("protocol=https\nhost=git.co.codes\n\n").in_scope());
    assert!(!parse_credential("protocol=http\nhost=git.co.codes\n\n").in_scope());
    assert!(!parse_credential("protocol=https\nhost=git.co.codes:444\n\n").in_scope());
    assert!(!parse_credential("protocol=https\nhost=evil.example\n\n").in_scope());
}

#[test]
fn constructs_clone_command_without_a_secret() {
    let helper = "!'/usr/local/bin/co' git-credential";
    assert_eq!(
        clone_command_args(
            "https://git.co.codes/hackr/co.git",
            Some("checkout"),
            "upstream",
            helper
        ),
        vec![
            "-c",
            "credential.helper=",
            "-c",
            "credential.https://git.co.codes.helper=!'/usr/local/bin/co' git-credential",
            "clone",
            "--origin",
            "upstream",
            "--",
            "https://git.co.codes/hackr/co.git",
            "checkout",
        ]
    );
}

#[test]
fn parses_clone_and_link_options_with_config_defaults() {
    let config = Config {
        upstream_name: Some("co".into()),
        jj: true,
        ..Config::default()
    };
    assert_eq!(
        parse_repo_command(&["hackr/co".into(), "checkout".into()], true, &config).unwrap(),
        RepoCommand {
            spec: "hackr/co".into(),
            directory: Some("checkout".into()),
            upstream_name: "co".into(),
            jj: true,
        }
    );
    assert!(
        !parse_repo_command(&["--no-jj".into(), "hackr/co".into()], false, &config)
            .unwrap()
            .jj
    );
    assert_eq!(
        parse_repo_command(
            &[
                "--jj".into(),
                "-u".into(),
                "mirror".into(),
                "hackr/co".into(),
            ],
            false,
            &Config::default(),
        )
        .unwrap(),
        RepoCommand {
            spec: "hackr/co".into(),
            directory: None,
            upstream_name: "mirror".into(),
            jj: true,
        }
    );
}

#[test]
fn rejects_invalid_repo_command_options() {
    let config = Config::default();
    assert!(parse_repo_command(&["--wat".into(), "hackr/co".into()], true, &config).is_err());
    assert!(parse_repo_command(&["-u".into(), "hackr/co".into()], true, &config).is_err());
    assert!(parse_repo_command(
        &["--set-upstream-name=-bad".into(), "hackr/co".into()],
        false,
        &config,
    )
    .is_err());
    assert!(parse_repo_command(
        &["--set-upstream-name=bad..name".into(), "hackr/co".into()],
        false,
        &config,
    )
    .is_err());
}

#[test]
fn quotes_credential_helper_executable() {
    assert_eq!(
        credential_helper("/tmp/co cli's/co"),
        "!'/tmp/co cli'\\''s/co' git-credential"
    );
}

#[test]
fn trims_api_url() {
    let config = Config {
        api_url: Some("https://example.test/".into()),
        ..Config::default()
    };
    assert_eq!(api_url(None, &config), "https://example.test");
}

#[test]
fn parses_agent_access_request_options() {
    assert_eq!(
        parse_access_request(&[
            "--agent".into(),
            "opencode".into(),
            "--push".into(),
            "--ttl".into(),
            "900".into(),
            "--reason".into(),
            "review the site".into(),
            "hackr/www".into(),
        ])
        .unwrap(),
        AccessRequestCommand {
            spec: "hackr/www".into(),
            agent: Some("opencode".into()),
            push: true,
            ttl_seconds: 900,
            reason: Some("review the site".into()),
        }
    );
    assert!(parse_access_request(&["--ttl".into(), "2".into(), "hackr/www".into()]).is_err());
    assert!(parse_access_request(&["--wat".into(), "hackr/www".into()]).is_err());
}
