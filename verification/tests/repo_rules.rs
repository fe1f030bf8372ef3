use co::cli::{parse_repo_create, route, CreateRepoCommand, Route};
use co::repo::{
    clone_destination, configure_repo_helper, created_repo_lines, git_url, link_remote_args,
    root_query, shell_quote, strip_line_ending, validate_upstream_name,
};

fn strings(args: &[&str]) -> Vec<String> {
    args.iter().map(|arg| arg.to_string()).collect()
}

#[test]
fn repo_create_rejects_bad_arguments() {
    for args in [
        vec![],
        vec!["one", "two"],
        vec!["--unknown", "project"],
        vec!["project", "--public", "--private"],
        vec!["project", "--private", "--public"],
        vec!["."],
        vec!["bad..name"],
        vec!["_bad"],
        vec!["my-org/../escape"],
        vec!["Upper/project"],
        vec!["/project"],
        vec!["my-org/"],
        vec!["project?token=x"],
        vec!["project name"],
    ] {
        let result = parse_repo_create(&strings(&args));
        assert!(result.is_err(), "accepted {args:?}");
        assert!(!result.unwrap_err().contains("not signed in"));
    }
}

#[test]
fn repo_create_defaults_and_flags() {
    assert_eq!(
        parse_repo_create(&strings(&["project", "--json"])).unwrap(),
        CreateRepoCommand { name: "project".into(), owner: None, visibility: "private", json: true }
    );
    assert_eq!(
        parse_repo_create(&strings(&["--public", "my-org/project"])).unwrap(),
        CreateRepoCommand {
            name: "project".into(),
            owner: Some("my-org".into()),
            visibility: "public",
            json: false
        }
    );
    assert_eq!(
        parse_repo_create(&strings(&["--private", "--private", "p"])).unwrap().visibility,
        "private"
    );
    assert_eq!(
        parse_repo_create(&strings(&["project", "--public", "--private"])).unwrap_err(),
        "choose either --public or --private"
    );
    assert_eq!(
        parse_repo_create(&strings(&["--wat", "project"])).unwrap_err(),
        "unknown repository creation option \"--wat\"\nusage: co repo create [--public | --private] [--json] <[owner/]name>"
    );
    assert_eq!(
        parse_repo_create(&strings(&[])).unwrap_err(),
        "usage: co repo create [--public | --private] [--json] <[owner/]name>"
    );
    assert_eq!(
        parse_repo_create(&strings(&["Upper/project"])).unwrap_err(),
        "repository must be written as <owner/repo>"
    );
}

#[test]
fn repo_create_accepts_name_boundaries_and_dot_names() {
    for name in [".config".to_string(), "a".repeat(128)] {
        let command = parse_repo_create(&strings(&[&format!("my-org/{name}"), "--json"])).unwrap();
        assert_eq!(command.name, name);
        assert_eq!(command.owner.as_deref(), Some("my-org"));
    }
    let error = parse_repo_create(&strings(&[&"a".repeat(129)])).unwrap_err();
    assert!(error.contains("1-128"));
}

#[test]
fn repo_create_help_is_routed_before_parsing() {
    assert_eq!(route(&strings(&["repo", "create", "--help"])).unwrap(), Route::RepoCreateHelp);
    assert_eq!(route(&strings(&["repo", "create", "bad..", "-h"])).unwrap(), Route::RepoCreateHelp);
}

#[test]
fn routes_commands() {
    assert_eq!(route(&[]).unwrap(), Route::Help);
    assert_eq!(route(&strings(&["-V"])).unwrap(), Route::Version);
    assert_eq!(route(&strings(&["login", "extra"])).unwrap(), Route::Login);
    assert_eq!(
        route(&strings(&["agent", "register", "bot"])).unwrap(),
        Route::AgentRegister("bot".into())
    );
    assert_eq!(route(&strings(&["access", "wait"])).unwrap(), Route::AccessWait(None));
    assert_eq!(
        route(&strings(&["access", "wait", "r1"])).unwrap(),
        Route::AccessWait(Some("r1".into()))
    );
    assert_eq!(
        route(&strings(&["clone", "-u", "x", "o/r"])).unwrap(),
        Route::Clone(strings(&["-u", "x", "o/r"]))
    );
    assert_eq!(
        route(&strings(&["git-credential"])).unwrap_err(),
        "usage: co git-credential get|store|erase"
    );
    assert_eq!(route(&strings(&["repo", "view"])).unwrap_err(), "usage: co repo view <owner/repo>");
    assert_eq!(
        route(&strings(&["repo"])).unwrap_err(),
        "usage: co repo view <owner/repo>\nusage: co repo create [--public | --private] [--json] <[owner/]name>"
    );
    assert_eq!(
        route(&strings(&["agent"])).unwrap_err(),
        "usage: co agent register <name> | co agent list | co agent attest <owner/repo> <full-commit-id>..."
    );
    assert_eq!(route(&strings(&["access"])).unwrap_err(), "usage: co access request|wait|view");
    assert_eq!(route(&strings(&["frob"])).unwrap_err(), "unknown command \"frob\" (try: co help)");
    assert_eq!(
        route(&strings(&["machine", "list"])).unwrap(),
        Route::Machine(strings(&["list"]))
    );
    assert_eq!(
        route(&strings(&["workflow", "check"])).unwrap(),
        Route::Workflow(strings(&["check"]))
    );
}

#[test]
fn validates_git_remote_names() {
    for good in ["origin", "co", "team/mirror", "a.b", "x-1"] {
        assert!(validate_upstream_name(good).is_ok(), "{good}");
    }
    for bad in [
        "", "-bad", "bad.", "bad/", "a..b", "a@{b", "a//b", "a b", "a~b", "a^b", "a:b", "a?b",
        "a*b", "a[b", "a\\b", "a\tb", "/a", ".hidden", "a/.b", "x.lock", "a/b.lock", "a.lock/b",
    ] {
        assert!(validate_upstream_name(bad).is_err(), "{bad:?}");
    }
    assert_eq!(
        validate_upstream_name("bad..name").unwrap_err(),
        "\"bad..name\" is not a valid Git remote name"
    );
}

#[test]
fn quotes_values_for_the_shell() {
    assert_eq!(shell_quote("plain"), "'plain'");
    assert_eq!(shell_quote(""), "''");
    assert_eq!(shell_quote("it's"), "'it'\\''s'");
}

#[test]
fn builds_git_commands() {
    assert_eq!(git_url("hackr/co"), "https://git.co.codes/hackr/co.git");
    let commands = configure_repo_helper("/work/co", "!'co' git-credential");
    assert_eq!(
        commands[0],
        vec![
            "-C",
            "/work/co",
            "config",
            "--local",
            "--replace-all",
            "credential.https://git.co.codes.helper",
            ""
        ]
    );
    assert_eq!(
        commands[1],
        vec![
            "-C",
            "/work/co",
            "config",
            "--local",
            "--add",
            "credential.https://git.co.codes.helper",
            "!'co' git-credential"
        ]
    );
    assert_eq!(
        commands[2],
        vec![
            "-C",
            "/work/co",
            "config",
            "--local",
            "credential.https://git.co.codes.useHttpPath",
            "true"
        ]
    );
    assert_eq!(commands.len(), 3);
    assert_eq!(
        link_remote_args("/work/co", "origin", "hackr/co"),
        vec!["-C", "/work/co", "remote", "add", "origin", "https://git.co.codes/hackr/co.git"]
    );
    assert_eq!(clone_destination(None, "co"), "co");
    assert_eq!(clone_destination(Some("dir"), "co"), "dir");
    assert_eq!(root_query(b"true\n"), "--absolute-git-dir");
    assert_eq!(root_query(b"false\n"), "--show-toplevel");
    assert_eq!(strip_line_ending("/repo\r\n"), "/repo");
    assert_eq!(strip_line_ending("/repo\n\n"), "/repo\n");
}

#[test]
fn reports_created_repositories() {
    assert_eq!(
        created_repo_lines("resolved-owner", "project", "public"),
        vec![
            "Created resolved-owner/project (public)",
            "  web  https://co.codes/resolved-owner/project",
            "  git  https://git.co.codes/resolved-owner/project.git",
        ]
    );
}
