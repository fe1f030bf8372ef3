use co::cli::{parse_access_request, parse_repo_command, required_arg};
use co::config::{api_url, config_dir, config_file_suffix, Config, ConfigDir};
use co::credential::{check_credential_operation, credential_reply, parse_credential, wants_session};

fn strings(args: &[&str]) -> Vec<String> {
    args.iter().map(|arg| arg.to_string()).collect()
}

#[test]
fn credential_helper_answers_only_in_scope_gets() {
    let request = parse_credential("protocol=https\nhost=git.co.codes\n\n");
    assert_eq!(
        credential_reply("get", &request, Some("secret")).as_deref(),
        Some("username=co\npassword=secret\n\n")
    );
    assert_eq!(credential_reply("store", &request, Some("secret")), None);
    assert_eq!(credential_reply("get", &request, None), None);
    let other = parse_credential("protocol=https\nhost=evil.example\n\n");
    assert_eq!(credential_reply("get", &other, Some("secret")), None);
    assert!(wants_session("get", &request));
    assert!(!wants_session("erase", &request));
    assert!(check_credential_operation("erase").is_ok());
    assert_eq!(
        check_credential_operation("list").unwrap_err(),
        "usage: co git-credential get|store|erase"
    );
}

#[test]
fn credential_parsing_stops_at_the_blank_line() {
    let request = parse_credential("protocol=https\n\nhost=git.co.codes\n");
    assert_eq!(request.protocol, Some("https"));
    assert_eq!(request.host, None);
    let last_wins = parse_credential("host=a\nhost=git.co.codes\nnoise\nprotocol=https");
    assert_eq!(last_wins.host, Some("git.co.codes"));
    assert_eq!(last_wins.protocol, Some("https"));
    assert!(last_wins.in_scope());
    let with_crlf = parse_credential("protocol=https\r\r\nhost=git.co.codes\r\n");
    assert_eq!(with_crlf.protocol, Some("https"));
    assert_eq!(parse_credential("").host, None);
}

#[test]
fn chooses_api_url_and_config_location() {
    let configured = Config { api_url: Some("https://config.test//".into()), ..Config::default() };
    assert_eq!(api_url(Some("https://env.test/"), &configured), "https://env.test");
    assert_eq!(api_url(None, &configured), "https://config.test");
    assert_eq!(api_url(None, &Config::default()), "https://api.co.codes");
    assert_eq!(config_dir(true, true, true).unwrap(), ConfigDir::Override);
    assert_eq!(config_dir(false, true, true).unwrap(), ConfigDir::XdgConfigHome);
    assert_eq!(config_dir(false, false, true).unwrap(), ConfigDir::Home);
    assert_eq!(
        config_dir(false, false, false).unwrap_err(),
        "HOME is unset; set XDG_CONFIG_HOME for co"
    );
    assert_eq!(config_file_suffix(ConfigDir::Override), "config.json");
    assert_eq!(config_file_suffix(ConfigDir::Home), ".config/co/config.json");
}

#[test]
fn repo_command_options_override_config() {
    let config = Config { upstream_name: Some("co".into()), jj: true, ..Config::default() };
    let plain = parse_repo_command(&strings(&["o1/repo"]), false, &config).unwrap();
    assert_eq!(plain.upstream_name, "co");
    assert!(plain.jj);
    let overridden = parse_repo_command(
        &strings(&["--set-upstream-name=up", "--no-jj", "o1/repo"]),
        false,
        &config,
    )
    .unwrap();
    assert_eq!(overridden.upstream_name, "up");
    assert!(!overridden.jj);
    let defaulted = parse_repo_command(&strings(&["o1/repo"]), true, &Config::default()).unwrap();
    assert_eq!(defaulted.upstream_name, "origin");
    let after_dashes = parse_repo_command(&strings(&["--", "o1/repo", "-dir"]), true, &config).unwrap();
    assert_eq!(after_dashes.directory.as_deref(), Some("-dir"));
    assert_eq!(
        parse_repo_command(&strings(&["o1/repo", "dir"]), false, &config).unwrap_err(),
        "usage: co link [-u <name>] [--jj] <owner/repo>"
    );
    assert_eq!(
        parse_repo_command(&strings(&["-u"]), true, &config).unwrap_err(),
        "-u requires a remote name\nusage: co clone [-u <name>] [--jj] <owner/repo> [directory]"
    );
    assert_eq!(
        parse_repo_command(&strings(&["--wat", "o1/repo"]), false, &config).unwrap_err(),
        "unknown link option \"--wat\"\nusage: co link [-u <name>] [--jj] <owner/repo>"
    );
    assert_eq!(
        parse_repo_command(&strings(&["bad"]), true, &config).unwrap_err(),
        "repository must be written as <owner/repo>"
    );
}

#[test]
fn access_request_errors_and_defaults() {
    let plain = parse_access_request(&strings(&["hackr/www"])).unwrap();
    assert_eq!(plain.ttl_seconds, 3600);
    assert!(!plain.push);
    assert_eq!(parse_access_request(&strings(&["--ttl", "+300", "o1/r"])).unwrap().ttl_seconds, 300);
    assert_eq!(
        parse_access_request(&strings(&["--ttl", "86401", "o1/r"])).unwrap_err(),
        "--ttl must be between 300 and 86400 seconds"
    );
    assert!(parse_access_request(&strings(&["--ttl", "x", "o1/r"]))
        .unwrap_err()
        .starts_with("--ttl must be a number\n"));
    assert!(parse_access_request(&strings(&["--agent"]))
        .unwrap_err()
        .starts_with("--agent requires a value\n"));
    assert!(parse_access_request(&strings(&["o1/r", "o2/r"])).unwrap_err().starts_with("usage:"));
    assert_eq!(
        parse_access_request(&strings(&["--reason", &"x".repeat(501), "o1/r"])).unwrap_err(),
        "--reason must be 500 characters or fewer"
    );
    assert!(parse_access_request(&strings(&["--reason", &"é".repeat(500), "o1/r"])).is_ok());
    assert_eq!(
        parse_access_request(&strings(&["nope"])).unwrap_err(),
        "repository must be written as <owner/repo>"
    );
}

#[test]
fn required_argument_or_usage() {
    let args = strings(&["a", "b"]);
    assert_eq!(required_arg(&args, 1, "usage").unwrap(), "b");
    assert_eq!(required_arg(&args, 2, "usage").unwrap_err(), "usage");
}
