use co::api::{
    account_summary, api_error, browser_url, device_code_lifetime, device_poll_interval,
    device_poll_step, epoch_nanos, http_status_error, sign_out_warning, unix_now, ApiError,
    DeviceStep,
};
use co::config::{record_machine, Config, MachineIdentity};
use co::machine::{
    check_enrollment, check_resources, heartbeat_outcome, heartbeat_target, parse_enroll_args,
    ram_mib_from_meminfo, ram_mib_from_memsize, route_machine, setup_key,
    validate_self_registration, EnrollMode, HeartbeatError, MachineRoute,
};
use co::workflow::parse_workflow_args;

fn strings(args: &[&str]) -> Vec<String> {
    args.iter().map(|arg| arg.to_string()).collect()
}

fn machine(id: &str, api: &str) -> MachineIdentity {
    MachineIdentity { id: id.into(), scope: "owner".into(), api_url: api.into(), credential: "c".into() }
}

#[test]
fn enroll_arguments() {
    assert_eq!(parse_enroll_args(&strings(&["--setup-key"])).unwrap(), EnrollMode::SetupKey);
    assert_eq!(
        parse_enroll_args(&strings(&["--label", "box", "--owner", "me"])).unwrap(),
        EnrollMode::SelfRegister { owner: "me".into(), label: "box".into() }
    );
    let usage = "usage: co machine enroll --setup-key | --owner SLUG --label NAME";
    assert_eq!(parse_enroll_args(&[]).unwrap_err(), usage);
    assert_eq!(parse_enroll_args(&strings(&["--setup-key", "--owner", "me"])).unwrap_err(), usage);
    assert_eq!(parse_enroll_args(&strings(&["--owner", "me"])).unwrap_err(), usage);
    assert_eq!(parse_enroll_args(&strings(&["--setup-key", "--setup-key"])).unwrap_err(), usage);
    assert_eq!(parse_enroll_args(&strings(&["--owner"])).unwrap_err(), "--owner requires a slug");
    assert_eq!(parse_enroll_args(&strings(&["--label"])).unwrap_err(), "--label requires a name");
}

#[test]
fn setup_keys_and_registrations() {
    assert_eq!(setup_key("  co_setup_abc\n").unwrap(), "co_setup_abc");
    assert_eq!(setup_key("abc").unwrap_err(), "invalid setup key");
    assert_eq!(
        validate_self_registration("my-org", "box").unwrap(),
        "/machines/owners/my-org/self-register"
    );
    assert_eq!(validate_self_registration("My", "box").unwrap_err(), "owner must be a lowercase slug");
    assert_eq!(validate_self_registration("", "box").unwrap_err(), "owner must be a lowercase slug");
    assert_eq!(validate_self_registration("me", "  ").unwrap_err(), "label must be 1-80 characters");
    assert!(validate_self_registration("me", &"x".repeat(81)).is_err());
}

#[test]
fn resources_and_ram() {
    assert!(check_resources(1024, 16_777_216).is_ok());
    assert_eq!(check_resources(1025, 1).unwrap_err(), "detected resources exceed supported limits");
    assert_eq!(
        ram_mib_from_meminfo("MemFree: 1 kB\nMemTotal:       16384001 kB\n").unwrap(),
        16001
    );
    assert_eq!(ram_mib_from_meminfo("MemTotal:\nMemTotal: 2048 kB").unwrap(), 2);
    assert_eq!(ram_mib_from_meminfo("Other: 1\n").unwrap_err(), "unable to detect total RAM");
    assert_eq!(
        ram_mib_from_meminfo("MemTotal: 12x kB").unwrap_err(),
        "invalid total RAM: invalid digit found in string"
    );
    assert_eq!(
        ram_mib_from_meminfo("MemTotal: 99999999999999999999 kB").unwrap_err(),
        "invalid total RAM: number too large to fit in target type"
    );
    assert_eq!(ram_mib_from_memsize("17179869184\n").unwrap(), 16384);
    assert_eq!(ram_mib_from_memsize("1\n").unwrap(), 1);
    assert_eq!(
        ram_mib_from_memsize("\n").unwrap_err(),
        "invalid total RAM: cannot parse integer from empty string"
    );
}

#[test]
fn enrollment_answers_and_machines() {
    assert!(check_enrollment("m1", "owner", "co_runner_x").is_ok());
    assert!(check_enrollment("m1", "public", "co_runner_x").is_ok());
    assert_eq!(check_enrollment("m1", "all", "co_runner_x").unwrap_err(), "invalid enrollment response");
    assert!(check_enrollment("m1", "owner", "token").is_err());
    assert!(check_enrollment("", "owner", "co_runner_x").is_err());
    let mut config = Config::default();
    record_machine(&mut config, machine("m1", "https://a"));
    record_machine(&mut config, machine("m2", "https://a"));
    record_machine(&mut config, machine("m1", "https://b"));
    let ids: Vec<&str> = config.machines.iter().map(|m| m.id.as_str()).collect();
    assert_eq!(ids, vec!["m2", "m1"]);
    assert_eq!(heartbeat_target(&config, "m1", "https://b").unwrap(), 1);
    assert_eq!(
        heartbeat_target(&config, "m1", "https://a").unwrap_err(),
        HeartbeatError::Permanent(
            "machine was enrolled against a different API; select that API before running it".into()
        )
    );
    assert_eq!(
        heartbeat_target(&config, "m9", "https://a").unwrap_err(),
        HeartbeatError::Permanent("machine is not enrolled in this CLI configuration".into())
    );
}

#[test]
fn heartbeat_answers() {
    assert!(heartbeat_outcome(204, "204 No Content").is_ok());
    assert_eq!(
        heartbeat_outcome(401, "401 Unauthorized").unwrap_err(),
        HeartbeatError::Permanent("machine credential revoked or unavailable; enroll again".into())
    );
    assert_eq!(
        heartbeat_outcome(503, "503 Service Unavailable").unwrap_err(),
        HeartbeatError::Temporary("machine heartbeat failed (HTTP 503 Service Unavailable)".into())
    );
    assert_eq!(
        heartbeat_outcome(429, "429 Too Many Requests").unwrap_err(),
        HeartbeatError::Temporary("machine heartbeat failed (HTTP 429 Too Many Requests)".into())
    );
    assert_eq!(
        heartbeat_outcome(404, "404 Not Found").unwrap_err(),
        HeartbeatError::Permanent("machine heartbeat failed (HTTP 404 Not Found)".into())
    );
}

#[test]
fn machine_and_workflow_arguments() {
    assert_eq!(route_machine(&strings(&["list"])).unwrap(), MachineRoute::List);
    assert_eq!(route_machine(&strings(&["run", "m1"])).unwrap(), MachineRoute::Run("m1".into()));
    assert_eq!(
        route_machine(&strings(&["heartbeat", "m1"])).unwrap(),
        MachineRoute::Heartbeat("m1".into())
    );
    assert_eq!(
        route_machine(&strings(&["enroll", "--setup-key"])).unwrap(),
        MachineRoute::Enroll(strings(&["--setup-key"]))
    );
    assert!(route_machine(&strings(&["run"])).unwrap_err().starts_with("usage: co machine"));
    assert_eq!(parse_workflow_args(&strings(&["check"])).unwrap(), None);
    assert_eq!(
        parse_workflow_args(&strings(&["check", "ci.yml"])).unwrap(),
        Some("ci.yml".into())
    );
    assert_eq!(
        parse_workflow_args(&strings(&["check", "-x"])).unwrap_err(),
        "usage: co workflow check [FILE]"
    );
}

#[test]
fn api_errors_and_device_flow() {
    let error = |e: Option<&str>, d: Option<&str>, m: Option<&str>| ApiError {
        error: e.map(String::from),
        error_description: d.map(String::from),
        message: m.map(String::from),
    };
    assert_eq!(api_error(error(Some("c"), Some("d"), Some("m"))), "d");
    assert_eq!(api_error(error(Some("c"), None, Some("m"))), "m");
    assert_eq!(api_error(error(Some("c"), None, None)), "c");
    assert_eq!(api_error(error(None, None, None)), "API request failed");
    assert_eq!(api_error(http_status_error("404 Not Found")), "HTTP 404 Not Found");
    assert!(matches!(device_poll_step(error(Some("authorization_pending"), None, None)), DeviceStep::Pending));
    assert!(matches!(device_poll_step(error(Some("slow_down"), None, None)), DeviceStep::SlowDown));
    match device_poll_step(error(Some("access_denied"), None, None)) {
        DeviceStep::Fail(m) => assert_eq!(m, "device authorization was denied"),
        _ => panic!(),
    }
    match device_poll_step(error(Some("weird"), Some("described"), None)) {
        DeviceStep::Fail(m) => assert_eq!(m, "described"),
        _ => panic!(),
    }
    assert_eq!(device_poll_interval(None), 5);
    assert_eq!(device_poll_interval(Some(0)), 1);
    assert_eq!(device_code_lifetime(None), 1800);
    assert_eq!(browser_url(Some("full"), "base"), "full");
    assert_eq!(browser_url(None, "base"), "base");
    assert_eq!(sign_out_warning(Some(200)), None);
    assert_eq!(sign_out_warning(Some(401)), None);
    assert!(sign_out_warning(Some(500)).unwrap().contains("did not confirm"));
    assert!(sign_out_warning(None).unwrap().contains("unable to reach"));
    let (title, name, email) = account_summary(None, Some("Ada"), None);
    assert_eq!((title.as_str(), name.as_str(), email.as_str()), ("Ada", "Ada", "unknown"));
    assert_eq!(account_summary(Some("ada"), None, None).0, "ada");
    assert!(unix_now().unwrap() > 1_600_000_000);
    assert_eq!(epoch_nanos(2, 5), 2_000_000_005);
}
