use co::runner::{
    bytes_to_keep, check_image_pinned, checkout_plan, combine_step_output, job_result_label,
    job_succeeded, keep_printable, renewal_cancels_job, run_next_step, step_wait_action, StepWait, setup_failure, start_failure, step_command_args,
    stop_container_args, valid_job, Assignment, Step, StepResult,
};

fn job(url: &str) -> Assignment {
    Assignment {
        id: "j1".into(),
        assignment_token: "token".into(),
        checkout_url: url.into(),
        commit_oid: "a".repeat(40),
        steps: vec![Step { name: "Build".into(), run: "make".into() }],
        vcpus: 2,
        ram_mib: 256,
    }
}

#[test]
fn rejects_untrusted_assignments() {
    let api = "https://api.co.codes";
    assert!(valid_job(&job("https://co.codes/o/r.git"), api));
    for url in [
        "https://evil.example/o/r.git",
        "https://git.co.codes/o/r",
        "https://git.co.codes/o/r.git?x=1",
        "https://git.co.codes/o/r.git#f",
        "https://user@git.co.codes/o/r.git",
        "https://u:p@git.co.codes/o/r.git",
        "http://git.co.codes/o/r.git",
        "file:///tmp/r.git",
        "not a url",
    ] {
        assert!(!valid_job(&job(url), api), "{url}");
    }
    let mut upper = job("https://git.co.codes/o/r.git");
    upper.commit_oid = "A".repeat(40);
    assert!(!valid_job(&upper, api));
    let mut short = job("https://git.co.codes/o/r.git");
    short.commit_oid = "a".repeat(39);
    assert!(!valid_job(&short, api));
    let mut empty_token = job("https://git.co.codes/o/r.git");
    empty_token.assignment_token = String::new();
    assert!(!valid_job(&empty_token, api));
    assert!(valid_job(&job("http://localhost:1/o/r.git"), "http://localhost:8080"));
}

#[test]
fn checkout_carries_the_token_only_in_the_clone_header() {
    let plan = checkout_plan(&job("https://git.co.codes/o/r.git"), "https://api.co.codes").unwrap();
    assert_eq!(plan.clone_args, vec!["clone", "--no-checkout", "--", "https://git.co.codes/o/r.git", "source"]);
    assert_eq!(
        plan.clone_env.last().unwrap(),
        &("GIT_CONFIG_VALUE_0".to_string(), "Authorization: Basic Y286dG9rZW4=".to_string())
    );
    assert_eq!(plan.checkout_args[4], "a".repeat(40));
    assert!(plan.checkout_env.iter().all(|(_, value)| !value.contains("Basic")));
    assert_eq!(
        checkout_plan(&job("https://evil.example/o/r.git"), "https://api.co.codes").err().unwrap(),
        "invalid job assignment"
    );
}

#[test]
fn step_commands() {
    let j = job("https://git.co.codes/o/r.git");
    let args = step_command_args("img@sha256:1", "/tmp/w/source", &j.steps[0], &j, 3);
    assert_eq!(args[4], "co-j1-3");
    assert!(args.contains(&"--memory=256m".to_string()));
    assert!(args.contains(&"--cpus=2".to_string()));
    assert!(args.contains(&"--volume=/tmp/w/source:/workspace:rw,Z".to_string()));
    assert!(args.contains(&"--network=none".to_string()));
    assert_eq!(&args[args.len() - 5..], &["img@sha256:1", "sh", "-e", "-c", "make"]);
    assert_eq!(stop_container_args("co-j1-3"), vec!["stop", "--time=0", "co-j1-3"]);
    assert!(check_image_pinned("alpine@sha256:abc").is_ok());
    assert_eq!(
        check_image_pinned("alpine:latest").unwrap_err(),
        "CO_MACHINE_IMAGE must be pinned by digest"
    );
}

#[test]
fn step_logs_are_bounded() {
    assert_eq!(combine_step_output("out", "err"), "outerr");
    let long_out = "a".repeat(600);
    let combined = combine_step_output(&long_out, &"b".repeat(600));
    assert_eq!(combined.len(), 1024);
    assert!(combined.starts_with(&"a".repeat(512)));
    let wide = "é".repeat(300);
    let cut = combine_step_output(&wide, "");
    assert_eq!(cut.len(), 512);
    let odd = combine_step_output(&format!("a{}", "é".repeat(300)), "");
    assert_eq!(odd.len(), 511);
    assert_eq!(keep_printable("a\u{1b}[0mb\n\tc\r"), "a[0mb\n\tc");
    assert_eq!(bytes_to_keep(2000, 100), 48);
    assert_eq!(bytes_to_keep(0, 100), 100);
}

#[test]
fn job_results() {
    let ok = |name: &str| StepResult { name: name.into(), exit_code: 0, output: String::new() };
    assert!(job_succeeded(false, &[ok("a")], 1));
    assert!(!job_succeeded(true, &[ok("a")], 1));
    assert!(!job_succeeded(false, &[ok("a")], 2));
    let failed = StepResult { name: "b".into(), exit_code: 2, output: String::new() };
    assert!(!job_succeeded(false, &[ok("a"), failed], 2));
    let j = job("https://git.co.codes/o/r.git");
    let setup = setup_failure(&j, "boom".into());
    assert_eq!((setup.name.as_str(), setup.exit_code, setup.output.as_str()), ("Build", 1, "boom"));
    let mut bare = job("https://git.co.codes/o/r.git");
    bare.steps.clear();
    assert_eq!(setup_failure(&bare, "x".into()).name, "Checkout");
    let start = start_failure(&j.steps[0], "no podman");
    assert_eq!(start.output, "Unable to start container: no podman");
    assert_eq!(job_result_label(true), "success");
    assert_eq!(job_result_label(false), "failure");
}

fn result(code: i32) -> StepResult {
    StepResult { name: "s".into(), exit_code: code, output: String::new() }
}

#[test]
fn steps_stop_at_the_first_failure_cancellation_or_deadline() {
    assert!(run_next_step(2, &[], false, false));
    assert!(run_next_step(2, &[result(0)], false, false));
    assert!(!run_next_step(2, &[result(0), result(0)], false, false));
    assert!(!run_next_step(3, &[result(0), result(2)], false, false));
    assert!(!run_next_step(3, &[result(0)], true, false));
    assert!(!run_next_step(3, &[result(0)], false, true));
    assert!(!run_next_step(0, &[], false, false));
}

#[test]
fn running_steps_finish_stop_or_wait() {
    assert_eq!(step_wait_action(Some(Some(3)), false, true, true, true), StepWait::Finished(3));
    assert_eq!(step_wait_action(Some(None), false, false, false, false), StepWait::Finished(1));
    assert_eq!(step_wait_action(None, true, false, false, false), StepWait::Kill(1));
    assert_eq!(step_wait_action(None, false, true, false, false), StepWait::StopAndKill(1));
    assert_eq!(step_wait_action(None, false, false, true, false), StepWait::StopAndKill(1));
    assert_eq!(step_wait_action(None, false, false, false, true), StepWait::StopAndKill(1));
    assert_eq!(step_wait_action(None, false, false, false, false), StepWait::Wait);
    assert!(renewal_cancels_job(409));
    assert!(renewal_cancels_job(401));
    assert!(!renewal_cancels_job(200));
    assert!(!renewal_cancels_job(500));
}
