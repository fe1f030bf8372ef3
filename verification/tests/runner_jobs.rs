use co::runner::{valid_job, Assignment};

#[test]
fn checkout_origin_is_bound_to_the_api_environment() {
    let job = Assignment {
        id: "test".into(),
        assignment_token: "token".into(),
        checkout_url: "https://git.co.codes/owner/repo.git".into(),
        commit_oid: "a".repeat(40),
        steps: vec![],
        vcpus: 1,
        ram_mib: 128,
    };
    assert!(valid_job(&job, "https://api.co.codes"));
    assert!(!valid_job(
        &Assignment {
            checkout_url: "http://127.0.0.1:7700/owner/repo.git".into(),
            ..job
        },
        "https://api.co.codes"
    ));
    let local = Assignment {
        checkout_url: "http://127.0.0.1:7700/owner/repo.git".into(),
        commit_oid: "a".repeat(40),
        id: "test".into(),
        assignment_token: "token".into(),
        steps: vec![],
        vcpus: 1,
        ram_mib: 128,
    };
    assert!(valid_job(&local, "https://api.co.localhost"));
    assert!(!valid_job(&local, "https://api.co.localhost.evil.example"));
}
