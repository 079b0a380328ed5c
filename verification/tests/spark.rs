use sandboxed::auth::Refusal;
use sandboxed::json_text::{parse_json, print_json};
use sandboxed::spark::{
    after_submit, after_upload, default_priority, download_args, job_url, plan_offload, poll_step,
    submit_body, submit_url, upload_args, OffloadPlan, OffloadRequest, PollStep, SparkConfig,
    SubmitReply, MAX_POLLS,
};

fn config() -> SparkConfig {
    SparkConfig {
        arbiter_url: Some("http://spark:9000".to_string()),
        arbiter_token: Some("tok".to_string()),
        ssh_target: Some("me@spark".to_string()),
    }
}

fn request(host_dir: &str, rel: &str, cmd: &str) -> OffloadRequest {
    OffloadRequest {
        host_dir: host_dir.to_string(),
        rel: rel.to_string(),
        cmd: cmd.to_string(),
        priority: default_priority(),
    }
}

fn plan(host_dir: &str, rel: &str) -> OffloadPlan {
    match plan_offload(&config(), &request(host_dir, rel, "lake build")) {
        Ok(p) => p,
        Err(e) => panic!("refused: {:?}", e),
    }
}

fn refused(config: &SparkConfig, req: &OffloadRequest) -> (u16, String) {
    match plan_offload(config, req) {
        Ok(_) => panic!("not refused"),
        Err(Refusal { status, message }) => (status, message),
    }
}

#[test]
fn offload_is_refused_without_configuration() {
    for i in 0..3 {
        let mut c = config();
        match i {
            0 => c.arbiter_url = None,
            1 => c.arbiter_token = None,
            _ => c.ssh_target = None,
        }
        assert_eq!(
            refused(&c, &request("nowhere", "", "")),
            (503, "spark offload not configured".to_string())
        );
    }
}

#[test]
fn offload_takes_mission_directories_only() {
    for dir in [
        "srv/workspaces/mission-1",
        "/srv/workspaces/other",
        "/srv/workspaces/mission-1/../x",
        "--rsync-path=/workspaces/mission-1",
        "/srv/workspaces/mission-1/-e",
    ] {
        assert_eq!(
            refused(&config(), &request(dir, "", "lake build")),
            (400, "invalid host_dir".to_string())
        );
    }
    assert_eq!(
        refused(&config(), &request("/srv/workspaces/mission-1", "", " ")),
        (400, "cmd required".to_string())
    );
}

#[test]
fn offload_paths() {
    let p = plan("/srv/workspaces/mission-1//", "");
    assert_eq!(p.host_dir, "/srv/workspaces/mission-1");
    assert_eq!(p.remote_rel, ".spark-builds/mission-1");
    assert_eq!(p.remote_cwd, "/home/me/.spark-builds/mission-1");
    let p = plan("/srv/workspaces/mission-1", "/morpho/");
    assert_eq!(p.remote_cwd, "/home/me/.spark-builds/mission-1/morpho");
    assert_eq!(
        upload_args(&p),
        [
            "rsync",
            "-az",
            "--delete",
            "--exclude",
            ".git",
            "-e",
            "ssh",
            "--",
            "/srv/workspaces/mission-1/",
            "me@spark:.spark-builds/mission-1/"
        ]
    );
    assert_eq!(
        download_args(&p),
        [
            "rsync",
            "-az",
            "-e",
            "ssh",
            "--",
            "me@spark:.spark-builds/mission-1/",
            "/srv/workspaces/mission-1/"
        ]
    );
}

#[test]
fn offload_submission() {
    let p = plan("/srv/workspaces/mission-1", "");
    let body = submit_body(&request("/srv/workspaces/mission-1", "", "lake build"), &p);
    assert_eq!(
        print_json(&body),
        "{\n  \"cmd\": \"lake build\",\n  \"cwd\": \"/home/me/.spark-builds/mission-1\",\n  \"priority\": \"P0\"\n}"
    );
    assert_eq!(submit_url("http://a"), "http://a/build");
    assert_eq!(job_url("http://a", "7"), "http://a/build/7");
    let submitted = |r| after_submit(&r).map_err(|e| (e.status, e.message));
    let reply = |text| SubmitReply::Reply(parse_json(text).unwrap());
    let refused = |m: &str| Err((502, m.to_string()));
    assert_eq!(submitted(reply(r#"{"id": "j1"}"#)), Ok("j1".to_string()));
    assert_eq!(submitted(reply(r#"{"id": 1}"#)), refused("arbiter returned no job id"));
    let unreadable = SubmitReply::Unreadable("x".to_string());
    assert_eq!(submitted(unreadable), refused("arbiter submit parse: x"));
    let unreachable = SubmitReply::Unreachable("x".to_string());
    assert_eq!(submitted(unreachable), refused("arbiter unreachable: x"));
    assert!(after_upload(true, "x").is_ok());
    let e = after_upload(false, "x").unwrap_err();
    assert_eq!((e.status, e.message.as_str()), (502, "rsync up failed: x"));
}

#[test]
fn offload_polling() {
    let done = parse_json(r#"{"status": "done", "exit_code": 2, "log_tail": "bye"}"#);
    match poll_step(1, &done) {
        PollStep::Done(r) => assert_eq!((r.exit_code, r.log.as_str()), (2, "bye")),
        _ => panic!("not done"),
    }
    let failed = parse_json(r#"{"status": "failed"}"#);
    match poll_step(MAX_POLLS, &failed) {
        PollStep::Done(r) => assert_eq!((r.exit_code, r.log.as_str()), (-1, "")),
        _ => panic!("not done"),
    }
    let running = parse_json(r#"{"status": "running"}"#);
    assert!(matches!(poll_step(1, &running), PollStep::Again));
    assert!(matches!(poll_step(1, &None), PollStep::Again));
    for reply in [running, None] {
        match poll_step(MAX_POLLS, &reply) {
            PollStep::Refused(e) => {
                assert_eq!((e.status, e.message.as_str()), (504, "build timed out on spark"))
            }
            _ => panic!("not refused"),
        }
    }
}
