use donna_desktop::flow::Effect;
use donna_desktop::state::AppState;
use donna_desktop::worker::{
    diagnostics, read_status, spawn_worker, worker_alive, worker_program, Probe, Program,
};

fn state() -> AppState {
    AppState::new(
        "device".to_string(),
        "/support".to_string(),
        b"/tmp/\xff/s.sock".to_vec(),
        "secret".to_string(),
        Some("https://api".to_string()),
        None,
    )
}

#[test]
fn environment_of_the_worker() {
    let sidecar = b"/app/donna-agent-local".to_vec();
    let command = spawn_worker(&state(), "tok", sidecar, true, "/m", "Ada's Mac", "aarch64");
    match command.program {
        Program::Binary { path } => assert_eq!(path, b"/app/donna-agent-local"),
        Program::Sources { .. } => panic!("there is a binary"),
    }
    let env: Vec<(&str, &[u8])> =
        command.env.iter().map(|(name, value)| (name.as_str(), value.as_slice())).collect();
    let expected: [(&str, &[u8]); 10] = [
        ("DONNA_API_BASE", b"https://api"),
        ("DONNA_ACCESS_TOKEN", b"tok"),
        ("DONNA_IPC_SOCKET", b"/tmp/\xff/s.sock"),
        ("DONNA_IPC_SECRET", b"secret"),
        ("DONNA_SUPPORT_DIR", b"/support"),
        ("DONNA_PUBLIC_DEVICE_ID", b"device"),
        ("DONNA_DEVICE_NAME", b"Ada's Mac"),
        ("DONNA_DEVICE_ARCH", b"aarch64"),
        ("DONNA_BROWSER_SCRIPT", b"/m/../browser/server.js"),
        ("DONNA_BROWSER_HEADED", b"1"),
    ];
    assert_eq!(env, expected);
}

#[test]
fn variables_are_set_once() {
    let command = spawn_worker(&state(), "", Vec::new(), true, "", "", "");
    let mut names: Vec<String> = command.env.into_iter().map(|(name, _)| name).collect();
    names.sort();
    names.dedup();
    assert_eq!(names.len(), 10);
}

#[test]
fn worker_from_its_sources() {
    match worker_program(b"/m/b".to_vec(), false, "/m") {
        Program::Sources { dir, args } => {
            assert_eq!(dir, "/m/../../donna-server-go");
            assert_eq!(args, vec!["run", "./cmd/donna-agent-local"]);
        }
        Program::Binary { .. } => panic!("there is no binary"),
    }
    match worker_program(b"/m/b".to_vec(), true, "/m") {
        Program::Binary { path } => assert_eq!(path, b"/m/b"),
        _ => panic!("there is a binary"),
    }
}

#[test]
fn workers_that_run() {
    assert!(worker_alive(&Some(Probe::Running)));
    assert!(worker_alive(&Some(Probe::Unknown)));
    assert!(!worker_alive(&Some(Probe::Exited)));
    assert!(!worker_alive(&None));
}

#[test]
fn status_without_an_answer() {
    for answer in [None, Some("not json".to_string()), Some(String::new())] {
        let mut state = state();
        state.paused = true;
        let status = diagnostics(&state, "1.2.3", false, &answer);
        assert_eq!(status.app_version, "1.2.3");
        assert_eq!(status.worker_version, "0.1.0");
        assert_eq!(status.device_id, "");
        assert_eq!(status.public_device_id, "device");
        assert!(!status.cloud_connected);
        assert!(!status.worker_running);
        assert!(status.paused);
        assert!(!status.browser_ready);
        assert_eq!(status.active_run_id, "");
        assert_eq!(status.queued_runs, 0);
    }
}

#[test]
fn status_with_an_answer() {
    let mut state = state();
    let (_, effect) = state.set_session("t".to_string(), String::new(), 0);
    assert!(matches!(effect, Effect::StopWorker));
    let answer = "{\"payload\":{\"worker\":\"2.0\",\"device_id\":\"d9\",\"paused\":true,\
                  \"active_run_id\":\"r1\",\"queued_runs\":7,\"app_version\":\"x\"}}\n";
    let status = diagnostics(&state, "1", true, &Some(answer.to_string()));
    assert_eq!(status.worker_version, "2.0");
    assert_eq!(status.device_id, "d9");
    assert!(status.paused);
    assert_eq!(status.active_run_id, "r1");
    assert!(status.cloud_connected);
    assert!(status.worker_running);
    assert_eq!(status.app_version, "1");
    assert_eq!(status.queued_runs, 0);
    assert!(!status.browser_ready);
}

#[test]
fn answers_of_another_shape() {
    let shapes = [
        "{\"payload\":{\"worker\":1,\"device_id\":null,\"paused\":\"yes\",\"active_run_id\":[]}}",
        "{\"worker\":\"2.0\",\"paused\":true}",
        "{\"payload\":[\"worker\"]}",
        "[]",
    ];
    for shape in shapes {
        let reply = read_status(&Some(shape.to_string()));
        assert_eq!(reply.worker, None);
        assert_eq!(reply.device_id, None);
        assert_eq!(reply.paused, None);
        assert_eq!(reply.active_run_id, None);
    }
}

#[test]
fn answer_can_end_a_pause() {
    let mut state = state();
    state.paused = true;
    let answer = Some("{\"payload\":{\"paused\":false}}".to_string());
    assert!(!diagnostics(&state, "1", true, &answer).paused);
    assert_eq!(read_status(&answer).paused, Some(false));
}

#[test]
fn status_is_told_of_the_state_before_the_worker_was_asked() {
    let mut state = state();
    state.paused = true;
    let before = state.clone();
    state.paused = false;
    let status = diagnostics(&before, "1.2.3", true, &None);
    assert!(status.paused && status.worker_running && !status.cloud_connected);
    assert_eq!(status.public_device_id, "device");
    assert_eq!(before.ipc_socket, state.ipc_socket);
    assert_eq!(before.ipc_secret, "secret");
}
