use donna_desktop::flow::{
    is_awaited, Effect, Event, Failure, Flow, Purpose, Stage, Status, TokenBody,
};
use donna_desktop::link::handle_deep_link;
use donna_desktop::message::Message;
use donna_desktop::state::AppState;

fn state() -> AppState {
    AppState::new(String::new(), String::new(), Vec::new(), String::new(), None, None)
}

fn signed_in(token: &str, at: u128) -> AppState {
    let mut state = state();
    let (_, effect) = state.set_session(token.to_string(), String::new(), at);
    assert!(matches!(effect, Effect::StopWorker));
    state
}

fn go_on(state: &mut AppState, flow: Flow, event: Event, now: u128) -> (Flow, Effect) {
    assert!(is_awaited(&flow.stage, &event));
    state.resume(flow, event, now)
}

fn token(state: &AppState) -> Option<String> {
    state.get_access_token()
}

fn loaded(stored: Option<&str>) -> Event {
    Event::RefreshLoaded { stored: stored.map(|s| s.to_string()) }
}

fn answered(code: u16, text: &str) -> Event {
    Event::TokenAnswered { answer: Ok(Status { code, text: text.to_string() }) }
}

fn body(access: Option<&str>, refresh: Option<&str>) -> Event {
    Event::BodyRead {
        body: Ok(TokenBody {
            access_token: access.map(|s| s.to_string()),
            refresh_token: refresh.map(|s| s.to_string()),
        }),
    }
}

fn failed(effect: &Effect) -> Option<String> {
    match effect {
        Effect::Finish { outcome: Err(failure) } => Some(failure.message()),
        _ => None,
    }
}

fn succeeded(effect: &Effect) -> bool {
    matches!(effect, Effect::Finish { outcome: Ok(()) })
}

/// Starts the worker and has it sent the workspaces.
fn finish_start(state: &mut AppState, flow: Flow, expected: &str) -> (Flow, Effect) {
    let (flow, effect) = go_on(state, flow, Event::WorkerStopped, 0);
    match effect {
        Effect::StartWorker { access_token } => assert_eq!(access_token, expected),
        _ => panic!("the worker is to be started"),
    }
    let (flow, effect) = go_on(state, flow, Event::WorkerStarted { outcome: Ok(()) }, 0);
    assert!(matches!(effect, Effect::SyncWorkspaces));
    go_on(state, flow, Event::Synced, 0)
}

#[test]
fn session_without_refresh_token() {
    let mut state = state();
    let (flow, effect) = state.set_session("abc".to_string(), String::new(), 9);
    assert!(matches!(effect, Effect::StopWorker));
    assert_eq!(token(&state).as_deref(), Some("abc"));
    assert_eq!(state.access_issued_at, Some(9));
    let (flow, effect) = finish_start(&mut state, flow, "abc");
    assert!(succeeded(&effect));
    assert!(matches!(flow.stage, Stage::Finished));
}

#[test]
fn session_with_refresh_token() {
    let mut state = state();
    let (flow, effect) = state.set_session("abc".to_string(), "def".to_string(), 1);
    match effect {
        Effect::SaveRefresh { refresh_token } => assert_eq!(refresh_token, "def"),
        _ => panic!("the refresh token is to be stored"),
    }
    assert_eq!(token(&state), None);
    let (flow, effect) = go_on(&mut state, flow, Event::RefreshSaved { outcome: Ok(()) }, 3);
    assert!(matches!(effect, Effect::StopWorker));
    assert_eq!(token(&state).as_deref(), Some("abc"));
    assert_eq!(state.access_issued_at, Some(3));
    let (_, effect) = finish_start(&mut state, flow, "abc");
    assert!(succeeded(&effect));
}

#[test]
fn session_without_access_token_is_refused() {
    let mut state = signed_in("old", 1);
    let (flow, effect) = state.set_session(String::new(), "def".to_string(), 2);
    assert_eq!(failed(&effect).as_deref(), Some("missing_access_token"));
    assert!(matches!(flow.stage, Stage::Finished));
    assert_eq!(token(&state).as_deref(), Some("old"));
}

#[test]
fn session_is_refused_where_its_refresh_token_cannot_be_stored() {
    let mut state = signed_in("old", 1);
    let (flow, _) = state.set_session("new".to_string(), "def".to_string(), 2);
    let event = Event::RefreshSaved { outcome: Err("locked".to_string()) };
    let (_, effect) = go_on(&mut state, flow, event, 3);
    assert_eq!(failed(&effect).as_deref(), Some("locked"));
    assert_eq!(token(&state).as_deref(), Some("old"));
    assert_eq!(state.access_issued_at, Some(1));
}

#[test]
fn session_is_kept_where_the_worker_does_not_start() {
    let mut state = state();
    let (flow, _) = state.set_session("abc".to_string(), String::new(), 1);
    let (flow, _) = go_on(&mut state, flow, Event::WorkerStopped, 1);
    let event = Event::WorkerStarted { outcome: Err("no such file".to_string()) };
    let (_, effect) = go_on(&mut state, flow, event, 1);
    assert_eq!(failed(&effect).as_deref(), Some("no such file"));
    assert_eq!(token(&state).as_deref(), Some("abc"));
}

#[test]
fn fresh_token_is_left() {
    let state = signed_in("abc", 0);
    let (_, effect) = state.ensure_fresh_access(1);
    assert!(succeeded(&effect));
}

#[test]
fn stale_token_is_refreshed() {
    let mut state = signed_in("old", 0);
    let now = 3_000_000_000_000;
    let (flow, effect) = state.ensure_fresh_access(now);
    assert!(matches!(effect, Effect::LoadRefresh));
    let (flow, effect) = go_on(&mut state, flow, loaded(Some("r1")), now);
    match effect {
        Effect::RequestToken { refresh_token } => assert_eq!(refresh_token, "r1"),
        _ => panic!("a token is to be asked for"),
    }
    let (flow, effect) = go_on(&mut state, flow, answered(200, "200 OK"), now);
    assert!(matches!(effect, Effect::ReadBody));
    let (flow, effect) = go_on(&mut state, flow, body(Some("new"), Some("r2")), now);
    match effect {
        Effect::SaveRefresh { refresh_token } => assert_eq!(refresh_token, "r2"),
        _ => panic!("the new refresh token is to be stored"),
    }
    assert_eq!(token(&state).as_deref(), Some("old"));
    let (flow, effect) = go_on(&mut state, flow, Event::RefreshSaved { outcome: Ok(()) }, now + 1);
    match effect {
        Effect::SendToWorker { message: Message::Token { access_token } } => {
            assert_eq!(access_token, "new")
        }
        _ => panic!("the worker is to be sent the token"),
    }
    assert_eq!(token(&state).as_deref(), Some("new"));
    assert_eq!(state.access_issued_at, Some(now + 1));
    let (_, effect) = go_on(&mut state, flow, Event::Sent, now);
    assert!(succeeded(&effect));
}

#[test]
fn refresh_without_a_new_refresh_token() {
    for refresh in [None, Some("")] {
        let mut state = state();
        let (flow, _) = state.ensure_fresh_access(0);
        let (flow, _) = go_on(&mut state, flow, loaded(Some("r")), 0);
        let (flow, _) = go_on(&mut state, flow, answered(299, ""), 0);
        let (_, effect) = go_on(&mut state, flow, body(Some("new"), refresh), 4);
        assert!(matches!(effect, Effect::SendToWorker { .. }));
        assert_eq!(token(&state).as_deref(), Some("new"));
        assert_eq!(state.access_issued_at, Some(4));
    }
}

#[test]
fn nothing_is_asked_for_without_a_stored_token() {
    for stored in [None, Some("")] {
        let mut state = state();
        let (flow, _) = state.ensure_fresh_access(0);
        let (_, effect) = go_on(&mut state, flow, loaded(stored), 0);
        assert!(succeeded(&effect));
        assert_eq!(token(&state), None);
    }
}

#[test]
fn failed_refresh_changes_nothing() {
    let events: Vec<(Vec<Event>, &str)> = vec![
        (vec![Event::TokenAnswered { answer: Err("offline".to_string()) }], "offline"),
        (vec![answered(401, "401 Unauthorized")], "token_refresh_401 Unauthorized"),
        (vec![answered(199, "199 x")], "token_refresh_199 x"),
        (vec![answered(300, "300 y")], "token_refresh_300 y"),
        (
            vec![answered(200, ""), Event::BodyRead { body: Err(Failure::BodyNotJson) }],
            "error decoding response body",
        ),
        (vec![answered(200, ""), body(None, Some("r2"))], "token_refresh_empty"),
        (vec![answered(200, ""), body(Some(""), None)], "token_refresh_empty"),
        (
            vec![
                answered(200, ""),
                body(Some("new"), Some("r2")),
                Event::RefreshSaved { outcome: Err("locked".to_string()) },
            ],
            "locked",
        ),
    ];
    for (events, expected) in events {
        let mut state = signed_in("old", 7);
        let (flow, _) = state.ensure_fresh_access(9_000_000_000_000);
        let (mut flow, mut effect) = go_on(&mut state, flow, loaded(Some("r")), 0);
        for event in events {
            let next = go_on(&mut state, flow, event, 0);
            flow = next.0;
            effect = next.1;
        }
        assert_eq!(failed(&effect).as_deref(), Some(expected));
        assert_eq!(token(&state).as_deref(), Some("old"));
        assert_eq!(state.access_issued_at, Some(7));
    }
}

#[test]
fn restart_goes_on_where_the_refresh_failed() {
    let mut state = signed_in("old", 0);
    let (flow, effect) = state.restart_worker(u128::MAX);
    assert!(matches!(effect, Effect::LoadRefresh));
    let (flow, _) = go_on(&mut state, flow, loaded(Some("r")), 0);
    let (flow, effect) = go_on(&mut state, flow, answered(500, "500"), 0);
    assert!(matches!(effect, Effect::StopWorker));
    let (_, effect) = finish_start(&mut state, flow, "old");
    assert!(succeeded(&effect));
}

#[test]
fn restart_reports_a_worker_that_does_not_start() {
    let mut state = signed_in("abc", 0);
    let (flow, effect) = state.restart_worker(1);
    assert!(matches!(effect, Effect::StopWorker));
    let (flow, _) = go_on(&mut state, flow, Event::WorkerStopped, 1);
    let event = Event::WorkerStarted { outcome: Err("broken".to_string()) };
    let (_, effect) = go_on(&mut state, flow, event, 1);
    assert_eq!(failed(&effect).as_deref(), Some("broken"));
}

#[test]
fn restart_from_the_menu_reports_nothing() {
    let mut state = signed_in("abc", 0);
    let (flow, effect) = state.menu_restart(1);
    assert!(matches!(effect, Effect::StopWorker));
    let (flow, _) = go_on(&mut state, flow, Event::WorkerStopped, 1);
    let event = Event::WorkerStarted { outcome: Err("broken".to_string()) };
    let (flow, effect) = go_on(&mut state, flow, event, 1);
    assert!(matches!(effect, Effect::SyncWorkspaces));
    let (_, effect) = go_on(&mut state, flow, Event::Synced, 1);
    assert!(succeeded(&effect));
}

#[test]
fn no_worker_is_started_where_nobody_is_signed_in() {
    let mut state = signed_in("abc", 0);
    let _ = state.auth_sign_out();
    let (flow, _) = state.menu_restart(1);
    let (flow, effect) = go_on(&mut state, flow, loaded(None), 1);
    assert!(matches!(effect, Effect::StopWorker));
    let (flow, effect) = go_on(&mut state, flow, Event::WorkerStopped, 1);
    assert!(matches!(effect, Effect::SyncWorkspaces));
    let (_, effect) = go_on(&mut state, flow, Event::Synced, 1);
    assert!(succeeded(&effect));
}

#[test]
fn launch_takes_up_a_stored_session() {
    let mut state = state();
    let (flow, effect) = state.launch();
    assert_eq!(flow.purpose, Purpose::Launch);
    assert!(matches!(effect, Effect::LoadRefresh));
    let (flow, effect) = go_on(&mut state, flow, loaded(Some("r")), 0);
    assert!(matches!(effect, Effect::LoadRefresh));
    let (flow, _) = go_on(&mut state, flow, loaded(Some("r")), 0);
    let (flow, _) = go_on(&mut state, flow, answered(200, ""), 0);
    let (flow, _) = go_on(&mut state, flow, body(Some("new"), None), 0);
    let (flow, effect) = go_on(&mut state, flow, Event::Sent, 0);
    assert!(matches!(effect, Effect::StopWorker));
    let (_, effect) = finish_start(&mut state, flow, "new");
    assert!(succeeded(&effect));
}

#[test]
fn launch_without_a_session_is_quiet() {
    let mut state = state();
    let (flow, _) = state.launch();
    let (_, effect) = go_on(&mut state, flow, loaded(None), 0);
    assert!(succeeded(&effect));
    let (flow, _) = state.launch();
    let (flow, _) = go_on(&mut state, flow, loaded(Some("r")), 0);
    let (flow, _) = go_on(&mut state, flow, loaded(Some("r")), 0);
    let (_, effect) = go_on(&mut state, flow, answered(500, "500"), 0);
    assert!(succeeded(&effect));
    assert_eq!(token(&state), None);
}

#[test]
fn link_is_accepted_whatever_happens() {
    let mut state = state();
    let link = "donna://auth/callback?access_token=abc&refresh_token=def";
    let sign_in = handle_deep_link(link).expect("a sign-in");
    let (flow, effect) = state.accept_link(sign_in, 1);
    match effect {
        Effect::SaveRefresh { refresh_token } => assert_eq!(refresh_token, "def"),
        _ => panic!("the refresh token is to be stored"),
    }
    let event = Event::RefreshSaved { outcome: Err("locked".to_string()) };
    let (flow, effect) = go_on(&mut state, flow, event, 2);
    assert!(matches!(effect, Effect::StopWorker));
    assert_eq!(token(&state).as_deref(), Some("abc"));
    let (flow, _) = go_on(&mut state, flow, Event::WorkerStopped, 2);
    let event = Event::WorkerStarted { outcome: Err("broken".to_string()) };
    let (flow, effect) = go_on(&mut state, flow, event, 2);
    assert!(matches!(effect, Effect::SyncWorkspaces));
    let (flow, effect) = go_on(&mut state, flow, Event::Synced, 2);
    assert!(matches!(effect, Effect::AnnounceSignIn));
    let (_, effect) = go_on(&mut state, flow, Event::Announced, 2);
    assert!(succeeded(&effect));
}

#[test]
fn link_without_refresh_token() {
    let mut state = state();
    let sign_in = handle_deep_link("donna://auth/callback?access_token=abc").expect("a sign-in");
    let (_, effect) = state.accept_link(sign_in, 1);
    assert!(matches!(effect, Effect::StopWorker));
    assert_eq!(token(&state).as_deref(), Some("abc"));
}

#[test]
fn only_awaited_events_are_accepted() {
    assert!(is_awaited(&Stage::Loading, &loaded(None)));
    assert!(!is_awaited(&Stage::Loading, &Event::Sent));
    assert!(!is_awaited(&Stage::Finished, &Event::Announced));
    assert!(is_awaited(&Stage::Announcing, &Event::Announced));
}

#[test]
fn longest_flow_ends() {
    let mut state = state();
    let events = vec![
        loaded(Some("r")),
        loaded(Some("r")),
        answered(200, ""),
        body(Some("new"), Some("r2")),
        Event::RefreshSaved { outcome: Ok(()) },
        Event::Sent,
        Event::WorkerStopped,
        Event::WorkerStarted { outcome: Ok(()) },
        Event::Synced,
    ];
    assert!(events.len() <= 10);
    let (mut flow, mut effect) = state.launch();
    for event in events {
        assert!(!matches!(effect, Effect::Finish { .. }));
        let next = go_on(&mut state, flow, event, 0);
        flow = next.0;
        effect = next.1;
    }
    assert!(succeeded(&effect));
}

#[test]
fn flows_do_not_look_at_workspaces() {
    let mut left = state();
    let mut right = state();
    right.add_workspace("1".to_string(), "/private/path".to_string());
    for events in [vec![loaded(Some("r")), answered(200, "")], vec![loaded(None)]] {
        let (mut l, _) = left.restart_worker(0);
        let (mut r, _) = right.restart_worker(0);
        for event in events {
            let copy = match &event {
                Event::RefreshLoaded { stored } => Event::RefreshLoaded { stored: stored.clone() },
                _ => answered(200, ""),
            };
            let (next_l, effect_l) = go_on(&mut left, l, event, 0);
            let (next_r, effect_r) = go_on(&mut right, r, copy, 0);
            match (&effect_l, &effect_r) {
                (
                    Effect::RequestToken { refresh_token: a },
                    Effect::RequestToken { refresh_token: b },
                ) => assert_eq!(a, b),
                (Effect::ReadBody, Effect::ReadBody) => {}
                (Effect::StopWorker, Effect::StopWorker) => {}
                _ => panic!("the flows differ"),
            }
            l = next_l;
            r = next_r;
        }
    }
    assert_eq!(right.list_workspaces().len(), 1);
}

#[test]
fn signing_out_deletes_the_refresh_token_and_stops_the_worker() {
    let mut state = signed_in("abc", 1);
    let (flow, effect) = state.auth_sign_out();
    assert_eq!(flow.purpose, Purpose::SignOut);
    assert!(matches!(effect, Effect::ClearRefresh));
    assert_eq!(token(&state), None);
    assert_eq!(state.access_issued_at, None);
    let (flow, effect) = go_on(&mut state, flow, Event::RefreshCleared, 2);
    assert!(matches!(effect, Effect::StopWorker));
    let (flow, effect) = go_on(&mut state, flow, Event::WorkerStopped, 2);
    assert!(succeeded(&effect));
    assert!(matches!(flow.stage, Stage::Finished));
    assert_eq!(token(&state), None);
}

#[test]
fn signed_out_session_is_not_revived() {
    let mut state = signed_in("abc", 1);
    let (flow, _) = state.auth_sign_out();
    let (flow, _) = go_on(&mut state, flow, Event::RefreshCleared, 2);
    go_on(&mut state, flow, Event::WorkerStopped, 2);

    let (flow, effect) = state.launch();
    assert!(matches!(effect, Effect::LoadRefresh));
    let (_, effect) = go_on(&mut state, flow, loaded(None), 3);
    assert!(succeeded(&effect));

    for (flow, effect) in [state.ensure_fresh_access(4), state.refresh_access()] {
        assert!(matches!(effect, Effect::LoadRefresh));
        let (_, effect) = go_on(&mut state, flow, loaded(Some("")), 4);
        assert!(succeeded(&effect));
    }

    for (flow, effect) in [state.restart_worker(5), state.menu_restart(5)] {
        assert!(matches!(effect, Effect::LoadRefresh));
        let (flow, effect) = go_on(&mut state, flow, loaded(None), 5);
        assert!(matches!(effect, Effect::StopWorker));
        let (flow, effect) = go_on(&mut state, flow, Event::WorkerStopped, 5);
        assert!(matches!(effect, Effect::SyncWorkspaces));
        let (_, effect) = go_on(&mut state, flow, Event::Synced, 5);
        assert!(succeeded(&effect));
    }
    assert_eq!(token(&state), None);
    assert_eq!(state.access_issued_at, None);
}

#[test]
fn picked_workspace_is_stored_and_offered() {
    let mut state = signed_in("abc", 1);
    let picked = state.pick_workspace(Some(Ok("/a/one".to_string())));
    let (workspace, (flow, effect)) = picked.expect("picked");
    assert_eq!(workspace.name, "one");
    assert_eq!(flow.purpose, Purpose::PickWorkspace);
    assert!(matches!(effect, Effect::PersistWorkspaces));
    assert_eq!(state.list_workspaces().len(), 1);
    let (flow, effect) = go_on(&mut state, flow, Event::WorkspacesPersisted, 2);
    assert!(matches!(effect, Effect::SyncWorkspaces));
    let (_, effect) = go_on(&mut state, flow, Event::Synced, 2);
    assert!(succeeded(&effect));
    assert_eq!(state.list_workspaces().len(), 1);
}

#[test]
fn quitting_stops_the_worker_before_the_app_exits() {
    let mut state = signed_in("abc", 1);
    let (flow, effect) = state.quit();
    assert_eq!(flow.purpose, Purpose::Quit);
    assert!(matches!(effect, Effect::StopWorker));
    let (flow, effect) = go_on(&mut state, flow, Event::WorkerStopped, 2);
    assert!(matches!(effect, Effect::Exit));
    let (flow, effect) = go_on(&mut state, flow, Event::Exited, 2);
    assert!(succeeded(&effect));
    assert!(matches!(flow.stage, Stage::Finished));
    assert_eq!(token(&state).as_deref(), Some("abc"));
}

#[test]
fn asking_for_a_token_does_not_wait_until_it_is_old() {
    let mut state = signed_in("abc", 1);
    let (_, effect) = state.ensure_fresh_access(2);
    assert!(succeeded(&effect));
    let (flow, effect) = state.refresh_access();
    assert_eq!(flow.purpose, Purpose::KeepFresh);
    assert!(matches!(effect, Effect::LoadRefresh));
    let (flow, effect) = go_on(&mut state, flow, loaded(Some("r")), 2);
    assert!(matches!(effect, Effect::RequestToken { refresh_token } if refresh_token == "r"));
    let (flow, _) = go_on(&mut state, flow, answered(200, ""), 2);
    let (flow, effect) = go_on(&mut state, flow, body(Some("new"), None), 3);
    assert!(matches!(effect, Effect::SendToWorker { .. }));
    let (_, effect) = go_on(&mut state, flow, Event::Sent, 3);
    assert!(succeeded(&effect));
    assert_eq!(token(&state).as_deref(), Some("new"));
    assert_eq!(state.access_issued_at, Some(3));
}

#[test]
fn failed_refresh_sends_the_worker_nothing() {
    let answer = Event::TokenAnswered { answer: Err("offline".to_string()) };
    let not_json = Event::BodyRead { body: Err(Failure::BodyNotJson) };
    let locked = Event::RefreshSaved { outcome: Err("locked".to_string()) };
    let runs = vec![
        vec![loaded(Some("r")), answer],
        vec![loaded(Some("r")), answered(401, "401 Unauthorized")],
        vec![loaded(Some("r")), answered(200, ""), not_json],
        vec![loaded(Some("r")), answered(200, ""), body(Some(""), Some("s"))],
        vec![loaded(Some("r")), answered(200, ""), body(Some("new"), Some("s")), locked],
    ];
    for events in runs {
        let mut state = signed_in("abc", 1);
        let (mut flow, mut effect) = state.refresh_access();
        for event in events {
            (flow, effect) = go_on(&mut state, flow, event, 2);
            assert!(!matches!(effect, Effect::SendToWorker { .. }));
        }
        assert!(failed(&effect).is_some());
        assert_eq!(token(&state).as_deref(), Some("abc"));
        assert_eq!(state.access_issued_at, Some(1));
    }
}

#[test]
fn workspaces_leave_no_mark_on_a_refresh() {
    let mut plain = signed_in("abc", 1);
    let mut other = signed_in("abc", 1);
    other.support_dir = "/elsewhere".to_string();
    other.add_workspace("1".to_string(), "/secret/place".to_string());
    let requested = |state: &mut AppState| {
        let (flow, effect) = state.refresh_access();
        assert!(matches!(effect, Effect::LoadRefresh));
        let (_, effect) = go_on(state, flow, loaded(Some("r")), 2);
        match effect {
            Effect::RequestToken { refresh_token } => refresh_token,
            _ => panic!("a new access token is to be asked for"),
        }
    };
    assert_eq!(requested(&mut plain), "r");
    assert_eq!(requested(&mut other), "r");
}

#[test]
fn flow_makes_one_request() {
    let mut state = state();
    let (mut flow, mut effect) = state.launch();
    let saved = Event::RefreshSaved { outcome: Ok(()) };
    let started = Event::WorkerStarted { outcome: Ok(()) };
    let events = vec![
        loaded(Some("r")),
        loaded(Some("r")),
        answered(200, ""),
        body(Some("new"), Some("s")),
        saved,
        Event::Sent,
        Event::WorkerStopped,
        started,
        Event::Synced,
    ];
    let mut requests = 0;
    for event in events {
        (flow, effect) = go_on(&mut state, flow, event, 1);
        if matches!(effect, Effect::RequestToken { .. }) {
            requests += 1;
        }
    }
    assert!(matches!(flow.stage, Stage::Finished));
    assert!(succeeded(&effect));
    assert_eq!(requests, 1);
}
