use donna_desktop::flow::Effect;
use donna_desktop::message::Message;
use donna_desktop::state::{AppState, Tokens, ACCESS_REFRESH_AFTER, DEFAULT_API, DEFAULT_WEB};
use donna_desktop::workspace::LocalWorkspace;

fn state() -> AppState {
    AppState::new(
        "device".to_string(),
        "/support".to_string(),
        b"/tmp/s.sock".to_vec(),
        "secret".to_string(),
        None,
        None,
    )
}

fn signed_in(token: &str, at: u128) -> AppState {
    let mut state = state();
    state.tokens = Some(Tokens { access_token: token.to_string() });
    state.access_issued_at = Some(at);
    state
}

#[test]
fn nobody_is_signed_in_at_first() {
    let state = state();
    assert!(state.auth_session().is_none());
    assert_eq!(state.get_access_token(), None);
    assert!(!state.has_fresh(0));
    assert!(!state.paused);
    assert!(state.list_workspaces().is_empty());
    assert_eq!(state.api_base, DEFAULT_API);
    assert_eq!(state.web_base, DEFAULT_WEB);
    assert_eq!(DEFAULT_API, "https://donna-server-go-production.up.railway.app");
    assert_eq!(DEFAULT_WEB, "https://donnadoesit.com");
}

#[test]
fn settings_that_are_asked_for() {
    let state = AppState::new(
        String::new(),
        String::new(),
        Vec::new(),
        String::new(),
        Some("http://api".to_string()),
        Some(String::new()),
    );
    assert_eq!(state.api_base, "http://api");
    assert_eq!(state.web_base, "");
}

#[test]
fn session_is_given_out() {
    let state = signed_in("abc", 5);
    assert_eq!(state.auth_session().map(|t| t.access_token).as_deref(), Some("abc"));
    assert_eq!(state.get_access_token().as_deref(), Some("abc"));
    let blank = signed_in("", 5);
    assert!(blank.auth_session().is_none());
    assert_eq!(blank.get_access_token(), None);
    assert!(!blank.has_fresh(5));
}

#[test]
fn token_is_fresh_for_fifty_minutes() {
    let state = signed_in("abc", 1_000);
    assert_eq!(ACCESS_REFRESH_AFTER, 50 * 60 * 1_000_000_000);
    assert!(state.has_fresh(1_000));
    assert!(state.has_fresh(1_000 + ACCESS_REFRESH_AFTER - 1));
    assert!(!state.has_fresh(1_000 + ACCESS_REFRESH_AFTER));
    assert!(state.has_fresh(0));
    assert!(!state.has_fresh(u128::MAX));
}

#[test]
fn signing_out_ends_the_session() {
    let mut state = signed_in("abc", 1);
    state.paused = true;
    let (_, effect) = state.auth_sign_out();
    assert!(matches!(effect, Effect::ClearRefresh));
    assert!(state.tokens.is_none());
    assert!(state.access_issued_at.is_none());
    assert!(state.auth_session().is_none());
    assert!(!state.has_fresh(1));
    assert!(state.paused);
}

#[test]
fn pausing_twice_changes_nothing() {
    let mut state = state();
    assert!(matches!(state.toggle_pause(), Message::Pause));
    assert!(state.paused);
    assert!(matches!(state.toggle_pause(), Message::Resume));
    assert!(!state.paused);
}

#[test]
fn picked_workspaces_are_added() {
    let mut state = state();
    let (first, _) = state.pick_workspace(Some(Ok("/a/one".to_string()))).expect("picked");
    let (second, _) = state.pick_workspace(Some(Ok("/".to_string()))).expect("picked");
    assert_eq!(first.name, "one");
    assert_eq!(first.path, "/a/one");
    assert_eq!(second.name, "Workspace");
    assert_ne!(first.id, second.id);
    assert_eq!(first.id.len(), 36);
    let all = state.list_workspaces();
    assert_eq!(all.len(), 2);
    assert_eq!(all[0].id, first.id);
    assert_eq!(all[1].path, "/");
}

#[test]
fn picking_nothing_adds_nothing() {
    let mut state = state();
    assert_eq!(state.pick_workspace(None).err().as_deref(), Some("cancelled"));
    let error = state.pick_workspace(Some(Err("not a path".to_string()))).err();
    assert_eq!(error.as_deref(), Some("not a path"));
    assert!(state.list_workspaces().is_empty());
}

#[test]
fn stored_workspaces_are_taken_over() {
    let mut state = state();
    state.add_workspace("1".to_string(), "/x".to_string());
    state.load_workspaces(None);
    assert_eq!(state.list_workspaces().len(), 1);
    state.load_workspaces(Some(vec![LocalWorkspace {
        id: "7".to_string(),
        name: "n".to_string(),
        path: "/p".to_string(),
    }]));
    let all = state.list_workspaces();
    assert_eq!(all.len(), 1);
    assert_eq!((all[0].id.as_str(), all[0].name.as_str(), all[0].path.as_str()), ("7", "n", "/p"));
}
