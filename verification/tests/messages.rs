use donna_desktop::message::{ipc_send, is_answer, Message, Talk, Turn, SYNC_ATTEMPTS};
use donna_desktop::state::{send_pause, AppState};
use donna_desktop::workspace::LocalWorkspace;
use serde_json::Value;

fn object(members: Vec<(&str, Value)>) -> Value {
    let mut map = serde_json::Map::new();
    for (key, value) in members {
        map.insert(key.to_string(), value);
    }
    Value::Object(map)
}

fn texts() -> Vec<String> {
    let mut texts: Vec<String> = (0..0x80u8).map(|b| format!("<{}>", b as char)).collect();
    texts.push("\"}],{\\".to_string());
    texts.push("\u{7f}\u{85}\u{2028}é\u{1F600}".to_string());
    texts.push(String::new());
    texts
}

fn workspace(id: &str, name: &str, path: &str) -> LocalWorkspace {
    LocalWorkspace { id: id.to_string(), name: name.to_string(), path: path.to_string() }
}

#[test]
fn bare_messages() {
    assert_eq!(Message::Status.line(), "{\"type\":\"status\"}\n");
    assert_eq!(Message::Pause.line(), "{\"type\":\"pause\"}\n");
    assert_eq!(Message::Resume.line(), "{\"type\":\"resume\"}\n");
}

#[test]
fn messages_that_carry_a_text() {
    let auth = Message::Auth { secret: "ab\"c".to_string() };
    assert_eq!(auth.line(), "{\"payload\":{\"secret\":\"ab\\\"c\"},\"type\":\"auth\"}\n");
    let token = Message::Token { access_token: "t\u{1}".to_string() };
    assert_eq!(
        token.line(),
        "{\"payload\":{\"access_token\":\"t\\u0001\"},\"type\":\"token\"}\n"
    );
}

#[test]
fn lines_are_what_serde_json_prints() {
    for text in texts() {
        let expected = object(vec![
            ("type", Value::from("auth")),
            ("payload", object(vec![("secret", Value::from(text.as_str()))])),
        ]);
        assert_eq!(Message::Auth { secret: text.clone() }.line(), format!("{expected}\n"));
    }
    assert_eq!(Message::Status.line(), format!("{}\n", object(vec![("type", Value::from("status"))])));
}

#[test]
fn workspaces_line_is_what_serde_json_prints() {
    for count in 0..4usize {
        let all: Vec<LocalWorkspace> = (0..count)
            .map(|i| workspace(&format!("id{i}"), "na\"me", &format!("/p\n{i}")))
            .collect();
        let rows: Vec<Value> = all
            .iter()
            .map(|w| {
                object(vec![
                    ("id", Value::from(w.id.as_str())),
                    ("name", Value::from(w.name.as_str())),
                    ("path", Value::from(w.path.as_str())),
                ])
            })
            .collect();
        let expected = object(vec![
            ("type", Value::from("workspaces")),
            ("payload", object(vec![("workspaces", Value::Array(rows))])),
        ]);
        assert_eq!(Message::Workspaces { workspaces: all }.line(), format!("{expected}\n"));
    }
}

#[test]
fn each_message_is_one_line() {
    for text in texts() {
        let line = Message::Token { access_token: text }.line();
        assert!(line.ends_with('\n'));
        assert_eq!(line.lines().count(), 1);
        assert!(line[..line.len() - 1].chars().all(|c| c as u32 >= 0x20));
    }
}

#[test]
fn messages_can_be_told_apart() {
    let mut lines: Vec<String> = texts()
        .into_iter()
        .flat_map(|text| {
            vec![
                Message::Auth { secret: text.clone() }.line(),
                Message::Token { access_token: text }.line(),
            ]
        })
        .collect();
    lines.push(Message::Status.line());
    lines.push(Message::Pause.line());
    lines.push(Message::Resume.line());
    lines.push(Message::Workspaces { workspaces: vec![] }.line());
    let count = lines.len();
    lines.sort();
    lines.dedup();
    assert_eq!(lines.len(), count);
}

#[test]
fn secret_goes_first() {
    let exchange = ipc_send("s3cret", &Message::Status);
    assert_eq!(exchange.auth, "{\"payload\":{\"secret\":\"s3cret\"},\"type\":\"auth\"}\n");
    assert_eq!(exchange.message, "{\"type\":\"status\"}\n");
}

#[test]
fn message_follows_only_after_a_line_was_read() {
    let exchange = ipc_send("s3cret", &Message::Status);
    match exchange.open() {
        Talk::Write { line, turn: Turn::Auth } => assert_eq!(line, exchange.auth),
        _ => panic!("the secret is to be written"),
    }
    let silent = exchange.replied(Turn::Auth, None);
    assert!(matches!(silent, Talk::Over { answer: None }));
    for reply in ["", "no\n", "{\"ok\":true}\n"] {
        match exchange.replied(Turn::Auth, Some(reply.to_string())) {
            Talk::Write { line, turn: Turn::Message } => assert_eq!(line, exchange.message),
            _ => panic!("the message is to be written"),
        }
    }
}

#[test]
fn answer_is_the_line_after_the_message() {
    let exchange = ipc_send("s3cret", &Message::Status);
    match exchange.replied(Turn::Message, Some("{\"ok\":true}\n".to_string())) {
        Talk::Over { answer } => assert_eq!(answer.as_deref(), Some("{\"ok\":true}\n")),
        Talk::Write { .. } => panic!("nothing more is written"),
    }
    for reply in [None, Some(String::new()), Some("oops\n".to_string())] {
        let talk = exchange.replied(Turn::Message, reply);
        assert!(matches!(talk, Talk::Over { answer: None }));
    }
}

#[test]
fn answers_are_json() {
    assert!(is_answer("{\"ok\":true}\n"));
    assert!(is_answer("null"));
    assert!(!is_answer(""));
    assert!(!is_answer("hello\n"));
    assert!(!is_answer("{} {}"));
}

#[test]
fn pause_and_resume() {
    assert!(matches!(send_pause(true), Message::Pause));
    assert!(matches!(send_pause(false), Message::Resume));
}

#[test]
fn workspaces_are_offered_until_answered() {
    let mut state =
        AppState::new(String::new(), String::new(), Vec::new(), "sec".to_string(), None, None);
    state.load_workspaces(Some(vec![workspace("1", "n", "/p")]));
    let mut sync = state.schedule_workspace_sync();
    assert_eq!(sync.exchange.auth, "{\"payload\":{\"secret\":\"sec\"},\"type\":\"auth\"}\n");
    assert_eq!(
        sync.exchange.message,
        "{\"payload\":{\"workspaces\":[{\"id\":\"1\",\"name\":\"n\",\"path\":\"/p\"}]},\"type\":\"workspaces\"}\n"
    );
    assert_eq!(sync.attempts_left, SYNC_ATTEMPTS);
    sync.attempted(false);
    assert_eq!(sync.attempts_left, SYNC_ATTEMPTS - 1);
    sync.attempted(true);
    assert_eq!(sync.attempts_left, 0);
    sync.attempted(false);
    assert_eq!(sync.attempts_left, 0);
}

#[test]
fn workspaces_are_offered_fifty_times_at_most() {
    let state = AppState::new(String::new(), String::new(), Vec::new(), String::new(), None, None);
    let mut sync = state.schedule_workspace_sync();
    let mut attempts = 0;
    while sync.attempts_left > 0 {
        attempts += 1;
        sync.attempted(false);
    }
    assert_eq!(attempts, 50);
}
