use donna_desktop::login::{auth_start, urlencoding_lite};
use donna_desktop::state::AppState;

fn parameter(address: &str, key: &str) -> Option<String> {
    let url = url::Url::parse(address).unwrap();
    let found = url.query_pairs().find(|(k, _)| k == key).map(|(_, v)| v.into_owned());
    found
}

#[test]
fn form_encoding() {
    assert_eq!(urlencoding_lite("google"), "google");
    assert_eq!(urlencoding_lite("a b"), "a+b");
    assert_eq!(urlencoding_lite("*-._~"), "*-._%7E");
    assert_eq!(urlencoding_lite("donna://auth/callback"), "donna%3A%2F%2Fauth%2Fcallback");
    assert_eq!(urlencoding_lite("é"), "%C3%A9");
    assert_eq!(urlencoding_lite(""), "");
}

#[test]
fn parameter_values_are_contained() {
    let value = urlencoding_lite("a&b=c#d?e%f\"\n\u{1F600}");
    assert!(value.bytes().all(|b| b.is_ascii_alphanumeric() || b"*-._+%".contains(&b)));
}

#[test]
fn parameter_values_differ() {
    let texts = ["a b", "a+b", "a%20b", "a%2Bb", "a", "", "%", "%25"];
    for left in texts {
        for right in texts {
            assert_eq!(left == right, urlencoding_lite(left) == urlencoding_lite(right));
        }
    }
}

#[test]
fn login_address() {
    assert_eq!(
        auth_start("https://donnadoesit.com", "google"),
        "https://donnadoesit.com/login?desktop=1&provider=google&redirect_to=donna%3A%2F%2Fauth%2Fcallback"
    );
    let state = AppState::new(
        "d".to_string(),
        "s".to_string(),
        Vec::new(),
        "x".to_string(),
        None,
        Some("http://localhost:5173".to_string()),
    );
    let address = state.auth_start("a&redirect_to=evil");
    assert_eq!(parameter(&address, "provider").as_deref(), Some("a&redirect_to=evil"));
    assert_eq!(parameter(&address, "redirect_to").as_deref(), Some("donna://auth/callback"));
    assert_ne!(state.auth_start("google"), state.auth_start("apple"));
}
