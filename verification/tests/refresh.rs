use donna_desktop::flow::Failure;
use donna_desktop::refresh::{token_body, token_request, SUPABASE_ANON_KEY, SUPABASE_URL};

#[test]
fn request_to_the_default_service() {
    let request = token_request(None, None, "r\"1");
    assert_eq!(request.url, format!("{SUPABASE_URL}/auth/v1/token?grant_type=refresh_token"));
    assert_eq!(
        request.url,
        "https://eghhxjlhautsikejocze.supabase.co/auth/v1/token?grant_type=refresh_token"
    );
    assert_eq!(request.apikey, SUPABASE_ANON_KEY);
    assert_eq!(request.authorization, format!("Bearer {SUPABASE_ANON_KEY}"));
    assert_eq!(request.body, "{\"refresh_token\":\"r\\\"1\"}");
}

#[test]
fn built_in_key_may_be_published() {
    assert!(SUPABASE_ANON_KEY.starts_with("sb_publishable_"));
}

#[test]
fn request_to_another_service() {
    let request = token_request(Some("http://x".to_string()), Some("k".to_string()), "r");
    assert_eq!(request.url, "http://x/auth/v1/token?grant_type=refresh_token");
    assert_eq!(request.apikey, "k");
    assert_eq!(request.authorization, "Bearer k");
}

#[test]
fn requests_show_their_refresh_token() {
    assert_ne!(token_request(None, None, "a").body, token_request(None, None, "b").body);
}

#[test]
fn tokens_in_an_answer() {
    let body = br#"{"access_token":"a","refresh_token":"r","expires_in":3600.5,"user":{"id":1}}"#;
    let tokens = token_body(body).ok().expect("JSON");
    assert_eq!(tokens.access_token.as_deref(), Some("a"));
    assert_eq!(tokens.refresh_token.as_deref(), Some("r"));
}

#[test]
fn answers_without_tokens() {
    for body in [&b"{}"[..], b"[]", b"null", b"{\"access_token\":1,\"refresh_token\":null}"] {
        let tokens = token_body(body).ok().expect("JSON");
        assert_eq!(tokens.access_token, None);
        assert_eq!(tokens.refresh_token, None);
    }
}

#[test]
fn answers_that_are_not_json() {
    for body in [&b""[..], b"<html>", b"{} {}", b"\"\xff\""] {
        assert!(matches!(token_body(body), Err(Failure::BodyNotJson)));
    }
}

#[test]
fn failures_as_they_are_reported() {
    assert_eq!(Failure::MissingAccessToken.message(), "missing_access_token");
    let refused = Failure::TokenRefused { status_text: "401 Unauthorized".to_string() };
    assert_eq!(refused.message(), "token_refresh_401 Unauthorized");
    assert_eq!(Failure::BodyNotJson.message(), "error decoding response body");
    assert_eq!(Failure::TokenEmpty.message(), "token_refresh_empty");
    assert_eq!(Failure::Other { message: "no keychain".to_string() }.message(), "no keychain");
}
