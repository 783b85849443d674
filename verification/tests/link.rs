use donna_desktop::link::{fragment_fields, handle_deep_link, link_tokens, read_value};
use donna_desktop::login::urlencoding_lite;

fn tokens(url: &str) -> Option<(String, String)> {
    handle_deep_link(url).map(|s| (s.access_token, s.refresh_token))
}

fn some(access: &str, refresh: &str) -> Option<(String, String)> {
    Some((access.to_string(), refresh.to_string()))
}

fn pairs(list: &[(&str, &str)]) -> Vec<(String, String)> {
    list.iter().map(|(k, v)| (k.to_string(), v.to_string())).collect()
}

#[test]
fn tokens_in_the_query() {
    assert_eq!(
        tokens("donna://auth/callback?access_token=abc&refresh_token=def"),
        some("abc", "def")
    );
    assert_eq!(tokens("donna://auth/callback?access_token=abc"), some("abc", ""));
    assert_eq!(tokens("DONNA://auth/callback?access_token=a%2Bb+c"), some("a+b c", ""));
    assert_eq!(tokens("donna:x?access_token=abc"), some("abc", ""));
}

#[test]
fn later_values_count() {
    assert_eq!(tokens("donna://a?access_token=1&access_token=2&x=3"), some("2", ""));
    assert_eq!(tokens("donna://a?access_token=1&access_token="), None);
}

#[test]
fn links_that_sign_nobody_in() {
    assert_eq!(tokens("https://auth/callback?access_token=abc"), None);
    assert_eq!(tokens("donna://auth/callback"), None);
    assert_eq!(tokens("donna://auth/callback?refresh_token=def"), None);
    assert_eq!(tokens("not an address"), None);
    assert_eq!(tokens(""), None);
}

#[test]
fn written_tokens_are_read_back() {
    for access in ["abc", "a&b=c#d", "ü+ %", "日本\n", "\"<>\\"] {
        for refresh in ["", "r", "x=y&access_token=z"] {
            let url = format!(
                "donna://auth/callback?access_token={}&refresh_token={}",
                urlencoding_lite(access),
                urlencoding_lite(refresh)
            );
            assert_eq!(tokens(&url), some(access, refresh));
        }
    }
    let other = format!(
        "donna://auth/callback?{}={}&={}&access_token=t",
        urlencoding_lite("k&y"),
        urlencoding_lite("v=w"),
        urlencoding_lite("")
    );
    assert_eq!(tokens(&other), some("t", ""));
    assert_eq!(tokens("donna://auth/callback?"), None);
}

#[test]
fn fragment_goes_before_the_query() {
    assert_eq!(tokens("donna://a?access_token=query#access_token=x=fragment"), some("fragment", ""));
    assert_eq!(
        tokens("donna://a?access_token=query#refresh_token=x=fragment"),
        some("query", "fragment")
    );
    assert_eq!(tokens("donna://a?access_token=query#state=1&other"), some("query", ""));
}

#[test]
fn plain_fragment_values_are_blank() {
    assert_eq!(read_value("abc"), "");
    assert_eq!(read_value(""), "");
    assert_eq!(read_value("&&"), "&&");
    assert_eq!(read_value("n=v+w%21"), "v w!");
    assert_eq!(tokens("donna://a#access_token=abc"), None);
    assert_eq!(tokens("donna://a?access_token=query#access_token=abc"), None);
}

#[test]
fn fields_of_a_fragment() {
    assert_eq!(
        fragment_fields("a=1&b&c=2=3&=4&"),
        pairs(&[("a", "1"), ("c", "2=3"), ("", "4")])
    );
    assert_eq!(fragment_fields(""), pairs(&[]));
}

#[test]
fn tokens_among_pairs() {
    let found = link_tokens("donna", &pairs(&[("access_token", "a"), ("refresh_token", "r")]));
    let found = found.expect("there is an access token");
    assert_eq!((found.access_token.as_str(), found.refresh_token.as_str()), ("a", "r"));
    assert!(link_tokens("http", &pairs(&[("access_token", "a")])).is_none());
    assert!(link_tokens("donna", &pairs(&[("access_token", "")])).is_none());
    assert!(link_tokens("donna", &pairs(&[])).is_none());
}
