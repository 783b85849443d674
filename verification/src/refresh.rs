//! Asking for a new access token: the request, and reading the answer.

use vstd::prelude::*;
use vstd::string::*;

use crate::flow::{Failure, TokenBody};
use crate::json::{
    is_json, json_text, json_text_at, json_valid, member, object, string_literal, text_at, Json,
};
use crate::state::{setting, setting_or};

verus! {

/// The service that gives out access tokens, where no other is asked for.
pub const SUPABASE_URL: &'static str = "https://eghhxjlhautsikejocze.supabase.co";

/// The key by which this app is known there, where no other is asked for. It may be
/// published.
pub const SUPABASE_ANON_KEY: &'static str = "sb_publishable_sFpDOcCxs9aKq283JIQPBg_eZRIpUTB";

/// How long the service may take to answer, in seconds.
pub const REQUEST_TIMEOUT_SECS: u64 = 20;

/// A request for a new access token: where it is posted, two headers and the body,
/// which is JSON.
pub struct TokenRequest {
    pub url: String,
    pub apikey: String,
    pub authorization: String,
    pub body: String,
}

/// What a request is.
pub struct TokenRequestView {
    pub url: Seq<char>,
    pub apikey: Seq<char>,
    pub authorization: Seq<char>,
    pub body: Seq<char>,
}

impl View for TokenRequest {
    type V = TokenRequestView;

    open spec fn view(&self) -> TokenRequestView {
        TokenRequestView {
            url: self.url@,
            apikey: self.apikey@,
            authorization: self.authorization@,
            body: self.body@,
        }
    }
}

/// The request for a new access token, at the service and with the key that were asked
/// for, if they were.
pub open spec fn request_of(
    url: Option<Seq<char>>,
    key: Option<Seq<char>>,
    refresh_token: Seq<char>,
) -> TokenRequestView {
    TokenRequestView {
        url: setting(url, SUPABASE_URL@) + "/auth/v1/token?grant_type=refresh_token"@,
        apikey: setting(key, SUPABASE_ANON_KEY@),
        authorization: "Bearer "@ + setting(key, SUPABASE_ANON_KEY@),
        body: json_text(request_json(refresh_token)),
    }
}

/// The body of the request.
pub open spec fn request_json(refresh_token: Seq<char>) -> Json {
    Json::Object(seq![("refresh_token"@, Json::Text(refresh_token))])
}

/// The request for a new access token, made with a refresh token.
pub fn token_request(url: Option<String>, key: Option<String>, refresh_token: &str) -> (request:
    TokenRequest)
    ensures
        request.url@ == setting(url.deep_view(), SUPABASE_URL@)
            + "/auth/v1/token?grant_type=refresh_token"@,
        request.apikey@ == setting(key.deep_view(), SUPABASE_ANON_KEY@),
        request.authorization@ == "Bearer "@ + setting(key.deep_view(), SUPABASE_ANON_KEY@),
        request.body@ == json_text(request_json(refresh_token@)),
        request@ == request_of(url.deep_view(), key.deep_view(), refresh_token@),
{
    let mut url = setting_or(url, SUPABASE_URL);
    url.append("/auth/v1/token?grant_type=refresh_token");
    let apikey = setting_or(key, SUPABASE_ANON_KEY);
    let mut authorization = "Bearer ".to_owned();
    authorization.append(apikey.as_str());
    TokenRequest { url, apikey, authorization, body: request_body(refresh_token) }
}

fn request_body(refresh_token: &str) -> (body: String)
    ensures
        body@ == json_text(request_json(refresh_token@)),
{
    let ghost members = seq![("refresh_token"@, Json::Text(refresh_token@))];
    let text = member(
        "refresh_token",
        string_literal(refresh_token).as_str(),
        Ghost(Json::Text(refresh_token@)),
    );
    object(text.as_str(), Ghost(members))
}

/// The tokens in the body of an answer, if it is JSON: the access token and the refresh
/// token, as far as it holds them.
pub open spec fn tokens_in(body: Seq<u8>) -> Option<(Option<Seq<char>>, Option<Seq<char>>)> {
    if json_valid(body) {
        Some((json_text_at(body, "/access_token"@), json_text_at(body, "/refresh_token"@)))
    } else {
        None
    }
}

/// The tokens in the body of an answer.
pub fn token_body(body: &[u8]) -> (tokens: Result<TokenBody, Failure>)
    ensures
        !json_valid(body@) ==> tokens == Err::<TokenBody, Failure>(Failure::BodyNotJson),
        json_valid(body@) ==> {
            &&& tokens matches Ok(tokens)
            &&& tokens.access_token.deep_view() == json_text_at(body@, "/access_token"@)
            &&& tokens.refresh_token.deep_view() == json_text_at(body@, "/refresh_token"@)
        },
        tokens matches Ok(tokens) ==> tokens_in(body@) == Some(
            (tokens.access_token.deep_view(), tokens.refresh_token.deep_view()),
        ),
        tokens is Err ==> tokens_in(body@) is None,
{
    if !is_json(body) {
        return Err(Failure::BodyNotJson);
    }
    Ok(
        TokenBody {
            access_token: text_at(body, "/access_token"),
            refresh_token: text_at(body, "/refresh_token"),
        },
    )
}

/// What a failure is reported as.
pub open spec fn failure_text(failure: Failure) -> Seq<char> {
    match failure {
        Failure::MissingAccessToken => "missing_access_token"@,
        Failure::TokenRefused { status_text } => "token_refresh_"@ + status_text@,
        Failure::BodyNotJson => "error decoding response body"@,
        Failure::TokenEmpty => "token_refresh_empty"@,
        Failure::Other { message } => message@,
    }
}

impl Failure {
    /// What a failure is reported as.
    pub fn message(&self) -> (text: String)
        ensures
            text@ == failure_text(*self),
    {
        match self {
            Failure::MissingAccessToken => "missing_access_token".to_owned(),
            Failure::TokenRefused { status_text } => {
                let mut text = "token_refresh_".to_owned();
                text.append(status_text.as_str());
                text
            },
            Failure::BodyNotJson => "error decoding response body".to_owned(),
            Failure::TokenEmpty => "token_refresh_empty".to_owned(),
            Failure::Other { message } => message.clone(),
        }
    }
}

/// Requests with the same body were made with the same refresh token.
pub proof fn law_request_shows_the_refresh_token(left: Seq<char>, right: Seq<char>)
    requires
        json_text(request_json(left)) == json_text(request_json(right)),
    ensures
        left == right,
{
    crate::json::law_json_is_unambiguous(request_json(left), request_json(right));
    assert(request_json(left)->Object_0[0].1 == Json::Text(left));
    assert(request_json(right)->Object_0[0].1 == Json::Text(right));
}

/// The request says the refresh token, as it is, and nothing else.
pub proof fn law_request_says_the_refresh_token(refresh_token: Seq<char>)
    ensures
        request_json(refresh_token) matches Json::Object(members) && members.len() == 1
            && members[0].0 == "refresh_token"@ && members[0].1 == Json::Text(refresh_token),
{
}

/// What the world outside said is reported as it was said, and why a token was refused
/// as the service put it, whole.
pub proof fn law_failures_are_reported_whole(text: String)
    ensures
        failure_text(Failure::Other { message: text }) == text@,
        failure_text(Failure::TokenRefused { status_text: text }).take(14) == "token_refresh_"@,
        failure_text(Failure::TokenRefused { status_text: text }).skip(14) == text@,
{
    reveal_strlit("token_refresh_");
    let refused = failure_text(Failure::TokenRefused { status_text: text });
    assert(refused.take(14) =~= "token_refresh_"@);
    assert(refused.skip(14) =~= text@);
}

/// The request goes to whatever service was asked for, and shows whatever key was, twice
/// and both times the same. What it is made with does not change where it goes.
pub proof fn law_request_goes_where_it_was_asked_to(
    url: Seq<char>,
    key: Seq<char>,
    refresh_token: Seq<char>,
    other: Seq<char>,
)
    ensures
        ({
            let request = request_of(Some(url), Some(key), refresh_token);
            let path = "/auth/v1/token?grant_type=refresh_token"@;
            &&& request.url.len() == url.len() + path.len()
            &&& request.url.take(url.len() as int) == url
            &&& request.url.skip(url.len() as int) == path
            &&& request.apikey == key
            &&& request.authorization.len() == 7 + key.len()
            &&& request.authorization.take(7) == "Bearer "@
            &&& request.authorization.skip(7) == key
            &&& request.body == json_text(
                Json::Object(seq![("refresh_token"@, Json::Text(refresh_token))]),
            )
            &&& request_of(None, Some(key), refresh_token).apikey == key
            &&& request_of(Some(url), None, refresh_token).url == request.url
            &&& request_of(None, None, refresh_token) == request_of(
                Some(SUPABASE_URL@),
                Some(SUPABASE_ANON_KEY@),
                refresh_token,
            )
            &&& request_of(Some(url), Some(key), other) == (TokenRequestView {
                body: request_of(None, None, other).body,
                ..request
            })
        }),
{
    reveal_strlit("Bearer ");
    let request = request_of(Some(url), Some(key), refresh_token);
    assert(request.url.take(url.len() as int) =~= url);
    assert(request.url.skip(url.len() as int) =~= "/auth/v1/token?grant_type=refresh_token"@);
    assert(request.authorization.take(7) =~= "Bearer "@);
    assert(request.authorization.skip(7) =~= key);
}

/// Every answer that is JSON is read: the access token from the one place in it, the
/// refresh token from the other, whatever else it holds. No other answer is.
pub proof fn law_every_body_is_read(body: Seq<u8>)
    ensures
        tokens_in(body) is Some <==> json_valid(body),
        tokens_in(body) matches Some((access, refresh)) ==> {
            &&& access == json_text_at(body, "/access_token"@)
            &&& refresh == json_text_at(body, "/refresh_token"@)
        },
{
}

} // verus!
