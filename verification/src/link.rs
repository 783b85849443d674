//! The link that ends a sign-in: `donna://auth/callback` with the tokens in it.

use vstd::prelude::*;
use vstd::string::*;
use vstd::utf8::*;

use crate::login::{form_byte, login_address, parameter_value, REDIRECT};
use crate::text::{
    cut_at_first, law_pieces_of_both, law_text_without_separator_is_one_piece, lemma_ascii_byte,
    pieces, same, split, split_once,
};

verus! {

/// The parts of an address that a sign-in can be in.
pub struct LinkParts {
    pub scheme: String,
    pub query: Vec<(String, String)>,
    pub fragment: Option<String>,
}

/// What the parts of an address are.
pub open spec fn parts_view(parts: Option<LinkParts>) -> Option<
    (Seq<char>, Seq<(Seq<char>, Seq<char>)>, Option<Seq<char>>),
> {
    match parts {
        Some(parts) => Some(
            (parts.scheme@, parts.query.deep_view(), parts.fragment.deep_view()),
        ),
        None => None,
    }
}

/// The scheme of an address, the pairs in its query and its fragment, if the text
/// is an address at all.
pub uninterp spec fn url_parts(url: Seq<char>) -> Option<
    (Seq<char>, Seq<(Seq<char>, Seq<char>)>, Option<Seq<char>>),
>;

/// A pair in form encoding.
pub open spec fn form_pair(pair: (Seq<char>, Seq<char>)) -> Seq<char> {
    parameter_value(pair.0) + seq!['='] + parameter_value(pair.1)
}

/// Pairs in form encoding, with ampersands between them.
pub open spec fn form_query(pairs: Seq<(Seq<char>, Seq<char>)>) -> Seq<char>
    decreases pairs.len(),
{
    if pairs.len() == 0 {
        Seq::empty()
    } else if pairs.len() == 1 {
        form_pair(pairs[0])
    } else {
        form_pair(pairs[0]) + seq!['&'] + form_query(pairs.drop_first())
    }
}

/// The address that a sign-in comes back to, with pairs in its query.
pub open spec fn callback_address(pairs: Seq<(Seq<char>, Seq<char>)>) -> Seq<char> {
    REDIRECT@ + "?"@ + form_query(pairs)
}

/// `Url::parse`, and of what it gives `scheme`, `query_pairs` and `fragment`: all of
/// it depends on the text alone. Pairs that were written into the query of the
/// address that a sign-in comes back to, in form encoding, are read back from it.
#[verifier::external_body]
fn parse_url(url: &str) -> (parts: Option<LinkParts>)
    ensures
        parts_view(parts) == url_parts(url@),
        forall|pairs: Seq<(Seq<char>, Seq<char>)>|
            url@ == #[trigger] callback_address(pairs) ==> parts_view(parts) == Some(
                ("donna"@, pairs, None::<Seq<char>>),
            ),
{
    let url = url::Url::parse(url).ok()?;
    Some(LinkParts {
        scheme: url.scheme().to_owned(),
        query: url.query_pairs().into_owned().collect(),
        fragment: url.fragment().map(str::to_owned),
    })
}

/// The value of the first pair in a form-encoded text, if there is a pair in it.
pub uninterp spec fn form_value(text: Seq<u8>) -> Option<Seq<char>>;

/// The first pair that `url::form_urlencoded::parse` finds, and of it the value.
/// There is no pair in a text that is empty or all ampersands. In one that is not
/// empty and holds neither an ampersand nor an equals sign all of it is the name,
/// and the value is empty.
#[verifier::external_body]
fn first_form_value(text: &[u8]) -> (value: Option<String>)
    ensures
        value.deep_view() == form_value(text@),
        value is None <==> (forall|i: int| 0 <= i < text@.len() ==> text@[i] == 0x26),
        text@.len() > 0 && !text@.contains(0x26) && !text@.contains(0x3d) ==> value.deep_view()
            == Some(Seq::<char>::empty()),
{
    url::form_urlencoded::parse(text).next().map(|(_, value)| value.into_owned())
}

/// The two sides of the first equals sign.
pub open spec fn key_and_value(field: Seq<char>) -> (Seq<char>, Seq<char>) {
    let at = field.index_of_first('=')->0;
    (field.take(at), field.skip(at + 1))
}

/// The fields among these pieces: those with an equals sign in them.
pub open spec fn fields(parts: Seq<Seq<char>>) -> Seq<(Seq<char>, Seq<char>)>
    decreases parts.len(),
{
    if parts.len() == 0 {
        Seq::empty()
    } else if parts.last().contains('=') {
        fields(parts.drop_last()).push(key_and_value(parts.last()))
    } else {
        fields(parts.drop_last())
    }
}

proof fn lemma_cut(field: Seq<char>, head: Seq<char>, tail: Seq<char>)
    requires
        cut_at_first(field, '=', head, tail),
    ensures
        key_and_value(field) == (head, tail),
{
    let at = head.len() as int;
    assert(field[at] == '=');
    assert(field.contains('='));
    field.index_of_first_ensures('=');
    let first = field.index_of_first('=')->0;
    if first < at {
        assert(head[first] == '=');
    }
    assert(field.take(at) =~= head);
    assert(field.skip(at + 1) =~= tail);
}

/// The fields of a fragment, as they stand in it.
pub fn fragment_fields(fragment: &str) -> (found: Vec<(String, String)>)
    ensures
        found.deep_view() == fields(pieces(fragment@, '&')),
{
    let parts = split(fragment, '&');
    let ghost all = parts.deep_view();
    let mut found: Vec<(String, String)> = Vec::new();
    assert(all.take(0) =~= Seq::<Seq<char>>::empty());
    assert(found.deep_view() =~= fields(all.take(0)));
    for i in 0..parts.len()
        invariant
            all == parts.deep_view(),
            found.deep_view() == fields(all.take(i as int)),
    {
        assert(all.take(i + 1).drop_last() =~= all.take(i as int));
        assert(all[i as int] == parts[i as int]@);
        if let Some((key, value)) = split_once(parts[i].as_str(), '=') {
            proof {
                lemma_cut(parts[i as int]@, key@, value@);
            }
            let ghost earlier = found.deep_view();
            let ghost field = (key@, value@);
            found.push((key, value));
            assert(found.deep_view() =~= earlier.push(field));
        }
    }
    assert(all.take(parts@.len() as int) =~= all);
    found
}

/// What a value in a fragment stands for: the value of the first pair in it, read
/// as a form of its own, or else the text itself.
pub open spec fn fragment_value(raw: Seq<char>) -> Seq<char> {
    match form_value(encode_utf8(raw)) {
        Some(value) => value,
        None => raw,
    }
}

/// Reads a value in a fragment. One that holds neither an ampersand nor an equals
/// sign is a name without a value, and reads as the empty text.
pub fn read_value(raw: &str) -> (value: String)
    ensures
        value@ == fragment_value(raw@),
        !raw@.contains('&') && !raw@.contains('=') ==> value@.len() == 0,
{
    let found = first_form_value(raw.as_bytes());
    proof {
        lemma_ascii_byte(raw@, '&');
        lemma_ascii_byte(raw@, '=');
        if raw@.len() == 0 {
            assert(raw@ =~= Seq::<char>::empty());
        }
    }
    match found {
        Some(value) => value,
        None => raw.to_owned(),
    }
}

/// Fields with their values read.
pub open spec fn read_fields(raw: Seq<(Seq<char>, Seq<char>)>) -> Seq<(Seq<char>, Seq<char>)> {
    raw.map_values(|field: (Seq<char>, Seq<char>)| (field.0, fragment_value(field.1)))
}

/// The pairs in a fragment.
pub open spec fn fragment_pairs(fragment: Option<Seq<char>>) -> Seq<(Seq<char>, Seq<char>)> {
    match fragment {
        Some(text) => read_fields(fields(pieces(text, '&'))),
        None => Seq::empty(),
    }
}

/// The pairs in a fragment, with their values read.
fn read_fragment(fragment: &Option<String>) -> (pairs: Vec<(String, String)>)
    ensures
        pairs.deep_view() == fragment_pairs(fragment.deep_view()),
{
    let mut pairs: Vec<(String, String)> = Vec::new();
    if let Some(text) = fragment {
        let raw = fragment_fields(text.as_str());
        let ghost all = read_fields(raw.deep_view());
        assert(pairs.deep_view() =~= all.take(0));
        for i in 0..raw.len()
            invariant
                all == read_fields(raw.deep_view()),
                pairs.deep_view() == all.take(i as int),
        {
            let key = raw[i].0.clone();
            let value = read_value(raw[i].1.as_str());
            let ghost earlier = pairs.deep_view();
            let ghost pair = (key@, value@);
            assert(raw.deep_view()[i as int] == (raw[i as int].0@, raw[i as int].1@));
            assert(all[i as int] == pair);
            pairs.push((key, value));
            assert(pairs.deep_view() =~= earlier.push(pair));
            assert(all.take(i + 1) =~= earlier.push(pair));
        }
        assert(all.take(raw@.len() as int) =~= all);
    } else {
        assert(pairs.deep_view() =~= fragment_pairs(None));
    }
    pairs
}

/// The tokens of a sign-in. The refresh token may be missing, and is then empty.
pub struct SignIn {
    pub access_token: String,
    pub refresh_token: String,
}

/// What the tokens are, if there are any.
pub open spec fn sign_in_view(sign_in: Option<SignIn>) -> Option<(Seq<char>, Seq<char>)> {
    match sign_in {
        Some(tokens) => Some((tokens.access_token@, tokens.refresh_token@)),
        None => None,
    }
}

/// The value of the last pair with this key, or else the empty text.
pub open spec fn last_value(pairs: Seq<(Seq<char>, Seq<char>)>, key: Seq<char>) -> Seq<char>
    decreases pairs.len(),
{
    if pairs.len() == 0 {
        Seq::empty()
    } else if pairs.last().0 == key {
        pairs.last().1
    } else {
        last_value(pairs.drop_last(), key)
    }
}

/// The value of the last pair with this key, or else the empty text.
fn find_last(pairs: &Vec<(String, String)>, key: &str) -> (value: String)
    ensures
        value@ == last_value(pairs.deep_view(), key@),
{
    let ghost all = pairs.deep_view();
    let mut left: usize = pairs.len();
    assert(all.take(left as int) =~= all);
    while left > 0
        invariant
            left <= pairs.len(),
            all == pairs.deep_view(),
            last_value(all.take(left as int), key@) == last_value(all, key@),
        decreases left,
    {
        assert(all.take(left as int).last() == (pairs[left - 1].0@, pairs[left - 1].1@));
        assert(all.take(left as int).drop_last() =~= all.take(left - 1));
        if same(pairs[left - 1].0.as_str(), key) {
            return pairs[left - 1].1.clone();
        }
        left = left - 1;
    }
    String::new()
}

/// The sign-in that an address with this scheme and these pairs stands for: none
/// unless it is one of this app's addresses and holds an access token.
pub open spec fn sign_in_with(
    scheme: Seq<char>,
    pairs: Seq<(Seq<char>, Seq<char>)>,
) -> Option<(Seq<char>, Seq<char>)> {
    let access = last_value(pairs, "access_token"@);
    if scheme != "donna"@ || access.len() == 0 {
        None
    } else {
        Some((access, last_value(pairs, "refresh_token"@)))
    }
}

/// The sign-in that an address with this scheme and these pairs stands for. The
/// pairs are those of the query and, after them, those of the fragment.
pub fn link_tokens(scheme: &str, pairs: &Vec<(String, String)>) -> (sign_in: Option<SignIn>)
    ensures
        sign_in_view(sign_in) == sign_in_with(scheme@, pairs.deep_view()),
{
    if !same(scheme, "donna") {
        return None;
    }
    let access_token = find_last(pairs, "access_token");
    if access_token.as_str().is_empty() {
        return None;
    }
    Some(SignIn { access_token, refresh_token: find_last(pairs, "refresh_token") })
}

/// The sign-in that a text stands for, if it is an address that holds one.
pub open spec fn sign_in_at(url: Seq<char>) -> Option<(Seq<char>, Seq<char>)> {
    match url_parts(url) {
        Some((scheme, query, fragment)) => sign_in_with(scheme, query + fragment_pairs(fragment)),
        None => None,
    }
}

/// The sign-in that a link was opened for, if it is a link of this app and holds
/// one. What was written into the query of the address that a sign-in comes back to
/// is what counts.
pub fn handle_deep_link(url: &str) -> (sign_in: Option<SignIn>)
    ensures
        sign_in_view(sign_in) == sign_in_at(url@),
        forall|pairs: Seq<(Seq<char>, Seq<char>)>|
            url@ == #[trigger] callback_address(pairs) ==> sign_in_view(sign_in) == sign_in_with(
                "donna"@,
                pairs,
            ),
        forall|access: Seq<char>, refresh: Seq<char>|
            access.len() > 0 && url@ == #[trigger] callback_address(
                token_pairs(access, refresh),
            ) ==> sign_in_view(sign_in) == Some((access, refresh)),
{
    proof {
        assert forall|access: Seq<char>, refresh: Seq<char>|
            access.len() > 0 && url@ == #[trigger] callback_address(
                token_pairs(access, refresh),
            ) implies sign_in_with("donna"@, token_pairs(access, refresh)) == Some(
            (access, refresh),
        ) by {
            law_tokens_are_read_back(access, refresh);
        }
    }
    let parts = match parse_url(url) {
        Some(parts) => parts,
        None => {
            return None;
        },
    };
    let mut fragment = read_fragment(&parts.fragment);
    let mut pairs = parts.query;
    let ghost whole = pairs.deep_view() + fragment.deep_view();
    proof {
        assert forall|written: Seq<(Seq<char>, Seq<char>)>|
            url@ == #[trigger] callback_address(written) implies whole == written by {
            assert(fragment.deep_view() =~= Seq::empty());
            assert(whole =~= written);
        }
    }
    pairs.append(&mut fragment);
    assert(pairs.deep_view() =~= whole);
    link_tokens(parts.scheme.as_str(), &pairs)
}

/// The two tokens of a sign-in, as pairs.
pub open spec fn token_pairs(access: Seq<char>, refresh: Seq<char>) -> Seq<
    (Seq<char>, Seq<char>),
> {
    seq![("access_token"@, access), ("refresh_token"@, refresh)]
}

/// Tokens that were written as pairs are read back as they are.
pub proof fn law_tokens_are_read_back(access: Seq<char>, refresh: Seq<char>)
    requires
        access.len() > 0,
    ensures
        sign_in_with("donna"@, token_pairs(access, refresh)) == Some((access, refresh)),
{
    reveal_strlit("access_token");
    reveal_strlit("refresh_token");
    assert("access_token"@.len() != "refresh_token"@.len());
    law_last_pair_counts(token_pairs(access, refresh), "access_token"@, 0);
    law_last_pair_counts(token_pairs(access, refresh), "refresh_token"@, 1);
}

/// Of the pairs with a key the last counts, whatever its value is and whatever pairs
/// with other keys come after it.
pub proof fn law_last_pair_counts(
    pairs: Seq<(Seq<char>, Seq<char>)>,
    key: Seq<char>,
    i: int,
)
    requires
        0 <= i < pairs.len(),
        pairs[i].0 == key,
        forall|j: int| i < j < pairs.len() ==> (#[trigger] pairs[j]).0 != key,
    ensures
        last_value(pairs, key) == pairs[i].1,
    decreases pairs.len(),
{
    if i < pairs.len() - 1 {
        assert(pairs[pairs.len() - 1] == pairs.last());
        law_last_pair_counts(pairs.drop_last(), key, i);
    }
}

/// Without a pair with a key, its value is empty.
pub proof fn law_missing_pair_is_empty(pairs: Seq<(Seq<char>, Seq<char>)>, key: Seq<char>)
    requires
        forall|j: int| 0 <= j < pairs.len() ==> (#[trigger] pairs[j]).0 != key,
    ensures
        last_value(pairs, key).len() == 0,
    decreases pairs.len(),
{
    if pairs.len() > 0 {
        assert(pairs[pairs.len() - 1] == pairs.last());
        law_missing_pair_is_empty(pairs.drop_last(), key);
    }
}

/// A link of this app whose last access token, at `i`, is not empty signs in with that
/// and with its last refresh token, at `j`, or without one where it has none. With an
/// empty one it does not sign in, whatever came before it. A link of another app never
/// does.
pub proof fn law_link_signs_in_with_its_last_tokens(
    scheme: Seq<char>,
    pairs: Seq<(Seq<char>, Seq<char>)>,
    i: int,
    j: Option<int>,
)
    requires
        0 <= i < pairs.len(),
        pairs[i].0 == "access_token"@,
        forall|n: int| i < n < pairs.len() ==> (#[trigger] pairs[n]).0 != "access_token"@,
        match j {
            Some(j) => {
                &&& 0 <= j < pairs.len()
                &&& pairs[j].0 == "refresh_token"@
                &&& forall|n: int|
                    j < n < pairs.len() ==> (#[trigger] pairs[n]).0 != "refresh_token"@
            },
            None => forall|n: int|
                0 <= n < pairs.len() ==> (#[trigger] pairs[n]).0 != "refresh_token"@,
        },
    ensures
        scheme == "donna"@ && pairs[i].1.len() > 0 ==> {
            &&& sign_in_with(scheme, pairs) matches Some((access, refresh))
            &&& access == pairs[i].1
            &&& match j {
                Some(j) => refresh == pairs[j].1,
                None => refresh.len() == 0,
            }
        },
        scheme != "donna"@ || pairs[i].1.len() == 0 ==> sign_in_with(scheme, pairs) is None,
{
    law_last_pair_counts(pairs, "access_token"@, i);
    match j {
        Some(j) => {
            law_last_pair_counts(pairs, "refresh_token"@, j);
        },
        None => {
            law_missing_pair_is_empty(pairs, "refresh_token"@);
        },
    }
}

/// A link without an access token does not sign in.
pub proof fn law_link_needs_an_access_token(
    scheme: Seq<char>,
    pairs: Seq<(Seq<char>, Seq<char>)>,
)
    requires
        forall|n: int| 0 <= n < pairs.len() ==> (#[trigger] pairs[n]).0 != "access_token"@,
    ensures
        sign_in_with(scheme, pairs) is None,
{
    law_missing_pair_is_empty(pairs, "access_token"@);
}

/// What an address says of a token is in its query or its fragment, and the fragment
/// counts where it says anything of it. What is no address says nothing.
pub proof fn law_address_is_read_whole(
    url: Seq<char>,
    scheme: Seq<char>,
    query: Seq<(Seq<char>, Seq<char>)>,
    fragment: Option<Seq<char>>,
)
    ensures
        url_parts(url) is None ==> sign_in_at(url) is None,
        url_parts(url) == Some((scheme, query, fragment)) ==> {
            let hidden = fragment_pairs(fragment);
            let access = if has_key(hidden, "access_token"@) {
                last_value(hidden, "access_token"@)
            } else {
                last_value(query, "access_token"@)
            };
            let refresh = if has_key(hidden, "refresh_token"@) {
                last_value(hidden, "refresh_token"@)
            } else {
                last_value(query, "refresh_token"@)
            };
            sign_in_at(url) == if scheme == "donna"@ && access.len() > 0 {
                Some((access, refresh))
            } else {
                None
            }
        },
{
    let hidden = fragment_pairs(fragment);
    law_fragment_goes_before_query(query, hidden, "access_token"@);
    law_fragment_goes_before_query(query, hidden, "refresh_token"@);
}

/// The pairs of a fragment are those of its parts between ampersands, in their order.
pub proof fn law_fragment_is_read_part_by_part(left: Seq<char>, right: Seq<char>)
    ensures
        fragment_pairs(Some(left + seq!['&'] + right)) == fragment_pairs(Some(left))
            + fragment_pairs(Some(right)),
        fragment_pairs(None).len() == 0,
{
    assert(left + seq!['&'] + right =~= left.push('&') + right);
    law_pieces_of_both(left, right, '&');
    lemma_fields_of_both(pieces(left, '&'), pieces(right, '&'));
    assert(fragment_pairs(Some(left + seq!['&'] + right)) =~= fragment_pairs(Some(left))
        + fragment_pairs(Some(right)));
}

/// A part of a fragment is a pair where it has an equals sign in it: what stands before
/// the first is the key, as it is, and all that stands after it is read as the value.
/// Without one it is no pair.
pub proof fn law_fragment_part_is_a_pair(key: Seq<char>, raw: Seq<char>)
    requires
        !key.contains('&'),
        !key.contains('='),
        !raw.contains('&'),
    ensures
        fragment_pairs(Some(key + seq!['='] + raw)) == seq![(key, fragment_value(raw))],
        fragment_pairs(Some(key)).len() == 0,
{
    let part = key + seq!['='] + raw;
    assert(!part.contains('&')) by {
        if part.contains('&') {
            let i = part.index_of('&');
            if i < key.len() {
                assert(key[i] == '&');
            } else if i > key.len() {
                assert(raw[i - key.len() - 1] == '&');
            }
        }
    }
    law_text_without_separator_is_one_piece(part, '&');
    law_text_without_separator_is_one_piece(key, '&');
    assert(part[key.len() as int] == '=');
    assert(part.contains('='));
    assert(cut_at_first(part, '=', key, raw)) by {
        assert(part =~= key.push('=') + raw);
    }
    lemma_cut(part, key, raw);
    assert(seq![part].drop_last() =~= Seq::<Seq<char>>::empty());
    assert(seq![key].drop_last() =~= Seq::<Seq<char>>::empty());
    assert(seq![part].last() == part);
    assert(seq![key].last() == key);
    assert(fields(Seq::<Seq<char>>::empty()) =~= Seq::empty());
    assert(fields(seq![part]) == fields(seq![part].drop_last()).push(key_and_value(part)));
    assert(fields(seq![part]) =~= seq![(key, raw)]);
    assert(fields(seq![key]) =~= Seq::empty());
    assert(fragment_pairs(Some(part)) =~= seq![(key, fragment_value(raw))]);
}

/// A value in a fragment is the value of the first pair in it, and itself where there
/// is none.
pub proof fn law_fragment_value_is_read_as_a_form(raw: Seq<char>)
    ensures
        form_value(encode_utf8(raw)) matches Some(value) ==> fragment_value(raw) == value,
        form_value(encode_utf8(raw)) is None ==> fragment_value(raw) == raw,
{
}

proof fn lemma_fields_of_both(left: Seq<Seq<char>>, right: Seq<Seq<char>>)
    ensures
        fields(left + right) == fields(left) + fields(right),
    decreases right.len(),
{
    if right.len() == 0 {
        assert(left + right =~= left);
        assert(fields(left) + fields(right) =~= fields(left));
    } else {
        assert((left + right).drop_last() =~= left + right.drop_last());
        assert((left + right).last() == right.last());
        lemma_fields_of_both(left, right.drop_last());
        assert(fields(left + right) =~= fields(left) + fields(right));
    }
}

/// The login page is told, as a form, that it is for this app, which provider to sign
/// in with and where to come back to, whatever the provider is called.
pub proof fn law_login_page_is_told_the_provider(web_base: Seq<char>, provider: Seq<char>)
    ensures
        login_address(web_base, provider) == web_base + "/login?"@ + form_query(
            seq![
                ("desktop"@, "1"@),
                ("provider"@, provider),
                ("redirect_to"@, "donna://auth/callback"@),
            ],
        ),
{
    reveal_strlit("desktop");
    reveal_strlit("1");
    reveal_strlit("provider");
    reveal_strlit("redirect_to");
    reveal_strlit("/login?");
    reveal_strlit("/login?desktop=1&provider=");
    reveal_strlit("&redirect_to=");
    lemma_plain_value("desktop"@);
    lemma_plain_value("1"@);
    lemma_plain_value("provider"@);
    lemma_plain_value("redirect_to"@);
    let third = seq![("redirect_to"@, "donna://auth/callback"@)];
    let second = seq![("provider"@, provider), ("redirect_to"@, "donna://auth/callback"@)];
    let all = seq![
        ("desktop"@, "1"@),
        ("provider"@, provider),
        ("redirect_to"@, "donna://auth/callback"@),
    ];
    assert(all.drop_first() =~= second);
    assert(second.drop_first() =~= third);
    assert(form_query(third) == form_pair(third[0]));
    assert(form_query(second) == form_pair(second[0]) + seq!['&'] + form_query(third));
    assert(form_query(all) == form_pair(all[0]) + seq!['&'] + form_query(second));
    assert(login_address(web_base, provider) =~= web_base + "/login?"@ + form_query(all));
}

proof fn lemma_plain_value(text: Seq<char>)
    requires
        forall|i: int|
            0 <= i < text.len() ==> 'a' <= #[trigger] text[i] <= 'z' || '0' <= text[i] <= '9'
                || text[i] == '_',
    ensures
        parameter_value(text) == text,
    decreases text.len(),
{
    if text.len() > 0 {
        let c = text[0];
        let v = c as u32;
        let rest = text.drop_first();
        assert forall|i: int| 0 <= i < rest.len() implies 'a' <= #[trigger] rest[i] <= 'z' || '0'
            <= rest[i] <= '9' || rest[i] == '_' by {
            assert(rest[i] == text[i + 1]);
        }
        lemma_plain_value(rest);
        assert(v <= 0x7f ==> (v & 0x7f) as u8 == v) by (bit_vector);
        let head = encode_scalar(v);
        assert(head =~= seq![c as u8]);
        let bytes = encode_utf8(text);
        assert(bytes.first() == c as u8);
        assert(bytes.drop_first() =~= encode_utf8(rest));
        assert(form_byte(c as u8) =~= seq![c]);
        assert(parameter_value(text) =~= seq![c] + rest);
        assert(text =~= seq![c] + rest);
    } else {
        assert(parameter_value(text) =~= text);
    }
}

/// Whether one of the pairs has this key.
pub open spec fn has_key(pairs: Seq<(Seq<char>, Seq<char>)>, key: Seq<char>) -> bool {
    exists|i: int| 0 <= i < pairs.len() && (#[trigger] pairs[i]).0 == key
}

/// What a fragment says of a token counts before what the query says of it.
pub proof fn law_fragment_goes_before_query(
    query: Seq<(Seq<char>, Seq<char>)>,
    fragment: Seq<(Seq<char>, Seq<char>)>,
    key: Seq<char>,
)
    ensures
        last_value(query + fragment, key) == if has_key(fragment, key) {
            last_value(fragment, key)
        } else {
            last_value(query, key)
        },
    decreases fragment.len(),
{
    if fragment.len() == 0 {
        assert(query + fragment =~= query);
    } else {
        let earlier = fragment.drop_last();
        assert((query + fragment).drop_last() =~= query + earlier);
        assert((query + fragment).last() == fragment.last());
        assert(fragment[fragment.len() - 1] == fragment.last());
        law_fragment_goes_before_query(query, earlier, key);
        if fragment.last().0 != key {
            assert(has_key(fragment, key) == has_key(earlier, key)) by {
                if has_key(fragment, key) {
                    let i = choose|i: int|
                        0 <= i < fragment.len() && (#[trigger] fragment[i]).0 == key;
                    assert(earlier[i].0 == key);
                }
                if has_key(earlier, key) {
                    let i = choose|i: int| 0 <= i < earlier.len() && (#[trigger] earlier[i]).0 == key;
                    assert(fragment[i].0 == key);
                }
            }
        }
    }
}

/// A link signs in only where it is one of this app's own, and never with an empty
/// access token.
pub proof fn law_link_sign_in_is_usable(url: Seq<char>)
    ensures
        sign_in_at(url) matches Some((access, _)) ==> {
            &&& access.len() > 0
            &&& url_parts(url) matches Some((scheme, _, _)) && scheme == "donna"@
        },
{
}

} // verus!
