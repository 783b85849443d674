//! Starting a sign-in: the address of the login page.

use vstd::prelude::*;
use vstd::string::*;
use vstd::utf8::*;

verus! {

/// Where the login page sends the browser back to.
pub const REDIRECT: &'static str = "donna://auth/callback";

/// Whether form encoding leaves the byte as it is.
pub open spec fn is_unreserved(byte: u8) -> bool {
    ||| 0x30 <= byte <= 0x39
    ||| 0x41 <= byte <= 0x5a
    ||| 0x61 <= byte <= 0x7a
    ||| byte == 0x2a
    ||| byte == 0x2d
    ||| byte == 0x2e
    ||| byte == 0x5f
}

/// The hexadecimal digit of `value`, in upper case.
pub open spec fn upper_hex_digit(value: int) -> char {
    seq!['0', '1', '2', '3', '4', '5', '6', '7', '8', '9', 'A', 'B', 'C', 'D', 'E', 'F'][value]
}

/// One byte in form encoding: itself, `+` for a space, or else `%` and two digits.
pub open spec fn form_byte(byte: u8) -> Seq<char> {
    if is_unreserved(byte) {
        seq![byte as char]
    } else if byte == 0x20 {
        seq!['+']
    } else {
        seq!['%', upper_hex_digit(byte as int / 16), upper_hex_digit(byte as int % 16)]
    }
}

/// Bytes in form encoding (`application/x-www-form-urlencoded`).
pub open spec fn form_encoded(bytes: Seq<u8>) -> Seq<char>
    decreases bytes.len(),
{
    if bytes.len() == 0 {
        Seq::empty()
    } else {
        form_byte(bytes.first()) + form_encoded(bytes.drop_first())
    }
}

/// `url::form_urlencoded::byte_serialize`, its slices put together: each byte in
/// form encoding.
#[verifier::external_body]
fn byte_serialize(bytes: &[u8]) -> (text: String)
    ensures
        text@ == form_encoded(bytes@),
{
    url::form_urlencoded::byte_serialize(bytes).collect()
}

/// A text as the value of a parameter in an address.
pub open spec fn parameter_value(raw: Seq<char>) -> Seq<char> {
    form_encoded(encode_utf8(raw))
}

/// Writes a text as the value of a parameter in an address.
pub fn urlencoding_lite(raw: &str) -> (text: String)
    ensures
        text@ == parameter_value(raw@),
{
    byte_serialize(raw.as_bytes())
}

/// The address of the login page for a provider, which is told to come back to
/// this app.
pub open spec fn login_address(web_base: Seq<char>, provider: Seq<char>) -> Seq<char> {
    web_base + "/login?desktop=1&provider="@ + parameter_value(provider) + "&redirect_to="@
        + parameter_value(REDIRECT@)
}

/// The address to open in the browser to sign in with `provider`.
pub fn auth_start(web_base: &str, provider: &str) -> (address: String)
    ensures
        address@ == login_address(web_base@, provider@),
{
    let mut address = web_base.to_owned();
    address.append("/login?desktop=1&provider=");
    address.append(urlencoding_lite(provider).as_str());
    address.append("&redirect_to=");
    address.append(urlencoding_lite(REDIRECT).as_str());
    address
}

/// Whether `c` is a letter, a digit or one of `* - . _ + %`.
pub open spec fn is_form_character(c: char) -> bool {
    ||| '0' <= c <= '9'
    ||| 'A' <= c <= 'Z'
    ||| 'a' <= c <= 'z'
    ||| c == '*' || c == '-' || c == '.' || c == '_' || c == '+' || c == '%'
}

/// A parameter value cannot end its parameter or begin another: all it is made of
/// is letters, digits and `* - . _ + %`.
pub proof fn law_parameter_value_is_contained(raw: Seq<char>)
    ensures
        forall|i: int|
            0 <= i < parameter_value(raw).len() ==> is_form_character(#[trigger] parameter_value(raw)[i]),
{
    lemma_form_characters(encode_utf8(raw));
}

/// Different texts are different parameter values.
pub proof fn law_parameter_values_differ(left: Seq<char>, right: Seq<char>)
    requires
        left != right,
    ensures
        parameter_value(left) != parameter_value(right),
{
    lemma_form_decoded(encode_utf8(left));
    lemma_form_decoded(encode_utf8(right));
    encode_utf8_decode_utf8(left);
    encode_utf8_decode_utf8(right);
}

/// Different providers have different login pages.
pub proof fn law_login_addresses_differ(web_base: Seq<char>, left: Seq<char>, right: Seq<char>)
    requires
        left != right,
    ensures
        login_address(web_base, left) != login_address(web_base, right),
{
    law_parameter_values_differ(left, right);
    let head = web_base + "/login?desktop=1&provider="@;
    let tail = "&redirect_to="@ + parameter_value(REDIRECT@);
    let l = parameter_value(left);
    let r = parameter_value(right);
    assert(login_address(web_base, left) =~= head + l + tail);
    assert(login_address(web_base, right) =~= head + r + tail);
    if login_address(web_base, left) == login_address(web_base, right) {
        assert(l.len() == r.len());
        assert((head + l + tail).subrange(head.len() as int, (head.len() + l.len()) as int) =~= l);
        assert((head + r + tail).subrange(head.len() as int, (head.len() + r.len()) as int) =~= r);
    }
}

proof fn lemma_form_characters(bytes: Seq<u8>)
    ensures
        forall|i: int|
            0 <= i < form_encoded(bytes).len() ==> is_form_character(#[trigger] form_encoded(bytes)[i]),
    decreases bytes.len(),
{
    if bytes.len() > 0 {
        lemma_form_characters(bytes.drop_first());
        let head = form_byte(bytes.first());
        let rest = form_encoded(bytes.drop_first());
        assert forall|i: int| 0 <= i < form_encoded(bytes).len() implies is_form_character(
            #[trigger] form_encoded(bytes)[i],
        ) by {
            if i >= head.len() {
                assert(form_encoded(bytes)[i] == rest[i - head.len()]);
            }
        }
    }
}

/// A text is read back from the parameter value that it was written as, whatever it is.
pub proof fn law_parameter_value_is_read_back(raw: Seq<char>)
    ensures
        form_decoded(parameter_value(raw)) == encode_utf8(raw),
{
    lemma_form_decoded(encode_utf8(raw));
}

/// The value of a hexadecimal digit in upper case.
pub open spec fn digit_value(c: char) -> int {
    if c <= '9' {
        c as int - '0' as int
    } else {
        c as int - 'A' as int + 10
    }
}

/// The bytes that a text in form encoding stands for.
pub open spec fn form_decoded(text: Seq<char>) -> Seq<u8>
    decreases text.len(),
{
    if text.len() == 0 {
        Seq::empty()
    } else if text.first() == '%' && text.len() >= 3 {
        seq![(16 * digit_value(text[1]) + digit_value(text[2])) as u8] + form_decoded(text.skip(3))
    } else if text.first() == '+' {
        seq![0x20u8] + form_decoded(text.drop_first())
    } else {
        seq![text.first() as u8] + form_decoded(text.drop_first())
    }
}

proof fn lemma_form_decoded(bytes: Seq<u8>)
    ensures
        form_decoded(form_encoded(bytes)) == bytes,
    decreases bytes.len(),
{
    if bytes.len() > 0 {
        let byte = bytes.first();
        let head = form_byte(byte);
        let rest = form_encoded(bytes.drop_first());
        let text = form_encoded(bytes);
        lemma_form_decoded(bytes.drop_first());
        assert(text.skip(head.len() as int) =~= rest);
        assert(text.first() == head.first());
        if !is_unreserved(byte) && byte != 0x20 {
            assert(text[1] == head[1] && text[2] == head[2]);
            assert(16 * digit_value(head[1]) + digit_value(head[2]) == byte);
        } else {
            assert(text.drop_first() =~= rest);
        }
        assert(form_decoded(text) =~= seq![byte] + bytes.drop_first());
        assert(bytes =~= seq![byte] + bytes.drop_first());
    }
}

} // verus!
