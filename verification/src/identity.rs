//! Who this Mac is: its device id, its name, its architecture, and the secret and
//! the socket of one launch.

use rand::RngCore;
use vstd::prelude::*;
use vstd::string::*;
use vstd::utf8::*;

use crate::paths::{join_bytes, joined_bytes};
use crate::text::{
    decimal, decimal_text, decimal_worth, digit_worth, hex, hex_digit, hex_text, is_white_space,
    law_decimal_is_worth_its_value, law_hex_is_worth_its_bytes, law_trimming_leaves_the_rest, same,
    trim, trimmed, utf8_text,
};

verus! {

/// Whether `c` is a hexadecimal digit in lower case.
pub open spec fn is_hex_digit(c: char) -> bool {
    '0' <= c <= '9' || 'a' <= c <= 'f'
}

/// The form of a random (version 4) UUID: 36 characters, lower case, hyphenated.
pub open spec fn is_uuid_v4(text: Seq<char>) -> bool {
    &&& text.len() == 36
    &&& forall|i: int|
        0 <= i < 36 ==> if i == 8 || i == 13 || i == 18 || i == 23 {
            #[trigger] text[i] == '-'
        } else {
            is_hex_digit(text[i])
        }
    &&& text[14] == '4'
    &&& text[19] == '8' || text[19] == '9' || text[19] == 'a' || text[19] == 'b'
}

/// `Uuid::new_v4`, as text: a fresh random UUID in its hyphenated form, in lower
/// case. Which one it is depends on chance. It panics where the operating system
/// has no random bytes to give.
#[verifier::external_body]
pub(crate) fn new_uuid() -> (id: String)
    ensures
        is_uuid_v4(id@),
{
    uuid::Uuid::new_v4().to_string()
}

/// `RngCore::fill_bytes` of `rand::thread_rng`: random bytes, of which nothing more
/// can be said. It panics where the operating system has none to give.
#[verifier::external_body]
fn random_bytes() -> (bytes: [u8; 32]) {
    let mut bytes = [0u8; 32];
    rand::thread_rng().fill_bytes(&mut bytes);
    bytes
}

/// A secret as it is handed to the worker: the hexadecimal digits of 32 bytes.
pub open spec fn is_secret(text: Seq<char>) -> bool {
    exists|bytes: Seq<u8>| bytes.len() == 32 && text == #[trigger] hex(bytes)
}

/// The secret made of the given bytes.
pub fn secret_of(bytes: &[u8; 32]) -> (secret: String)
    ensures
        secret@ == hex(bytes@),
        is_secret(secret@),
{
    hex_text(bytes)
}

/// The secret of one launch, which the worker is to be shown on each connection.
pub fn random_secret() -> (secret: String)
    ensures
        is_secret(secret@),
{
    secret_of(&random_bytes())
}

/// A secret is 64 lower-case hexadecimal digits.
pub proof fn law_secret_form(secret: Seq<char>)
    requires
        is_secret(secret),
    ensures
        secret.len() == 64,
        forall|i: int| 0 <= i < 64 ==> is_hex_digit(#[trigger] secret[i]),
{
    let bytes = choose|bytes: Seq<u8>| bytes.len() == 32 && secret == #[trigger] hex(bytes);
    lemma_hex_form(bytes);
}

/// Different bytes make different secrets.
pub proof fn law_secrets_differ(left: Seq<u8>, right: Seq<u8>)
    requires
        left.len() == 32,
        right.len() == 32,
        left != right,
    ensures
        hex(left) != hex(right),
{
    if hex(left) == hex(right) {
        lemma_hex_injective(left, right);
    }
}

proof fn lemma_hex_form(bytes: Seq<u8>)
    ensures
        hex(bytes).len() == 2 * bytes.len(),
        forall|i: int| 0 <= i < hex(bytes).len() ==> is_hex_digit(#[trigger] hex(bytes)[i]),
    decreases bytes.len(),
{
    if bytes.len() > 0 {
        lemma_hex_form(bytes.drop_last());
    }
}

proof fn lemma_hex_injective(left: Seq<u8>, right: Seq<u8>)
    requires
        hex(left) == hex(right),
    ensures
        left == right,
    decreases left.len(),
{
    lemma_hex_form(left);
    lemma_hex_form(right);
    if left.len() > 0 {
        let n = hex(left).len() as int;
        assert(hex(left).take(n - 2) =~= hex(left.drop_last()));
        assert(hex(right).take(n - 2) =~= hex(right.drop_last()));
        lemma_hex_injective(left.drop_last(), right.drop_last());
        assert(hex(left)[n - 2] == hex_digit(left.last() as int / 16));
        assert(hex(left)[n - 1] == hex_digit(left.last() as int % 16));
        assert(hex(right)[n - 2] == hex_digit(right.last() as int / 16));
        assert(hex(right)[n - 1] == hex_digit(right.last() as int % 16));
        assert(left.last() == right.last());
        assert(left =~= left.drop_last().push(left.last()));
        assert(right =~= right.drop_last().push(right.last()));
    } else {
        assert(left =~= right);
    }
}

/// The device id, and whether it has yet to be written to its file.
pub struct DeviceId {
    pub id: String,
    pub store: bool,
}

/// The device id in a stored text, if it holds one.
pub open spec fn stored_id(existing: Option<Seq<char>>) -> Option<Seq<char>> {
    match existing {
        Some(text) if trimmed(text).len() > 0 => Some(trimmed(text)),
        _ => None,
    }
}

/// The device id that was stored, if there is one.
pub fn kept_device_id(existing: &Option<String>) -> (id: Option<String>)
    ensures
        id.deep_view() == stored_id(existing.deep_view()),
{
    if let Some(text) = existing {
        let rest = trim(text.as_str());
        if !rest.is_empty() {
            return Some(rest.to_owned());
        }
    }
    None
}

/// The id by which this Mac is known, and whether it has yet to be stored. `fresh` is
/// the id that is made up where there is none.
pub open spec fn device_of(existing: Option<Seq<char>>, fresh: Seq<char>) -> (Seq<char>, bool) {
    match stored_id(existing) {
        Some(id) => (id, false),
        None => (fresh, true),
    }
}

/// The id by which this Mac is known: the stored one, or else a fresh one, which
/// is then to be stored. `existing` is what the file holds, if it can be read.
pub fn public_device_id(existing: &Option<String>) -> (device: DeviceId)
    ensures
        device.store == (stored_id(existing.deep_view()) is None),
        stored_id(existing.deep_view()) matches Some(id) ==> device.id@ == id,
        device.store ==> is_uuid_v4(device.id@),
        (device.id@, device.store) == device_of(existing.deep_view(), device.id@),
{
    match kept_device_id(existing) {
        Some(id) => DeviceId { id, store: false },
        None => DeviceId { id: new_uuid(), store: true },
    }
}

/// A fresh id, once stored, is the id of every later launch.
pub proof fn law_device_id_is_kept(id: Seq<char>)
    requires
        is_uuid_v4(id),
    ensures
        stored_id(Some(id)) == Some(id),
{
    assert(id.first() == id[0] && id.last() == id[35]);
}

/// An id that was found once is found again: what it was cut from and the id
/// itself give the same.
pub proof fn law_stored_id_is_stable(text: Seq<char>)
    ensures
        stored_id(Some(text)) matches Some(id) ==> stored_id(Some(id)) == Some(id),
{
    lemma_trimmed_ends(text);
}

proof fn lemma_trimmed_ends(text: Seq<char>)
    ensures
        trimmed(trimmed(text)) == trimmed(text),
{
    let start = crate::text::trimmed_start(text);
    lemma_trimmed_start(text);
    lemma_trimmed_end(start);
}

proof fn lemma_trimmed_start(text: Seq<char>)
    ensures
        ({
            let rest = crate::text::trimmed_start(text);
            rest.len() > 0 ==> !crate::text::is_white_space(rest.first())
        }),
    decreases text.len(),
{
    if text.len() > 0 {
        lemma_trimmed_start(text.drop_first());
    }
}

proof fn lemma_trimmed_end(text: Seq<char>)
    ensures
        ({
            let rest = crate::text::trimmed_end(text);
            &&& rest.len() > 0 ==> !crate::text::is_white_space(rest.last()) && rest.first()
                == text.first()
        }),
    decreases text.len(),
{
    if text.len() > 0 {
        lemma_trimmed_end(text.drop_last());
    }
}

/// The name of a Mac whose name command printed `output`, or could not be run.
pub open spec fn device_name(output: Option<Seq<u8>>) -> Seq<char> {
    match output {
        Some(bytes) if valid_utf8(bytes) && trimmed(decode_utf8(bytes)).len() > 0 => trimmed(
            decode_utf8(bytes),
        ),
        _ => "Mac"@,
    }
}

/// The name of this Mac: what its name command printed, or "Mac" where that is
/// blank, is no text, or was not to be had.
pub fn hostname(output: Option<Vec<u8>>) -> (name: String)
    ensures
        name@ == device_name(output.deep_view()),
{
    broadcast use vstd::utf8::encode_utf8_decode_utf8;

    if let Some(bytes) = output {
        assert(bytes.deep_view() =~= bytes@);
        if let Some(text) = utf8_text(bytes) {
            let name = trim(text.as_str());
            if !name.is_empty() {
                return name.to_owned();
            }
        }
    }
    "Mac".to_owned()
}

/// The architecture in the name of a worker built for this Mac.
pub open spec fn triple_arch(arch: Seq<char>) -> Seq<char> {
    if arch == "x86_64"@ {
        "x86_64"@
    } else {
        "aarch64"@
    }
}

/// The architecture in the name of a worker built for a Mac of architecture `arch`.
pub fn current_triple_arch(arch: &str) -> (triple: &'static str)
    ensures
        triple@ == triple_arch(arch@),
{
    if same(arch, "x86_64") {
        "x86_64"
    } else {
        "aarch64"
    }
}

/// The file name of the control socket of the launch at `nonce`.
pub open spec fn socket_file(nonce: nat) -> Seq<char> {
    "donna-desktop-"@ + decimal(nonce) + ".sock"@
}

/// The file name of the control socket of the launch at `nonce`, in milliseconds
/// since the Unix epoch.
pub fn socket_name(nonce: u128) -> (name: String)
    ensures
        name@ == socket_file(nonce as nat),
{
    let mut name = "donna-desktop-".to_owned();
    name.append(decimal_text(nonce).as_str());
    name.append(".sock");
    name
}

/// The path of the control socket of the launch at `nonce`, in the directory for
/// temporary files.
pub fn socket_path(temp_dir: &[u8], nonce: u128) -> (path: Vec<u8>)
    ensures
        path@ == joined_bytes(temp_dir@, encode_utf8(socket_file(nonce as nat))),
{
    join_bytes(temp_dir, socket_name(nonce).as_str().as_bytes())
}

/// Launches in different milliseconds have different control sockets.
pub proof fn law_sockets_differ(left: nat, right: nat)
    requires
        left != right,
    ensures
        socket_file(left) != socket_file(right),
{
    let head = "donna-desktop-"@;
    let tail = ".sock"@;
    let l = decimal(left);
    let r = decimal(right);
    if socket_file(left) == socket_file(right) {
        assert(socket_file(left).len() == head.len() + l.len() + tail.len());
        assert(socket_file(right).len() == head.len() + r.len() + tail.len());
        assert((head + l + tail).subrange(head.len() as int, (head.len() + l.len()) as int) =~= l);
        assert((head + r + tail).subrange(head.len() as int, (head.len() + r.len()) as int) =~= r);
        lemma_decimal_injective(left, right);
    }
}

proof fn lemma_decimal_injective(left: nat, right: nat)
    requires
        decimal(left) == decimal(right),
    ensures
        left == right,
    decreases left,
{
    lemma_decimal_length(left);
    lemma_decimal_length(right);
    assert(decimal(left).last() == hex_digit((left % 10) as int));
    assert(decimal(right).last() == hex_digit((right % 10) as int));
    assert(left % 10 == right % 10);
    if left >= 10 {
        assert(decimal(left).drop_last() =~= decimal(left / 10));
        assert(decimal(right).drop_last() =~= decimal(right / 10));
        lemma_decimal_injective(left / 10, right / 10);
    }
}

proof fn lemma_decimal_length(value: nat)
    ensures
        decimal(value).len() >= 1,
        decimal(value).len() == 1 <==> value < 10,
    decreases value,
{
    if value >= 10 {
        lemma_decimal_length(value / 10);
    }
}

/// The device id is what the file holds between white space, whole, whatever it looks
/// like.
pub proof fn law_stored_id_is_read_whole(lead: Seq<char>, id: Seq<char>, trail: Seq<char>)
    requires
        forall|i: int| 0 <= i < lead.len() ==> is_white_space(#[trigger] lead[i]),
        forall|i: int| 0 <= i < trail.len() ==> is_white_space(#[trigger] trail[i]),
        id.len() > 0 ==> !is_white_space(id.first()) && !is_white_space(id.last()),
    ensures
        id.len() > 0 ==> stored_id(Some(lead + id + trail)) == Some(id),
        id.len() == 0 ==> stored_id(Some(lead + id + trail)) is None,
        stored_id(None) is None,
{
    law_trimming_leaves_the_rest(lead, id, trail);
}

/// The Mac's name is what its name command printed between white space, whole, unless
/// that is nothing.
pub proof fn law_device_name_is_read_whole(lead: Seq<char>, name: Seq<char>, trail: Seq<char>)
    requires
        forall|i: int| 0 <= i < lead.len() ==> is_white_space(#[trigger] lead[i]),
        forall|i: int| 0 <= i < trail.len() ==> is_white_space(#[trigger] trail[i]),
        name.len() > 0 ==> !is_white_space(name.first()) && !is_white_space(name.last()),
    ensures
        name.len() > 0 ==> device_name(Some(encode_utf8(lead + name + trail))) == name,
        name.len() == 0 ==> device_name(Some(encode_utf8(lead + name + trail))) == "Mac"@,
{
    law_trimming_leaves_the_rest(lead, name, trail);
    encode_utf8_valid_utf8(lead + name + trail);
    encode_utf8_decode_utf8(lead + name + trail);
}

/// Where the name command could not be run, or printed no text, the Mac has a name all
/// the same.
pub proof fn law_device_has_a_name(output: Seq<u8>)
    requires
        !valid_utf8(output),
    ensures
        device_name(Some(output)) == "Mac"@,
        device_name(None) == "Mac"@,
{
}

/// Only an Intel Mac has a worker of its own. Every other has the same.
pub proof fn law_workers_are_of_two_kinds(arch: Seq<char>)
    ensures
        triple_arch("x86_64"@) == "x86_64"@,
        arch != "x86_64"@ ==> triple_arch(arch) == "aarch64"@,
{
}

/// The socket's name says which launch it is of, whatever the launch.
pub proof fn law_socket_is_named_after_its_launch(nonce: nat)
    ensures
        ({
            let name = socket_file(nonce);
            let number = name.subrange(14, name.len() - 5);
            &&& name.len() >= 20
            &&& name.take(14) == "donna-desktop-"@
            &&& name.skip(name.len() - 5) == ".sock"@
            &&& decimal_worth(number) == nonce
            &&& number.len() > 1 ==> number.first() != '0'
        }),
{
    reveal_strlit("donna-desktop-");
    reveal_strlit(".sock");
    law_decimal_is_worth_its_value(nonce);
    let name = socket_file(nonce);
    assert(name.subrange(14, name.len() - 5) =~= decimal(nonce));
    assert(name.take(14) =~= "donna-desktop-"@);
    assert(name.skip(name.len() - 5) =~= ".sock"@);
}

/// A secret is made of all of its bytes, in their order.
pub proof fn law_secret_is_made_of_its_bytes(bytes: Seq<u8>, i: int)
    requires
        0 <= i < bytes.len(),
    ensures
        16 * digit_worth(hex(bytes)[2 * i]) + digit_worth(hex(bytes)[2 * i + 1]) == bytes[i],
{
    law_hex_is_worth_its_bytes(bytes, i);
}

/// A Mac that has an id keeps it, whatever it looks like, and its file is left alone.
/// Where the file is blank, or cannot be read, a fresh id is taken and is to be stored.
/// A fresh id that was stored is the Mac's id from then on.
pub proof fn law_mac_keeps_its_id(
    lead: Seq<char>,
    id: Seq<char>,
    trail: Seq<char>,
    fresh: Seq<char>,
    other: Seq<char>,
)
    requires
        forall|i: int| 0 <= i < lead.len() ==> is_white_space(#[trigger] lead[i]),
        forall|i: int| 0 <= i < trail.len() ==> is_white_space(#[trigger] trail[i]),
        id.len() > 0 ==> !is_white_space(id.first()) && !is_white_space(id.last()),
        is_uuid_v4(fresh),
    ensures
        id.len() > 0 ==> device_of(Some(lead + id + trail), fresh) == (id, false),
        id.len() == 0 ==> device_of(Some(lead + id + trail), fresh) == (fresh, true),
        device_of(None, fresh) == (fresh, true),
        device_of(Some(device_of(None, fresh).0), other) == (fresh, false),
{
    law_stored_id_is_read_whole(lead, id, trail);
    law_device_id_is_kept(fresh);
}

} // verus!
