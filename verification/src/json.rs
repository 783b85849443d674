//! JSON: the text of what is sent, and reading what comes back.

use vstd::prelude::*;
use vstd::string::*;

use crate::text::hex_digit;

verus! {

/// A JSON value, as far as this app sends them.
pub enum Json {
    Text(Seq<char>),
    List(Seq<Json>),
    Object(Seq<(Seq<char>, Json)>),
}

/// One character inside a JSON string.
pub open spec fn json_char(c: char) -> Seq<char> {
    if c == '"' {
        seq!['\\', '"']
    } else if c == '\\' {
        seq!['\\', '\\']
    } else if c as int == 0x8 {
        seq!['\\', 'b']
    } else if c as int == 0x9 {
        seq!['\\', 't']
    } else if c as int == 0xa {
        seq!['\\', 'n']
    } else if c as int == 0xc {
        seq!['\\', 'f']
    } else if c as int == 0xd {
        seq!['\\', 'r']
    } else if (c as int) < 0x20 {
        seq!['\\', 'u', '0', '0', hex_digit(c as int / 16), hex_digit(c as int % 16)]
    } else {
        seq![c]
    }
}

/// A text inside a JSON string.
pub open spec fn json_content(text: Seq<char>) -> Seq<char>
    decreases text.len(),
{
    if text.len() == 0 {
        Seq::empty()
    } else {
        json_char(text.first()) + json_content(text.drop_first())
    }
}

/// A text as a JSON string.
pub open spec fn json_string(text: Seq<char>) -> Seq<char> {
    seq!['"'] + json_content(text) + seq!['"']
}

/// A JSON value, written without spaces.
pub open spec fn json_text(value: Json) -> Seq<char>
    decreases value,
{
    match value {
        Json::Text(text) => json_string(text),
        Json::List(items) => seq!['['] + items_text(items) + seq![']'],
        Json::Object(members) => seq!['{'] + members_text(members) + seq!['}'],
    }
}

/// The items of a list, with commas between them.
pub open spec fn items_text(items: Seq<Json>) -> Seq<char>
    decreases items,
{
    if items.len() == 0 {
        Seq::empty()
    } else if items.len() == 1 {
        json_text(items[0])
    } else {
        json_text(items[0]) + seq![','] + items_text(items.subrange(1, items.len() as int))
    }
}

/// The members of an object, with commas between them.
pub open spec fn members_text(members: Seq<(Seq<char>, Json)>) -> Seq<char>
    decreases members,
{
    if members.len() == 0 {
        Seq::empty()
    } else if members.len() == 1 {
        json_string(members[0].0) + seq![':'] + json_text(members[0].1)
    } else {
        json_string(members[0].0) + seq![':'] + json_text(members[0].1) + seq![',']
            + members_text(members.subrange(1, members.len() as int))
    }
}

/// `serde_json::Value`'s `Display`, on a string: a JSON string in quotes, in which
/// quotes, backslashes and control characters are escaped and all else stands as it
/// is.
#[verifier::external_body]
pub(crate) fn string_literal(text: &str) -> (literal: String)
    ensures
        literal@ == json_string(text@),
{
    serde_json::Value::from(text).to_string()
}

/// Writes one member of an object.
pub(crate) fn member(key: &str, value: &str, Ghost(model): Ghost<Json>) -> (text: String)
    requires
        value@ == json_text(model),
    ensures
        text@ == members_text(seq![(key@, model)]),
{
    proof {
        reveal_strlit(":");
    }
    let mut text = string_literal(key);
    text.append(":");
    text.append(value);
    assert(text@ =~= members_text(seq![(key@, model)]));
    text
}

/// Writes one more member before others.
pub(crate) fn member_before(
    key: &str,
    value: &str,
    Ghost(model): Ghost<Json>,
    others: &str,
    Ghost(models): Ghost<Seq<(Seq<char>, Json)>>,
) -> (text: String)
    requires
        value@ == json_text(model),
        others@ == members_text(models),
        models.len() > 0,
    ensures
        text@ == members_text(seq![(key@, model)] + models),
{
    proof {
        reveal_strlit(":");
        reveal_strlit(",");
    }
    let mut text = string_literal(key);
    text.append(":");
    text.append(value);
    text.append(",");
    text.append(others);
    proof {
        let all = seq![(key@, model)] + models;
        assert(all.subrange(1, all.len() as int) =~= models);
        assert(text@ =~= members_text(all));
    }
    text
}

/// Writes the object that has these members.
pub(crate) fn object(members: &str, Ghost(models): Ghost<Seq<(Seq<char>, Json)>>) -> (text: String)
    requires
        members@ == members_text(models),
    ensures
        text@ == json_text(Json::Object(models)),
{
    proof {
        reveal_strlit("{");
        reveal_strlit("}");
    }
    let mut text = "{".to_owned();
    text.append(members);
    text.append("}");
    assert(text@ =~= json_text(Json::Object(models)));
    text
}

/// Whether a document is JSON.
pub uninterp spec fn json_valid(document: Seq<u8>) -> bool;

/// The string at a JSON Pointer in a document. There is none where the document is
/// no JSON, nothing is there, or what is there is no string.
pub uninterp spec fn json_text_at(document: Seq<u8>, pointer: Seq<char>) -> Option<Seq<char>>;

/// The boolean at a JSON Pointer in a document. There is none where the document is
/// no JSON, nothing is there, or what is there is no boolean.
pub uninterp spec fn json_flag_at(document: Seq<u8>, pointer: Seq<char>) -> Option<bool>;

/// `serde_json::from_slice`: whether a document can be read as a JSON value.
#[verifier::external_body]
pub(crate) fn is_json(document: &[u8]) -> (valid: bool)
    ensures
        valid == json_valid(document@),
{
    serde_json::from_slice::<serde_json::Value>(document).is_ok()
}

/// `serde_json::from_slice`, `Value::pointer` and `Value::as_str`: the string at a
/// pointer. None is found in what is not JSON.
#[verifier::external_body]
pub(crate) fn text_at(document: &[u8], pointer: &str) -> (found: Option<String>)
    ensures
        found.deep_view() == json_text_at(document@, pointer@),
{
    let value: serde_json::Value = serde_json::from_slice(document).ok()?;
    value.pointer(pointer)?.as_str().map(str::to_owned)
}

/// `serde_json::from_slice`, `Value::pointer` and `Value::as_bool`: the boolean at a
/// pointer. None is found in what is not JSON.
#[verifier::external_body]
pub(crate) fn flag_at(document: &[u8], pointer: &str) -> (found: Option<bool>)
    ensures
        found == json_flag_at(document@, pointer@),
{
    let value: serde_json::Value = serde_json::from_slice(document).ok()?;
    value.pointer(pointer)?.as_bool()
}

/// A JSON text holds no control character, so in particular no line break.
pub proof fn law_json_is_one_line(value: Json)
    ensures
        forall|i: int| 0 <= i < json_text(value).len() ==> (#[trigger] json_text(value)[i]) as int
            >= 0x20,
{
    lemma_value_characters(value);
}

/// Different JSON values have different texts, whatever the texts inside them are.
pub proof fn law_json_is_unambiguous(left: Json, right: Json)
    requires
        json_text(left) == json_text(right),
    ensures
        left == right,
{
    let end = Seq::<char>::empty();
    assert(json_text(left) + end =~= json_text(right) + end);
    lemma_value_unique(left, right, end, end);
}

/// Whether a text is free of control characters.
spec fn is_printed(text: Seq<char>) -> bool {
    forall|i: int| 0 <= i < text.len() ==> (#[trigger] text[i]) as int >= 0x20
}

proof fn lemma_printed_concat(left: Seq<char>, right: Seq<char>)
    requires
        is_printed(left),
        is_printed(right),
    ensures
        is_printed(left + right),
{
    assert forall|i: int| 0 <= i < (left + right).len() implies (#[trigger] (left + right)[i])
        as int >= 0x20 by {
        if i < left.len() {
            assert((left + right)[i] == left[i]);
        } else {
            assert((left + right)[i] == right[i - left.len()]);
        }
    }
}

proof fn lemma_char_printed(c: char)
    ensures
        is_printed(json_char(c)),
{
    if (c as int) < 0x20 {
        assert(0 <= c as int / 16 < 16 && 0 <= c as int % 16 < 16);
    }
}

proof fn lemma_string_characters(text: Seq<char>)
    ensures
        is_printed(json_content(text)),
        is_printed(json_string(text)),
    decreases text.len(),
{
    if text.len() > 0 {
        lemma_string_characters(text.drop_first());
        lemma_char_printed(text.first());
        lemma_printed_concat(json_char(text.first()), json_content(text.drop_first()));
    }
    lemma_printed_concat(seq!['"'], json_content(text));
    lemma_printed_concat(seq!['"'] + json_content(text), seq!['"']);
}

proof fn lemma_value_characters(value: Json)
    ensures
        is_printed(json_text(value)),
    decreases value,
{
    match value {
        Json::Text(text) => {
            lemma_string_characters(text);
        },
        Json::List(items) => {
            lemma_items_characters(items);
            lemma_printed_concat(seq!['['], items_text(items));
            lemma_printed_concat(seq!['['] + items_text(items), seq![']']);
        },
        Json::Object(members) => {
            lemma_members_characters(members);
            lemma_printed_concat(seq!['{'], members_text(members));
            lemma_printed_concat(seq!['{'] + members_text(members), seq!['}']);
        },
    }
}

proof fn lemma_items_characters(items: Seq<Json>)
    ensures
        is_printed(items_text(items)),
    decreases items,
{
    if items.len() > 0 {
        lemma_value_characters(items[0]);
    }
    if items.len() > 1 {
        let rest = items.subrange(1, items.len() as int);
        lemma_items_characters(rest);
        lemma_printed_concat(json_text(items[0]), seq![',']);
        lemma_printed_concat(json_text(items[0]) + seq![','], items_text(rest));
    }
}

proof fn lemma_members_characters(members: Seq<(Seq<char>, Json)>)
    ensures
        is_printed(members_text(members)),
    decreases members,
{
    if members.len() > 0 {
        let key = json_string(members[0].0);
        let value = json_text(members[0].1);
        lemma_string_characters(members[0].0);
        lemma_value_characters(members[0].1);
        lemma_printed_concat(key, seq![':']);
        lemma_printed_concat(key + seq![':'], value);
        if members.len() > 1 {
            let rest = members.subrange(1, members.len() as int);
            lemma_members_characters(rest);
            lemma_printed_concat(key + seq![':'] + value, seq![',']);
            lemma_printed_concat(key + seq![':'] + value + seq![','], members_text(rest));
        }
    }
}

proof fn lemma_char_unique(left: char, right: char, a: Seq<char>, b: Seq<char>)
    requires
        json_char(left) + a == json_char(right) + b,
    ensures
        left == right,
        a == b,
{
    let l = json_char(left);
    let r = json_char(right);
    let whole = l + a;
    assert(whole =~= r + b);
    assert(whole[0] == l[0] && whole[0] == r[0]);
    if l.len() > 1 && r.len() > 1 {
        assert(whole[1] == l[1] && whole[1] == r[1]);
    }
    if l.len() == 6 && r.len() == 6 {
        assert(whole[4] == l[4] && whole[4] == r[4]);
        assert(whole[5] == l[5] && whole[5] == r[5]);
    }
    assert(left == right);
    assert(whole.skip(l.len() as int) =~= a);
    assert(whole.skip(r.len() as int) =~= b);
}

proof fn lemma_content_unique(left: Seq<char>, right: Seq<char>, a: Seq<char>, b: Seq<char>)
    requires
        json_content(left) + seq!['"'] + a == json_content(right) + seq!['"'] + b,
    ensures
        left == right,
        a == b,
    decreases left.len(),
{
    let whole = json_content(left) + seq!['"'] + a;
    if left.len() == 0 {
        assert(whole[0] == '"');
        if right.len() > 0 {
            assert((json_content(right) + seq!['"'] + b)[0] == json_char(right.first())[0]);
        } else {
            assert(left =~= right);
            assert((json_content(left) + seq!['"'] + a).skip(1) =~= a);
            assert((json_content(right) + seq!['"'] + b).skip(1) =~= b);
        }
    } else if right.len() == 0 {
        assert((json_content(right) + seq!['"'] + b)[0] == '"');
        assert(whole[0] == json_char(left.first())[0]);
    } else {
        let x = json_content(left.drop_first()) + seq!['"'] + a;
        let y = json_content(right.drop_first()) + seq!['"'] + b;
        assert(whole =~= json_char(left.first()) + x);
        assert(whole =~= json_char(right.first()) + y);
        lemma_char_unique(left.first(), right.first(), x, y);
        lemma_content_unique(left.drop_first(), right.drop_first(), a, b);
        assert(left =~= seq![left.first()] + left.drop_first());
        assert(right =~= seq![right.first()] + right.drop_first());
    }
}

proof fn lemma_string_unique(left: Seq<char>, right: Seq<char>, a: Seq<char>, b: Seq<char>)
    requires
        json_string(left) + a == json_string(right) + b,
    ensures
        left == right,
        a == b,
{
    let whole = json_string(left) + a;
    assert(whole.skip(1) =~= json_content(left) + seq!['"'] + a);
    assert((json_string(right) + b).skip(1) =~= json_content(right) + seq!['"'] + b);
    lemma_content_unique(left, right, a, b);
}

proof fn lemma_value_unique(left: Json, right: Json, a: Seq<char>, b: Seq<char>)
    requires
        json_text(left) + a == json_text(right) + b,
    ensures
        left == right,
        a == b,
    decreases left,
{
    let whole = json_text(left) + a;
    assert(whole[0] == json_text(left)[0]);
    assert(whole[0] == json_text(right)[0]);
    match (left, right) {
        (Json::Text(l), Json::Text(r)) => {
            lemma_string_unique(l, r, a, b);
        },
        (Json::List(l), Json::List(r)) => {
            assert(whole.skip(1) =~= items_text(l) + seq![']'] + a);
            assert((json_text(right) + b).skip(1) =~= items_text(r) + seq![']'] + b);
            lemma_items_unique(l, r, a, b);
        },
        (Json::Object(l), Json::Object(r)) => {
            assert(whole.skip(1) =~= members_text(l) + seq!['}'] + a);
            assert((json_text(right) + b).skip(1) =~= members_text(r) + seq!['}'] + b);
            lemma_members_unique(l, r, a, b);
        },
        _ => {},
    }
}

proof fn lemma_items_unique(left: Seq<Json>, right: Seq<Json>, a: Seq<char>, b: Seq<char>)
    requires
        items_text(left) + seq![']'] + a == items_text(right) + seq![']'] + b,
    ensures
        left == right,
        a == b,
    decreases left,
{
    let whole = items_text(left) + seq![']'] + a;
    let other = items_text(right) + seq![']'] + b;
    if left.len() > 0 && right.len() > 0 {
        let l = left.subrange(1, left.len() as int);
        let r = right.subrange(1, right.len() as int);
        let x = if left.len() == 1 {
            seq![']'] + a
        } else {
            seq![','] + (items_text(l) + seq![']'] + a)
        };
        let y = if right.len() == 1 {
            seq![']'] + b
        } else {
            seq![','] + (items_text(r) + seq![']'] + b)
        };
        assert(whole =~= json_text(left[0]) + x);
        assert(other =~= json_text(right[0]) + y);
        lemma_value_unique(left[0], right[0], x, y);
        assert(x[0] == y[0]);
        assert(x.skip(1) == y.skip(1));
        if left.len() == 1 {
            assert(x.skip(1) =~= a && y.skip(1) =~= b);
        } else {
            assert(x.skip(1) =~= items_text(l) + seq![']'] + a);
            assert(y.skip(1) =~= items_text(r) + seq![']'] + b);
            lemma_items_unique(l, r, a, b);
            assert(left =~= seq![left[0]] + l);
            assert(right =~= seq![right[0]] + r);
        }
        assert(left =~= right);
    } else {
        if left.len() > 0 {
            assert(whole[0] == json_text(left[0])[0]);
            assert(other[0] == ']');
        } else if right.len() > 0 {
            assert(other[0] == json_text(right[0])[0]);
            assert(whole[0] == ']');
        }
        assert(left =~= right);
        assert(whole.skip(1) =~= a && other.skip(1) =~= b);
    }
}

/// What follows the first member, up to the end of the object and beyond.
spec fn after_first_member(members: Seq<(Seq<char>, Json)>, end: Seq<char>) -> Seq<char> {
    if members.len() == 1 {
        seq!['}'] + end
    } else {
        seq![','] + (members_text(members.subrange(1, members.len() as int)) + seq!['}'] + end)
    }
}

proof fn lemma_first_member(members: Seq<(Seq<char>, Json)>, end: Seq<char>)
    requires
        members.len() > 0,
    ensures
        members_text(members) + seq!['}'] + end == json_string(members[0].0) + (seq![':'] + (
        json_text(members[0].1) + after_first_member(members, end))),
{
    let key = json_string(members[0].0);
    let value = json_text(members[0].1);
    if members.len() == 1 {
        assert(members_text(members) == key + seq![':'] + value);
    } else {
        let rest = members_text(members.subrange(1, members.len() as int));
        assert(members_text(members) == key + seq![':'] + value + seq![','] + rest);
    }
    assert(members_text(members) + seq!['}'] + end =~= key + (seq![':'] + (value
        + after_first_member(members, end))));
}

proof fn lemma_members_unique(
    left: Seq<(Seq<char>, Json)>,
    right: Seq<(Seq<char>, Json)>,
    a: Seq<char>,
    b: Seq<char>,
)
    requires
        members_text(left) + seq!['}'] + a == members_text(right) + seq!['}'] + b,
    ensures
        left == right,
        a == b,
    decreases left,
{
    let whole = members_text(left) + seq!['}'] + a;
    let other = members_text(right) + seq!['}'] + b;
    if left.len() > 0 && right.len() > 0 {
        let l = left.subrange(1, left.len() as int);
        let r = right.subrange(1, right.len() as int);
        let x = after_first_member(left, a);
        let y = after_first_member(right, b);
        let x_value = seq![':'] + (json_text(left[0].1) + x);
        let y_value = seq![':'] + (json_text(right[0].1) + y);
        lemma_first_member(left, a);
        lemma_first_member(right, b);
        lemma_string_unique(left[0].0, right[0].0, x_value, y_value);
        assert(x_value.skip(1) =~= json_text(left[0].1) + x);
        assert(y_value.skip(1) =~= json_text(right[0].1) + y);
        lemma_value_unique(left[0].1, right[0].1, x, y);
        assert(x[0] == y[0]);
        assert(x.skip(1) == y.skip(1));
        assert(left[0] == right[0]);
        if left.len() == 1 {
            assert(x.skip(1) =~= a && y.skip(1) =~= b);
        } else {
            assert(x.skip(1) =~= members_text(l) + seq!['}'] + a);
            assert(y.skip(1) =~= members_text(r) + seq!['}'] + b);
            lemma_members_unique(l, r, a, b);
            assert(left =~= seq![left[0]] + l);
            assert(right =~= seq![right[0]] + r);
        }
        assert(left =~= right);
    } else {
        if left.len() > 0 {
            assert(whole[0] == '"');
            assert(other[0] == '}');
        } else if right.len() > 0 {
            assert(other[0] == '"');
            assert(whole[0] == '}');
        }
        assert(left =~= right);
        assert(whole.skip(1) =~= a && other.skip(1) =~= b);
    }
}

/// A list is written item by item, each as it is written alone, with commas between
/// them and brackets around them.
pub proof fn law_list_is_written_item_by_item(left: Seq<Json>, right: Seq<Json>, item: Json)
    ensures
        json_text(Json::List(left)) == seq!['['] + items_text(left) + seq![']'],
        items_text(Seq::empty()) == Seq::<char>::empty(),
        items_text(seq![item]) == json_text(item),
        left.len() > 0 && right.len() > 0 ==> items_text(left + right) == items_text(left)
            + seq![','] + items_text(right),
    decreases left.len(),
{
    if left.len() > 0 && right.len() > 0 {
        let all = left + right;
        let rest = left.subrange(1, left.len() as int);
        assert(all.subrange(1, all.len() as int) =~= rest + right);
        if left.len() == 1 {
            assert(rest + right =~= right);
            assert(items_text(all) =~= items_text(left) + seq![','] + items_text(right));
        } else {
            law_list_is_written_item_by_item(rest, right, item);
            assert(items_text(all) =~= items_text(left) + seq![','] + items_text(right));
        }
    }
}

/// An object is written member by member, each key as a string, then a colon and the
/// value as it is written alone, with commas between them and braces around them.
pub proof fn law_object_is_written_member_by_member(
    left: Seq<(Seq<char>, Json)>,
    right: Seq<(Seq<char>, Json)>,
    key: Seq<char>,
    value: Json,
)
    ensures
        json_text(Json::Object(left)) == seq!['{'] + members_text(left) + seq!['}'],
        members_text(Seq::empty()) == Seq::<char>::empty(),
        members_text(seq![(key, value)]) == json_text(Json::Text(key)) + seq![':'] + json_text(
            value,
        ),
        left.len() > 0 && right.len() > 0 ==> members_text(left + right) == members_text(left)
            + seq![','] + members_text(right),
    decreases left.len(),
{
    if left.len() > 0 && right.len() > 0 {
        let all = left + right;
        let rest = left.subrange(1, left.len() as int);
        assert(all.subrange(1, all.len() as int) =~= rest + right);
        if left.len() == 1 {
            assert(rest + right =~= right);
            assert(members_text(all) =~= members_text(left) + seq![','] + members_text(right));
        } else {
            law_object_is_written_member_by_member(rest, right, key, value);
            assert(members_text(all) =~= members_text(left) + seq![','] + members_text(right));
        }
    }
}

/// A string is written in quotes, character by character. One that is no quote, no
/// backslash and no control character stands as it is.
pub proof fn law_string_is_written_character_by_character(
    left: Seq<char>,
    right: Seq<char>,
    c: char,
)
    ensures
        json_text(Json::Text(left)) == seq!['"'] + json_content(left) + seq!['"'],
        json_content(left + right) == json_content(left) + json_content(right),
        json_content(Seq::empty()) == Seq::<char>::empty(),
        c as int >= 0x20 && c != '"' && c != '\\' ==> json_content(seq![c]) == seq![c],
        c == '"' || c == '\\' ==> json_content(seq![c]) == seq!['\\', c],
    decreases left.len(),
{
    assert(seq![c].drop_first() =~= Seq::<char>::empty());
    assert(json_content(Seq::<char>::empty()) =~= Seq::<char>::empty());
    assert(json_content(seq![c]) == json_char(seq![c].first()) + json_content(
        seq![c].drop_first(),
    ));
    assert(json_content(seq![c]) =~= json_char(c));
    if left.len() == 0 {
        assert(left + right =~= right);
        assert(json_content(left) + json_content(right) =~= json_content(right));
    } else {
        law_string_is_written_character_by_character(left.drop_first(), right, c);
        assert((left + right).drop_first() =~= left.drop_first() + right);
        assert(json_content(left + right) =~= json_content(left) + json_content(right));
    }
}

} // verus!
