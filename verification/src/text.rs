//! Text: splitting, trimming, decimal and hexadecimal digits.

use vstd::prelude::*;
use vstd::string::*;
use vstd::utf8::*;

verus! {

/// The stretches of `text` between the occurrences of `sep`, in order. There is
/// always one more of them than there are separators.
pub open spec fn pieces(text: Seq<char>, sep: char) -> Seq<Seq<char>>
    decreases text.len(),
{
    if text.len() == 0 {
        seq![Seq::<char>::empty()]
    } else {
        let before = pieces(text.drop_last(), sep);
        if text.last() == sep {
            before.push(Seq::<char>::empty())
        } else {
            before.drop_last().push(before.last().push(text.last()))
        }
    }
}

/// Splits `text` at every occurrence of `sep`.
pub fn split(text: &str, sep: char) -> (parts: Vec<String>)
    ensures
        parts.deep_view() == pieces(text@, sep),
{
    let mut parts: Vec<String> = Vec::new();
    let mut start: usize = 0;
    let mut at: usize = 0;
    let count: usize = text.unicode_len();
    assert(text@.take(0) =~= Seq::<char>::empty());
    assert(parts.deep_view() =~= pieces(text@.take(0), sep).drop_last());
    for c in chars: text.chars()
        invariant
            chars.seq() == text@,
            count == text@.len(),
            at == chars.index(),
            start <= at <= text@.len(),
            pieces(text@.take(at as int), sep).len() >= 1,
            parts.deep_view() == pieces(text@.take(at as int), sep).drop_last(),
            text@.subrange(start as int, at as int) == pieces(text@.take(at as int), sep).last(),
    {
        let ghost so_far = pieces(text@.take(at as int), sep);
        assert(text@.take(at + 1).drop_last() =~= text@.take(at as int));
        if c == sep {
            let piece = text.substring_char(start, at).to_owned();
            assert(piece@ == so_far.last());
            let ghost earlier = parts.deep_view();
            parts.push(piece);
            assert(parts.deep_view() =~= earlier.push(piece@));
            at = at + 1;
            start = at;
            assert(parts.deep_view() =~= so_far);
            assert(text@.subrange(start as int, at as int) =~= Seq::<char>::empty());
        } else {
            at = at + 1;
            assert(text@.subrange(start as int, at as int) =~= so_far.last().push(c));
        }
        assert(pieces(text@.take(at as int), sep).drop_last() =~= parts.deep_view());
    }
    assert(text@.take(at as int) =~= text@);
    let last = text.substring_char(start, at).to_owned();
    let ghost earlier = parts.deep_view();
    parts.push(last);
    assert(parts.deep_view() =~= earlier.push(last@));
    assert(parts.deep_view() =~= pieces(text@, sep));
    parts
}

/// Whether `text` is `head`, then `sep`, then `tail`, cut at the first `sep`.
pub open spec fn cut_at_first(text: Seq<char>, sep: char, head: Seq<char>, tail: Seq<char>) -> bool {
    &&& text == head.push(sep) + tail
    &&& !head.contains(sep)
}

/// Splits `text` at the first occurrence of `sep`, if there is one.
pub fn split_once(text: &str, sep: char) -> (cut: Option<(String, String)>)
    ensures
        cut is Some <==> text@.contains(sep),
        cut matches Some((head, tail)) ==> cut_at_first(text@, sep, head@, tail@),
{
    let mut at: usize = 0;
    let count: usize = text.unicode_len();
    for c in chars: text.chars()
        invariant
            chars.seq() == text@,
            count == text@.len(),
            at == chars.index(),
            at <= text@.len(),
            forall|j: int| 0 <= j < at ==> text@[j] != sep,
    {
        if c == sep {
            let head = text.substring_char(0, at).to_owned();
            let tail = text.substring_char(at + 1, count).to_owned();
            assert(text@[at as int] == sep);
            assert(text@ =~= head@.push(sep) + tail@);
            return Some((head, tail));
        }
        at = at + 1;
    }
    None
}

/// Whether two texts are the same.
pub fn same(left: &str, right: &str) -> (equal: bool)
    ensures
        equal == (left@ == right@),
{
    left.to_owned() == right.to_owned()
}

/// The White_Space property of the Unicode Character Database.
pub open spec fn is_white_space(c: char) -> bool {
    ||| 0x9 <= c as int <= 0xd
    ||| c as int == 0x20
    ||| c as int == 0x85
    ||| c as int == 0xa0
    ||| c as int == 0x1680
    ||| 0x2000 <= c as int <= 0x200a
    ||| c as int == 0x2028
    ||| c as int == 0x2029
    ||| c as int == 0x202f
    ||| c as int == 0x205f
    ||| c as int == 0x3000
}

/// `text` from its first character that is not white space.
pub open spec fn trimmed_start(text: Seq<char>) -> Seq<char>
    decreases text.len(),
{
    if text.len() > 0 && is_white_space(text.first()) {
        trimmed_start(text.drop_first())
    } else {
        text
    }
}

/// `text` up to its last character that is not white space.
pub open spec fn trimmed_end(text: Seq<char>) -> Seq<char>
    decreases text.len(),
{
    if text.len() > 0 && is_white_space(text.last()) {
        trimmed_end(text.drop_last())
    } else {
        text
    }
}

/// `text` without the white space at its two ends.
pub open spec fn trimmed(text: Seq<char>) -> Seq<char> {
    trimmed_end(trimmed_start(text))
}

/// `str::trim`: the text without leading and trailing characters that have the
/// White_Space property.
#[verifier::external_body]
pub(crate) fn trim(text: &str) -> (rest: &str)
    ensures
        rest@ == trimmed(text@),
{
    text.trim()
}

/// `String::from_utf8`: succeeds exactly on valid UTF-8, and then gives the text
/// that these bytes encode.
#[verifier::external_body]
pub(crate) fn utf8_text(bytes: Vec<u8>) -> (text: Option<String>)
    ensures
        text is Some <==> valid_utf8(bytes@),
        text matches Some(t) ==> encode_utf8(t@) == bytes@,
{
    String::from_utf8(bytes).ok()
}

/// The hexadecimal digit of `value`, in lower case.
pub open spec fn hex_digit(value: int) -> char {
    seq!['0', '1', '2', '3', '4', '5', '6', '7', '8', '9', 'a', 'b', 'c', 'd', 'e', 'f'][value]
}

/// The digit of `value` as a text.
pub fn digit(value: u8) -> (text: &'static str)
    requires
        value < 16,
    ensures
        text@ == seq![hex_digit(value as int)],
{
    proof {
        reveal_strlit("0");
        reveal_strlit("1");
        reveal_strlit("2");
        reveal_strlit("3");
        reveal_strlit("4");
        reveal_strlit("5");
        reveal_strlit("6");
        reveal_strlit("7");
        reveal_strlit("8");
        reveal_strlit("9");
        reveal_strlit("a");
        reveal_strlit("b");
        reveal_strlit("c");
        reveal_strlit("d");
        reveal_strlit("e");
        reveal_strlit("f");
    }
    match value {
        0 => "0",
        1 => "1",
        2 => "2",
        3 => "3",
        4 => "4",
        5 => "5",
        6 => "6",
        7 => "7",
        8 => "8",
        9 => "9",
        10 => "a",
        11 => "b",
        12 => "c",
        13 => "d",
        14 => "e",
        _ => "f",
    }
}

/// `value` written in decimal, without leading zeros.
pub open spec fn decimal(value: nat) -> Seq<char>
    decreases value,
{
    if value < 10 {
        seq![hex_digit(value as int)]
    } else {
        decimal(value / 10).push(hex_digit((value % 10) as int))
    }
}

/// Writes `value` in decimal.
pub fn decimal_text(value: u128) -> (text: String)
    ensures
        text@ == decimal(value as nat),
    decreases value,
{
    if value < 10 {
        digit(value as u8).to_owned()
    } else {
        let mut text = decimal_text(value / 10);
        text.append(digit((value % 10) as u8));
        text
    }
}

/// Two hexadecimal digits for each byte.
pub open spec fn hex(bytes: Seq<u8>) -> Seq<char>
    decreases bytes.len(),
{
    if bytes.len() == 0 {
        Seq::empty()
    } else {
        hex(bytes.drop_last()) + seq![
            hex_digit(bytes.last() as int / 16),
            hex_digit(bytes.last() as int % 16),
        ]
    }
}

/// Writes `bytes` in hexadecimal.
pub fn hex_text(bytes: &[u8]) -> (text: String)
    ensures
        text@ == hex(bytes@),
{
    let mut text = String::new();
    assert(bytes@.take(0) =~= Seq::<u8>::empty());
    for i in 0..bytes.len()
        invariant
            text@ == hex(bytes@.take(i as int)),
    {
        let byte: u8 = bytes[i];
        text.append(digit(byte / 16));
        text.append(digit(byte % 16));
        assert(bytes@.take(i + 1).drop_last() =~= bytes@.take(i as int));
        assert(text@ =~= hex(bytes@.take(i + 1)));
    }
    assert(bytes@.take(bytes@.len() as int) =~= bytes@);
    text
}

/// In UTF-8 an ASCII byte stands for the ASCII character and nothing else.
pub proof fn lemma_ascii_byte(text: Seq<char>, c: char)
    requires
        (c as int) < 0x80,
    ensures
        encode_utf8(text).contains(c as u8) ==> text.contains(c),
        text.len() > 0 ==> encode_utf8(text).len() > 0,
    decreases text.len(),
{
    if text.len() > 0 {
        let first = text[0];
        let head = encode_scalar(first as u32);
        let rest = text.drop_first();
        lemma_ascii_byte(rest, c);
        lemma_ascii_scalar(first, c);
        if encode_utf8(text).contains(c as u8) {
            let i = encode_utf8(text).index_of(c as u8);
            if i < head.len() {
                assert(head[i] == c as u8);
                assert(head.contains(c as u8));
                assert(text.contains(c));
            } else {
                assert(encode_utf8(rest)[i - head.len()] == c as u8);
                assert(encode_utf8(rest).contains(c as u8));
                let j = rest.index_of(c);
                assert(text[j + 1] == c);
            }
        }
    }
}

proof fn lemma_ascii_scalar(first: char, c: char)
    requires
        (c as int) < 0x80,
    ensures
        encode_scalar(first as u32).len() > 0,
        encode_scalar(first as u32).contains(c as u8) ==> first == c,
{
    let v = first as u32;
    assert(0xC0u8 | (((v >> 6) & 0x1F) as u8) >= 0x80) by (bit_vector);
    assert(0xE0u8 | (((v >> 12) & 0x0F) as u8) >= 0x80) by (bit_vector);
    assert(0xF0u8 | (((v >> 18) & 0x7) as u8) >= 0x80) by (bit_vector);
    assert(0x80u8 | ((v & 0x3F) as u8) >= 0x80) by (bit_vector);
    assert(0x80u8 | (((v >> 6) & 0x3F) as u8) >= 0x80) by (bit_vector);
    assert(0x80u8 | (((v >> 12) & 0x3F) as u8) >= 0x80) by (bit_vector);
    assert(v <= 0x7F ==> (v & 0x7F) as u8 == v) by (bit_vector);
}

/// Stretches of text with `sep` between them.
pub open spec fn joined_by(parts: Seq<Seq<char>>, sep: char) -> Seq<char>
    decreases parts.len(),
{
    if parts.len() == 0 {
        Seq::empty()
    } else if parts.len() == 1 {
        parts[0]
    } else {
        joined_by(parts.drop_last(), sep).push(sep) + parts.last()
    }
}

/// Splitting takes nothing from a text but its separators: the pieces with separators
/// between them make the text again, and no separator is left in a piece.
pub proof fn law_pieces_make_the_text(text: Seq<char>, sep: char)
    ensures
        pieces(text, sep).len() > 0,
        joined_by(pieces(text, sep), sep) == text,
        forall|i: int|
            0 <= i < pieces(text, sep).len() ==> !(#[trigger] pieces(text, sep)[i]).contains(sep),
    decreases text.len(),
{
    let parts = pieces(text, sep);
    if text.len() == 0 {
        assert(joined_by(parts, sep) =~= text);
    } else {
        let c = text.last();
        let before = pieces(text.drop_last(), sep);
        law_pieces_make_the_text(text.drop_last(), sep);
        assert(text =~= text.drop_last().push(c));
        if c == sep {
            assert(parts.drop_last() =~= before);
            assert(joined_by(parts, sep) =~= text);
            assert forall|i: int| 0 <= i < parts.len() implies !(#[trigger] parts[i]).contains(
                sep,
            ) by {
                if i < before.len() {
                    assert(parts[i] == before[i]);
                }
            }
        } else {
            assert(parts.drop_last() =~= before.drop_last());
            assert(parts.last() == before.last().push(c));
            if before.len() == 1 {
                assert(joined_by(parts, sep) =~= text);
            } else {
                assert(joined_by(parts, sep) =~= joined_by(before, sep).push(c));
            }
            assert forall|i: int| 0 <= i < parts.len() implies !(#[trigger] parts[i]).contains(
                sep,
            ) by {
                if i < before.len() - 1 {
                    assert(parts[i] == before[i]);
                } else {
                    assert(!before[i].contains(sep));
                    if parts[i].contains(sep) {
                        let j = parts[i].index_of(sep);
                        assert(before[i][j] == sep);
                    }
                }
            }
        }
    }
}

/// A text without a separator is one piece.
pub proof fn law_text_without_separator_is_one_piece(text: Seq<char>, sep: char)
    requires
        !text.contains(sep),
    ensures
        pieces(text, sep) == seq![text],
    decreases text.len(),
{
    if text.len() == 0 {
        assert(text =~= Seq::<char>::empty());
    } else {
        assert(text.contains(text.last())) by {
            assert(text[text.len() - 1] == text.last());
        }
        assert forall|c: char| text.drop_last().contains(c) implies text.contains(c) by {
            let i = text.drop_last().index_of(c);
            assert(text[i] == c);
        }
        law_text_without_separator_is_one_piece(text.drop_last(), sep);
        assert(text.drop_last().push(text.last()) =~= text);
        assert(pieces(text, sep) =~= seq![text]);
    }
}

/// The pieces of two texts with a separator between them are those of the one and then
/// those of the other.
pub proof fn law_pieces_of_both(left: Seq<char>, right: Seq<char>, sep: char)
    ensures
        pieces(left.push(sep) + right, sep) == pieces(left, sep) + pieces(right, sep),
    decreases right.len(),
{
    let whole = left.push(sep) + right;
    if right.len() == 0 {
        assert(whole =~= left.push(sep));
        assert(whole.drop_last() =~= left);
        assert(pieces(whole, sep) =~= pieces(left, sep) + pieces(right, sep));
    } else {
        law_pieces_of_both(left, right.drop_last(), sep);
        law_pieces_make_the_text(right.drop_last(), sep);
        assert(whole.drop_last() =~= left.push(sep) + right.drop_last());
        assert(whole.last() == right.last());
        assert(pieces(whole, sep) =~= pieces(left, sep) + pieces(right, sep));
    }
}

/// Trimming leaves what stands between the white space at the two ends, all of it.
pub proof fn law_trimming_leaves_the_rest(lead: Seq<char>, rest: Seq<char>, trail: Seq<char>)
    requires
        forall|i: int| 0 <= i < lead.len() ==> is_white_space(#[trigger] lead[i]),
        forall|i: int| 0 <= i < trail.len() ==> is_white_space(#[trigger] trail[i]),
        rest.len() > 0 ==> !is_white_space(rest.first()) && !is_white_space(rest.last()),
    ensures
        trimmed(lead + rest + trail) == rest,
    decreases lead.len() + trail.len(),
{
    let whole = lead + rest + trail;
    if lead.len() > 0 {
        assert(whole.first() == lead[0]);
        assert(whole.drop_first() =~= lead.drop_first() + rest + trail);
        assert forall|i: int| 0 <= i < lead.drop_first().len() implies is_white_space(
            #[trigger] lead.drop_first()[i],
        ) by {
            assert(lead.drop_first()[i] == lead[i + 1]);
        }
        law_trimming_leaves_the_rest(lead.drop_first(), rest, trail);
    } else if rest.len() > 0 {
        assert(whole.first() == rest.first());
        lemma_trail(rest, trail);
        assert(whole =~= rest + trail);
    } else if trail.len() > 0 {
        assert(whole =~= trail);
        assert(whole.first() == trail[0]);
        assert(whole.drop_first() =~= lead + rest + trail.drop_first());
        assert forall|i: int| 0 <= i < trail.drop_first().len() implies is_white_space(
            #[trigger] trail.drop_first()[i],
        ) by {
            assert(trail.drop_first()[i] == trail[i + 1]);
        }
        law_trimming_leaves_the_rest(lead, rest, trail.drop_first());
    } else {
        assert(whole =~= rest);
    }
}

proof fn lemma_trail(rest: Seq<char>, trail: Seq<char>)
    requires
        forall|i: int| 0 <= i < trail.len() ==> is_white_space(#[trigger] trail[i]),
        rest.len() > 0,
        !is_white_space(rest.last()),
    ensures
        trimmed_end(rest + trail) == rest,
    decreases trail.len(),
{
    if trail.len() > 0 {
        assert((rest + trail).last() == trail[trail.len() - 1]);
        assert((rest + trail).drop_last() =~= rest + trail.drop_last());
        assert forall|i: int| 0 <= i < trail.drop_last().len() implies is_white_space(
            #[trigger] trail.drop_last()[i],
        ) by {
            assert(trail.drop_last()[i] == trail[i]);
        }
        lemma_trail(rest, trail.drop_last());
    } else {
        assert(rest + trail =~= rest);
    }
}

/// The number that a hexadecimal digit in lower case stands for.
pub open spec fn digit_worth(c: char) -> int {
    if '0' <= c <= '9' {
        c as int - '0' as int
    } else {
        c as int - 'a' as int + 10
    }
}

/// Each byte is written as two digits, the higher first, and they are worth the byte.
pub proof fn law_hex_is_worth_its_bytes(bytes: Seq<u8>, i: int)
    requires
        0 <= i < bytes.len(),
    ensures
        hex(bytes).len() == 2 * bytes.len(),
        16 * digit_worth(hex(bytes)[2 * i]) + digit_worth(hex(bytes)[2 * i + 1]) == bytes[i],
        '0' <= hex(bytes)[2 * i] <= '9' || 'a' <= hex(bytes)[2 * i] <= 'f',
        '0' <= hex(bytes)[2 * i + 1] <= '9' || 'a' <= hex(bytes)[2 * i + 1] <= 'f',
    decreases bytes.len(),
{
    let earlier = bytes.drop_last();
    lemma_hex_length(bytes);
    lemma_hex_length(earlier);
    if i < earlier.len() {
        law_hex_is_worth_its_bytes(earlier, i);
        assert(hex(bytes)[2 * i] == hex(earlier)[2 * i]);
        assert(hex(bytes)[2 * i + 1] == hex(earlier)[2 * i + 1]);
    } else {
        let b = bytes.last() as int;
        assert(hex(bytes)[2 * i] == hex_digit(b / 16));
        assert(hex(bytes)[2 * i + 1] == hex_digit(b % 16));
    }
}

proof fn lemma_hex_length(bytes: Seq<u8>)
    ensures
        hex(bytes).len() == 2 * bytes.len(),
    decreases bytes.len(),
{
    if bytes.len() > 0 {
        lemma_hex_length(bytes.drop_last());
    }
}

/// The number that a text in decimal stands for.
pub open spec fn decimal_worth(text: Seq<char>) -> int
    decreases text.len(),
{
    if text.len() == 0 {
        0
    } else {
        10 * decimal_worth(text.drop_last()) + (text.last() as int - '0' as int)
    }
}

/// A number in decimal is worth the number, is made of digits and has no zero at its
/// start, unless it is zero.
pub proof fn law_decimal_is_worth_its_value(value: nat)
    ensures
        decimal_worth(decimal(value)) == value,
        decimal(value).len() > 0,
        forall|i: int| 0 <= i < decimal(value).len() ==> '0' <= #[trigger] decimal(value)[i] <= '9',
        value > 0 ==> decimal(value).first() != '0',
        value == 0 ==> decimal(value).len() == 1,
    decreases value,
{
    let text = decimal(value);
    if value >= 10 {
        law_decimal_is_worth_its_value(value / 10);
        assert(text.drop_last() =~= decimal(value / 10));
    } else {
        assert(text.drop_last() =~= Seq::<char>::empty());
        assert(decimal_worth(text.drop_last()) == 0);
    }
}

} // verus!
