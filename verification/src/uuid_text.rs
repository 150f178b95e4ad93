//! UUIDs as text.
//!
//! A UUID is held as the 128-bit number that its hexadecimal digits write.

use crate::text::{ascii_lower, same_but_for_case, same_letter};
use vstd::prelude::*;

verus! {

/// The characters that stand for a hexadecimal digit, in either case.
pub open spec fn is_hex(c: char) -> bool {
    '0' <= c <= '9' || 'a' <= c <= 'f' || 'A' <= c <= 'F'
}

/// The value of a hexadecimal digit.
pub open spec fn hex_value(c: char) -> nat {
    if '0' <= c <= '9' {
        (c as int - '0' as int) as nat
    } else if 'a' <= c <= 'f' {
        (c as int - 'a' as int + 10) as nat
    } else {
        (c as int - 'A' as int + 10) as nat
    }
}

/// The lower-case digit for a value below sixteen.
pub open spec fn hex_char(d: nat) -> char {
    if d < 10 {
        ('0' as u32 + d) as char
    } else {
        ('a' as u32 + d - 10) as char
    }
}

pub open spec fn all_hex(s: Seq<char>) -> bool {
    forall|i: int| 0 <= i < s.len() ==> is_hex(#[trigger] s[i])
}

/// The number that a run of hexadecimal digits writes.
pub open spec fn hex_number(s: Seq<char>) -> nat
    decreases s.len(),
{
    if s.len() == 0 {
        0
    } else {
        hex_number(s.drop_last()) * 16 + hex_value(s.last())
    }
}

/// The last `n` hexadecimal digits of `u`, in lower case.
pub open spec fn hex_text(u: nat, n: nat) -> Seq<char>
    decreases n,
{
    if n == 0 {
        seq![]
    } else {
        hex_text(u / 16, (n - 1) as nat).push(hex_char(u % 16))
    }
}

/// Thirty-two digits with hyphens after the 8th, 12th, 16th and 20th.
pub open spec fn hyphenate(d: Seq<char>) -> Seq<char> {
    d.subrange(0, 8) + seq!['-'] + d.subrange(8, 12) + seq!['-'] + d.subrange(12, 16) + seq!['-']
        + d.subrange(16, 20) + seq!['-'] + d.subrange(20, 32)
}

/// The digits of a hyphenated text, without its four hyphens.
pub open spec fn digits_of_hyphenated(s: Seq<char>) -> Seq<char> {
    s.subrange(0, 8) + s.subrange(9, 13) + s.subrange(14, 18) + s.subrange(19, 23) + s.subrange(
        24,
        36,
    )
}

/// The UUID that thirty-two digits write.
pub open spec fn simple_value(s: Seq<char>) -> Option<u128> {
    if s.len() == 32 && all_hex(s) {
        Some(hex_number(s) as u128)
    } else {
        None
    }
}

/// The UUID that a hyphenated text writes.
pub open spec fn hyphenated_value(s: Seq<char>) -> Option<u128> {
    if s.len() == 36 && s[8] == '-' && s[13] == '-' && s[18] == '-' && s[23] == '-' {
        simple_value(digits_of_hyphenated(s))
    } else {
        None
    }
}

/// The UUID that a text writes: thirty-two digits, or their hyphenated form,
/// alone, in braces or behind `urn:uuid:` in any case. `None` for every other text.
pub open spec fn uuid_value(s: Seq<char>) -> Option<u128> {
    if s.len() == 32 {
        simple_value(s)
    } else if s.len() == 36 {
        hyphenated_value(s)
    } else if s.len() == 38 && s[0] == '{' && s[37] == '}' {
        hyphenated_value(s.subrange(1, 37))
    } else if s.len() == 45 && ascii_lower(s.subrange(0, 9)) == seq![
        'u',
        'r',
        'n',
        ':',
        'u',
        'u',
        'i',
        'd',
        ':',
    ] {
        hyphenated_value(s.subrange(9, 45))
    } else {
        None
    }
}

/// The hyphenated lower-case text of a UUID.
pub open spec fn uuid_text(u: u128) -> Seq<char> {
    hyphenate(hex_text(u as nat, 32))
}

/// The message of the error with which `uuid::Uuid::from_str` rejects a text.
pub uninterp spec fn uuid_parse_error(s: Seq<char>) -> Seq<char>;

/// `uuid::Uuid::from_str`, with the UUID as the number of its digits and the
/// error as its message. It accepts exactly the texts that write a UUID and gives
/// that UUID; the message for any other text depends on the text alone, and its
/// wording is left to the name.
#[verifier::external_body]
pub(crate) fn parse_uuid(text: &str) -> (parsed: Result<u128, String>)
    ensures
        match parsed {
            Ok(u) => uuid_value(text@) == Some(u),
            Err(cause) => uuid_value(text@) is None && cause@ == uuid_parse_error(text@),
        },
{
    match <uuid::Uuid as std::str::FromStr>::from_str(text) {
        Ok(uuid) => Ok(uuid.as_u128()),
        Err(error) => Err(error.to_string()),
    }
}

/// `uuid::Uuid`'s `Display`, through `ToString::to_string`: the hyphenated
/// lower-case text of the UUID.
#[verifier::external_body]
pub(crate) fn format_uuid(u: u128) -> (text: String)
    ensures
        text@ == uuid_text(u),
{
    uuid::Uuid::from_u128(u).to_string()
}

/// Sixteen to the power of `n`.
pub open spec fn pow16(n: nat) -> nat
    decreases n,
{
    if n == 0 {
        1
    } else {
        16 * pow16((n - 1) as nat)
    }
}

proof fn pow16_of_32()
    ensures
        pow16(32) == u128::MAX + 1,
{
    reveal_with_fuel(pow16, 33);
}

proof fn hex_number_bound(s: Seq<char>)
    requires
        all_hex(s),
    ensures
        hex_number(s) < pow16(s.len()),
    decreases s.len(),
{
    if s.len() > 0 {
        let head = s.drop_last();
        assert forall|i: int| 0 <= i < head.len() implies is_hex(#[trigger] head[i]) by {
            assert(head[i] == s[i]);
        }
        hex_number_bound(head);
        assert(is_hex(s[s.len() - 1]));
        assert(hex_value(s.last()) < 16);
    }
}

/// Writing a number in `n` digits and reading the digits gives the number back.
proof fn hex_text_reads_back(u: nat, n: nat)
    requires
        u < pow16(n),
    ensures
        hex_text(u, n).len() == n,
        all_hex(hex_text(u, n)),
        hex_number(hex_text(u, n)) == u,
    decreases n,
{
    if n > 0 {
        let head = hex_text(u / 16, (n - 1) as nat);
        hex_text_reads_back(u / 16, (n - 1) as nat);
        let d = u % 16;
        assert(is_hex(hex_char(d)) && hex_value(hex_char(d)) == d);
        let s = hex_text(u, n);
        assert(s.drop_last() =~= head);
        assert(s.last() == hex_char(d));
        assert forall|i: int| 0 <= i < s.len() implies is_hex(#[trigger] s[i]) by {
            if i < n - 1 {
                assert(s[i] == head[i]);
            }
        }
    }
}

/// Reading digits and writing the number out again gives the digits in lower case.
proof fn hex_number_writes_back(s: Seq<char>)
    requires
        all_hex(s),
    ensures
        hex_text(hex_number(s), s.len()) == ascii_lower(s),
    decreases s.len(),
{
    let lower = ascii_lower(s);
    if s.len() > 0 {
        let head = s.drop_last();
        assert forall|i: int| 0 <= i < head.len() implies is_hex(#[trigger] head[i]) by {
            assert(head[i] == s[i]);
        }
        hex_number_writes_back(head);
        let c = s.last();
        assert(is_hex(s[s.len() - 1]));
        assert(hex_value(c) < 16);
        let u = hex_number(s);
        assert(u / 16 == hex_number(head) && u % 16 == hex_value(c));
        assert(hex_char(hex_value(c)) == crate::text::ascii_lower_char(c));
        assert(lower =~= ascii_lower(head).push(crate::text::ascii_lower_char(c)));
    } else {
        assert(lower =~= seq![]);
    }
}

proof fn hex_ignores_case(s: Seq<char>)
    ensures
        all_hex(ascii_lower(s)) == all_hex(s),
        all_hex(s) ==> hex_number(ascii_lower(s)) == hex_number(s),
    decreases s.len(),
{
    let lower = ascii_lower(s);
    assert forall|i: int| 0 <= i < s.len() implies is_hex(#[trigger] lower[i]) == is_hex(s[i]) by {}
    if all_hex(lower) {
        assert forall|i: int| 0 <= i < s.len() implies is_hex(#[trigger] s[i]) by {
            assert(is_hex(lower[i]));
        }
    }
    if all_hex(s) && s.len() > 0 {
        let head = s.drop_last();
        assert forall|i: int| 0 <= i < head.len() implies is_hex(#[trigger] head[i]) by {
            assert(head[i] == s[i]);
        }
        hex_ignores_case(head);
        assert(lower.drop_last() =~= ascii_lower(head));
        assert(is_hex(s[s.len() - 1]));
        assert(hex_value(lower.last()) == hex_value(s.last()));
    }
}

proof fn hyphenated_ignores_case(s: Seq<char>)
    ensures
        hyphenated_value(ascii_lower(s)) == hyphenated_value(s),
{
    if s.len() == 36 {
        let d = digits_of_hyphenated(s);
        assert(digits_of_hyphenated(ascii_lower(s)) =~= ascii_lower(d));
        hex_ignores_case(d);
    }
}

/// The four characters of `s` from position `i` on are hexadecimal digits.
pub open spec fn quad_is_hex(s: Seq<char>, i: int) -> bool {
    is_hex(s[i]) && is_hex(s[i + 1]) && is_hex(s[i + 2]) && is_hex(s[i + 3])
}

/// The number that the four digits of `s` from position `i` on write.
pub open spec fn quad(s: Seq<char>, i: int) -> nat {
    hex_value(s[i]) * 4096 + hex_value(s[i + 1]) * 256 + hex_value(s[i + 2]) * 16 + hex_value(
        s[i + 3],
    )
}

proof fn hex_number_of_next_quad(d: Seq<char>, i: int)
    requires
        0 <= i <= d.len() - 4,
    ensures
        hex_number(d.subrange(0, i + 4)) == hex_number(d.subrange(0, i)) * 65536 + quad(d, i),
{
    assert forall|k: int| i <= k < i + 4 implies hex_number(#[trigger] d.subrange(0, k + 1))
        == hex_number(d.subrange(0, k)) * 16 + hex_value(d[k]) by {
        assert(d.subrange(0, k + 1).drop_last() =~= d.subrange(0, k));
    }
    assert(hex_number(d.subrange(0, i + 1)) == hex_number(d.subrange(0, i)) * 16 + hex_value(d[i]));
    let two = d.subrange(0, i + 1 + 1);
    let three = d.subrange(0, i + 2 + 1);
    let four = d.subrange(0, i + 3 + 1);
    assert(hex_number(four) == hex_number(three) * 16 + hex_value(d[i + 3]));
    assert(hex_number(three) == hex_number(two) * 16 + hex_value(d[i + 2]));
}

/// A hyphenated text writes the UUID whose eight four-digit groups it spells out.
pub proof fn hyphenated_value_by_quads(s: Seq<char>, u: u128)
    requires
        s.len() == 36,
        s[8] == '-' && s[13] == '-' && s[18] == '-' && s[23] == '-',
        quad_is_hex(s, 0) && quad_is_hex(s, 4) && quad_is_hex(s, 9) && quad_is_hex(s, 14),
        quad_is_hex(s, 19) && quad_is_hex(s, 24) && quad_is_hex(s, 28) && quad_is_hex(s, 32),
        u == ((((((quad(s, 0) * 65536 + quad(s, 4)) * 65536 + quad(s, 9)) * 65536 + quad(s, 14))
            * 65536 + quad(s, 19)) * 65536 + quad(s, 24)) * 65536 + quad(s, 28)) * 65536 + quad(
            s,
            32,
        ),
    ensures
        uuid_value(s) == Some(u),
{
    let d = digits_of_hyphenated(s);
    assert(d.len() == 32);
    assert(all_hex(d)) by {
        assert forall|i: int| 0 <= i < d.len() implies is_hex(#[trigger] d[i]) by {
            if i < 8 {
                assert(d[i] == s[i]);
            } else if i < 12 {
                assert(d[i] == s[i + 1]);
            } else if i < 16 {
                assert(d[i] == s[i + 2]);
            } else if i < 20 {
                assert(d[i] == s[i + 3]);
            } else {
                assert(d[i] == s[i + 4]);
            }
        }
    }
    assert(hex_number(d) == u) by {
        assert(quad(d, 0) == quad(s, 0) && quad(d, 4) == quad(s, 4));
        assert(quad(d, 8) == quad(s, 9) && quad(d, 12) == quad(s, 14) && quad(d, 16) == quad(s, 19));
        assert(quad(d, 20) == quad(s, 24) && quad(d, 24) == quad(s, 28) && quad(d, 28) == quad(s, 32));
        assert(d.subrange(0, 0) =~= seq![]);
        hex_number_of_next_quad(d, 0);
        hex_number_of_next_quad(d, 4);
        hex_number_of_next_quad(d, 8);
        hex_number_of_next_quad(d, 12);
        hex_number_of_next_quad(d, 16);
        hex_number_of_next_quad(d, 20);
        hex_number_of_next_quad(d, 24);
        hex_number_of_next_quad(d, 28);
        assert(d.subrange(0, 32) =~= d);
    }
}

/// The text of a UUID reads back as that UUID.
pub proof fn uuid_text_reads_back(u: u128)
    ensures
        uuid_text(u).len() == 36,
        uuid_value(uuid_text(u)) == Some(u),
{
    pow16_of_32();
    hex_text_reads_back(u as nat, 32);
    let d = hex_text(u as nat, 32);
    assert(digits_of_hyphenated(hyphenate(d)) =~= d);
}

/// Two UUIDs with the same text are the same UUID.
pub proof fn uuid_text_injective(u: u128, v: u128)
    requires
        uuid_text(u) == uuid_text(v),
    ensures
        u == v,
{
    uuid_text_reads_back(u);
    uuid_text_reads_back(v);
}

/// A hyphenated text that writes a UUID is, in lower case, that UUID's own text.
pub proof fn hyphenated_text_is_canonical(s: Seq<char>, u: u128)
    requires
        s.len() == 36,
        uuid_value(s) == Some(u),
    ensures
        ascii_lower(s) == uuid_text(u),
{
    let d = digits_of_hyphenated(s);
    pow16_of_32();
    hex_number_bound(d);
    hex_number_writes_back(d);
    assert(ascii_lower(s) =~= hyphenate(ascii_lower(d)));
}

/// Letter case makes no difference to which UUID a text writes, nor to whether it
/// writes one.
pub proof fn uuid_value_ignores_case(s: Seq<char>)
    ensures
        uuid_value(ascii_lower(s)) == uuid_value(s),
{
    let lower = ascii_lower(s);
    if s.len() == 32 {
        hex_ignores_case(s);
    } else if s.len() == 36 {
        hyphenated_ignores_case(s);
    } else if s.len() == 38 {
        assert(lower.subrange(1, 37) =~= ascii_lower(s.subrange(1, 37)));
        hyphenated_ignores_case(s.subrange(1, 37));
    } else if s.len() == 45 {
        assert(ascii_lower(lower.subrange(0, 9)) =~= ascii_lower(s.subrange(0, 9)));
        assert(lower.subrange(9, 45) =~= ascii_lower(s.subrange(9, 45)));
        hyphenated_ignores_case(s.subrange(9, 45));
    }
}

/// The hexadecimal digits, in either case, count from zero to fifteen; no other character is
/// one.
pub proof fn hex_digits_count_to_fifteen(c: char)
    ensures
        is_hex(c) == ({
            ||| c == '0' || c == '1' || c == '2' || c == '3' || c == '4'
            ||| c == '5' || c == '6' || c == '7' || c == '8' || c == '9'
            ||| c == 'a' || c == 'b' || c == 'c' || c == 'd' || c == 'e' || c == 'f'
            ||| c == 'A' || c == 'B' || c == 'C' || c == 'D' || c == 'E' || c == 'F'
        }),
        is_hex(c) ==> hex_value(c) < 16,
        '0' <= c <= '9' ==> c as u32 == '0' as u32 + hex_value(c),
        'a' <= c <= 'f' ==> c as u32 + 10 == 'a' as u32 + hex_value(c),
        'A' <= c <= 'F' ==> c as u32 + 10 == 'A' as u32 + hex_value(c),
{
}

/// The UUID of a hyphenated text is also written by its digits alone, by the text in braces,
/// and by the text behind `urn:uuid:` in any case.
pub proof fn every_form_writes_the_same_uuid(t: Seq<char>, u: u128, prefix: Seq<char>)
    requires
        t.len() == 36,
        uuid_value(t) == Some(u),
        same_but_for_case(prefix, seq!['u', 'r', 'n', ':', 'u', 'u', 'i', 'd', ':']),
    ensures
        uuid_value(
            t.subrange(0, 8) + t.subrange(9, 13) + t.subrange(14, 18) + t.subrange(19, 23)
                + t.subrange(24, 36),
        ) == Some(u),
        uuid_value(seq!['{'] + t + seq!['}']) == Some(u),
        uuid_value(prefix + t) == Some(u),
{
    let braced = seq!['{'] + t + seq!['}'];
    assert(braced.subrange(1, 37) =~= t);
    let urn = seq!['u', 'r', 'n', ':', 'u', 'u', 'i', 'd', ':'];
    let full = prefix + t;
    assert(full.subrange(9, 45) =~= t);
    assert(full.subrange(0, 9) =~= prefix);
    assert(ascii_lower(prefix) =~= urn) by {
        assert forall|i: int| 0 <= i < 9 implies ascii_lower(prefix)[i] == urn[i] by {
            assert(same_letter(prefix[i], urn[i]));
        }
    }
}

/// A text that writes a UUID has one of four forms: thirty-two digits; these with hyphens at
/// their four places; that in braces; or that behind `urn:uuid:` in any case.
pub proof fn no_other_text_writes_a_uuid(s: Seq<char>)
    requires
        uuid_value(s) is Some,
    ensures
        s.len() == 32 || s.len() == 36 || s.len() == 38 || s.len() == 45,
        s.len() == 32 ==> forall|i: int| 0 <= i < 32 ==> is_hex(#[trigger] s[i]),
        s.len() == 36 ==> forall|i: int|
            0 <= i < 36 ==> if i == 8 || i == 13 || i == 18 || i == 23 {
                #[trigger] s[i] == '-'
            } else {
                is_hex(s[i])
            },
        s.len() == 38 ==> s[0] == '{' && s[37] == '}' && uuid_value(s.subrange(1, 37))
            == uuid_value(s),
        s.len() == 45 ==> same_but_for_case(
            s.subrange(0, 9),
            seq!['u', 'r', 'n', ':', 'u', 'u', 'i', 'd', ':'],
        ) && uuid_value(s.subrange(9, 45)) == uuid_value(s),
{
    if s.len() == 36 {
        let d = digits_of_hyphenated(s);
        assert forall|i: int| 0 <= i < 36 implies if i == 8 || i == 13 || i == 18 || i == 23 {
            #[trigger] s[i] == '-'
        } else {
            is_hex(s[i])
        } by {
            if i < 8 {
                assert(is_hex(d[i]));
            } else if 8 < i < 13 {
                assert(is_hex(d[i - 1]));
            } else if 13 < i < 18 {
                assert(is_hex(d[i - 2]));
            } else if 18 < i < 23 {
                assert(is_hex(d[i - 3]));
            } else if 23 < i {
                assert(is_hex(d[i - 4]));
            }
        }
    } else if s.len() == 45 {
        let head = s.subrange(0, 9);
        let urn = seq!['u', 'r', 'n', ':', 'u', 'u', 'i', 'd', ':'];
        assert forall|i: int| 0 <= i < 9 implies same_letter(#[trigger] head[i], urn[i]) by {
            assert(ascii_lower(head)[i] == urn[i]);
        }
    }
}

/// The text of a UUID has hyphens at their four places, and elsewhere digits that are not
/// capitals.
pub proof fn uuid_text_is_hyphenated_and_lower_case(u: u128)
    ensures
        uuid_text(u).len() == 36,
        forall|i: int|
            0 <= i < 36 ==> if i == 8 || i == 13 || i == 18 || i == 23 {
                #[trigger] uuid_text(u)[i] == '-'
            } else {
                '0' <= uuid_text(u)[i] <= '9' || 'a' <= uuid_text(u)[i] <= 'f'
            },
{
    let text = uuid_text(u);
    uuid_text_reads_back(u);
    hyphenated_text_is_canonical(text, u);
    no_other_text_writes_a_uuid(text);
    assert forall|i: int| 0 <= i < 36 implies if i == 8 || i == 13 || i == 18 || i == 23 {
        #[trigger] text[i] == '-'
    } else {
        '0' <= text[i] <= '9' || 'a' <= text[i] <= 'f'
    } by {
        assert(ascii_lower(text)[i] == text[i]);
    }
}

} // verus!
