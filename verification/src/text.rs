//! Text helpers: letter case, decimal numbers and padding.

use vstd::prelude::*;
use vstd::utf8::is_ascii_chars;

verus! {

/// The lower-case form of an ASCII capital; every other character is itself.
pub open spec fn ascii_lower_char(c: char) -> char {
    if 'A' <= c <= 'Z' {
        (c as u32 + 32) as char
    } else {
        c
    }
}

/// `s` with its ASCII capitals in lower case.
pub open spec fn ascii_lower(s: Seq<char>) -> Seq<char> {
    s.map_values(|c: char| ascii_lower_char(c))
}

/// What `str::to_lowercase` makes of a text that is not all ASCII.
pub uninterp spec fn unicode_lowercase(s: Seq<char>) -> Seq<char>;

/// `s` in lower case.
pub open spec fn lowercase(s: Seq<char>) -> Seq<char> {
    if is_ascii_chars(s) {
        ascii_lower(s)
    } else {
        unicode_lowercase(s)
    }
}

/// `str::to_lowercase`: in a text that is all ASCII, the capitals `A` to `Z` turn into
/// `a` to `z` and nothing else changes. What becomes of any other text depends on the
/// text alone, and is left to the name.
pub assume_specification[ str::to_lowercase ](s: &str) -> (lower: String)
    ensures
        is_ascii_chars(s@) ==> lower@ == ascii_lower(s@),
        !is_ascii_chars(s@) ==> lower@ == unicode_lowercase(s@),
;

/// The lower-case form of an ASCII capital; every other character is itself.
fn lower_char(c: char) -> (lower: char)
    ensures
        lower == ascii_lower_char(c),
{
    if 'A' <= c && c <= 'Z' {
        (c as u8 + 32) as char
    } else {
        c
    }
}

/// Whether two texts are the same once their ASCII capitals are in lower case.
pub(crate) fn eq_ignore_ascii_case(a: &str, b: &str) -> (same: bool)
    ensures
        same == (ascii_lower(a@) == ascii_lower(b@)),
{
    let len: usize = a.unicode_len();
    if len != b.unicode_len() {
        assert(ascii_lower(a@).len() != ascii_lower(b@).len());
        return false;
    }
    let mut i: usize = 0;
    while i < len
        invariant
            len == a@.len(),
            len == b@.len(),
            i <= len,
            forall|k: int| 0 <= k < i ==> ascii_lower(a@)[k] == ascii_lower(b@)[k],
        decreases len - i,
    {
        if lower_char(a.get_char(i)) != lower_char(b.get_char(i)) {
            assert(ascii_lower(a@)[i as int] != ascii_lower(b@)[i as int]);
            return false;
        }
        i = i + 1;
    }
    assert(ascii_lower(a@) =~= ascii_lower(b@));
    true
}

/// The decimal digit for `d`, which is below ten.
pub open spec fn digit_char(d: nat) -> char {
    ('0' as u32 + d) as char
}

/// The decimal digits of `n`, without leading zeros.
pub open spec fn digits(n: nat) -> Seq<char>
    decreases n,
{
    if n < 10 {
        seq![digit_char(n)]
    } else {
        digits(n / 10).push(digit_char(n % 10))
    }
}

/// `n` in decimal, with a leading minus sign where it is negative.
pub open spec fn decimal(n: int) -> Seq<char> {
    if n < 0 {
        seq!['-'] + digits((-n) as nat)
    } else {
        digits(n as nat)
    }
}

/// The text of one decimal digit.
fn digit_text(d: u32) -> (text: &'static str)
    requires
        d < 10,
    ensures
        text@ == seq![digit_char(d as nat)],
{
    proof {
        reveal_strlit("0");
        reveal_strlit("1");
        reveal_strlit("2");
        reveal_strlit("3");
        reveal_strlit("4");
        reveal_strlit("5");
        reveal_strlit("6");
        reveal_strlit("7");
        reveal_strlit("8");
        reveal_strlit("9");
    }
    match d {
        0 => "0",
        1 => "1",
        2 => "2",
        3 => "3",
        4 => "4",
        5 => "5",
        6 => "6",
        7 => "7",
        8 => "8",
        _ => "9",
    }
}

/// The decimal digits of a number, without leading zeros.
fn digits_text(n: u32) -> (text: String)
    ensures
        text@ == digits(n as nat),
    decreases n,
{
    if n < 10 {
        digit_text(n).to_owned()
    } else {
        let text = digits_text(n / 10).concat(digit_text(n % 10));
        assert(text@ =~= digits(n as nat));
        text
    }
}

/// A number in decimal.
pub(crate) fn i16_text(n: i16) -> (text: String)
    ensures
        text@ == decimal(n as int),
{
    if n < 0 {
        proof {
            reveal_strlit("-");
        }
        let text = "-".to_owned().concat(digits_text((-(n as i32)) as u32).as_str());
        assert(text@ =~= decimal(n as int));
        text
    } else {
        digits_text(n as u32)
    }
}

/// `count` copies of the space character.
pub open spec fn spaces(count: nat) -> Seq<char> {
    Seq::new(count, |i: int| ' ')
}

/// `s` with as many spaces before it as bring it to `width` characters; a text
/// that is already that long stays as it is.
pub open spec fn pad_left(s: Seq<char>, width: nat) -> Seq<char> {
    if s.len() < width {
        spaces((width - s.len()) as nat) + s
    } else {
        s
    }
}

/// Right-aligns a text in a field of `width` characters.
pub fn right_align(text: &str, width: usize) -> (padded: String)
    ensures
        padded@ == pad_left(text@, width as nat),
{
    let len: usize = text.unicode_len();
    let mut padded = String::new();
    let mut filled: usize = len;
    while filled < width
        invariant
            len == text@.len(),
            len <= filled,
            filled <= width || filled == len,
            padded@ == spaces((filled - len) as nat),
        decreases width - filled,
    {
        proof {
            reveal_strlit(" ");
        }
        padded.append(" ");
        filled = filled + 1;
        assert(padded@ =~= spaces((filled - len) as nat));
    }
    padded.append(text);
    assert(padded@ =~= pad_left(text@, width as nat));
    padded
}

/// The view of an optional text.
pub open spec fn text_option(text: Option<&str>) -> Option<Seq<char>> {
    match text {
        Some(t) => Some(t@),
        None => None,
    }
}

/// The view of an optional owned text.
pub open spec fn string_option(text: Option<String>) -> Option<Seq<char>> {
    match text {
        Some(t) => Some(t@),
        None => None,
    }
}

/// The views of a run of texts.
pub open spec fn texts(s: Seq<String>) -> Seq<Seq<char>> {
    s.map_values(|t: String| t@)
}

/// ASCII texts that differ only in case have one lower-case form.
pub proof fn ascii_lowercase_ignores_case(a: Seq<char>, b: Seq<char>)
    requires
        is_ascii_chars(a),
        is_ascii_chars(b),
        ascii_lower(a) == ascii_lower(b),
    ensures
        lowercase(a) == lowercase(b),
{
}

/// In ASCII a text and its lower-case form have the same length, and differ just where the text
/// has a capital: there the lower-case form has the letter thirty-two places further on. So
/// texts have one lower-case form just where they agree at every place but for case.
pub proof fn lowercase_goes_letter_by_letter(a: Seq<char>, b: Seq<char>)
    requires
        is_ascii_chars(a),
        is_ascii_chars(b),
    ensures
        (lowercase(a) == lowercase(b)) == same_but_for_case(a, b),
        (ascii_lower(a) == ascii_lower(b)) == same_but_for_case(a, b),
{
    let la = ascii_lower(a);
    let lb = ascii_lower(b);
    assert(la.len() == a.len() && lb.len() == b.len());
    if la == lb {
        assert forall|i: int| 0 <= i < a.len() implies same_letter(#[trigger] a[i], b[i]) by {
            assert(la[i] == lb[i]);
        }
    }
    if same_but_for_case(a, b) {
        assert forall|i: int| 0 <= i < a.len() implies la[i] == lb[i] by {
            assert(same_letter(a[i], b[i]));
        }
        assert(la =~= lb);
    }
}

/// The characters are the same, or one ASCII letter in both cases.
pub open spec fn same_letter(c: char, d: char) -> bool {
    ||| c == d
    ||| 'A' <= c <= 'Z' && d as u32 == c as u32 + 32
    ||| 'A' <= d <= 'Z' && c as u32 == d as u32 + 32
}

/// The texts have the same characters at the same places, but for the case of ASCII letters.
pub open spec fn same_but_for_case(a: Seq<char>, b: Seq<char>) -> bool {
    a.len() == b.len() && forall|i: int| 0 <= i < a.len() ==> same_letter(#[trigger] a[i], b[i])
}

/// The number that a run of decimal digits writes.
pub open spec fn number_of(s: Seq<char>) -> int
    decreases s.len(),
{
    if s.len() == 0 {
        0
    } else {
        10 * number_of(s.drop_last()) + (s.last() as int - '0' as int)
    }
}

/// The digits of a number are decimal digits, write that number, and begin with a zero only
/// for zero itself.
pub proof fn digits_write_the_number(n: nat)
    ensures
        digits(n).len() > 0,
        forall|i: int| 0 <= i < digits(n).len() ==> '0' <= #[trigger] digits(n)[i] <= '9',
        number_of(digits(n)) == n,
        digits(n)[0] == '0' ==> n == 0 && digits(n).len() == 1,
    decreases n,
{
    let s = digits(n);
    if n < 10 {
        assert(s.drop_last() =~= seq![]);
        assert(number_of(s.drop_last()) == 0);
    } else {
        digits_write_the_number(n / 10);
        let head = digits(n / 10);
        assert(s.drop_last() =~= head);
        assert(s[0] == head[0]);
        assert forall|i: int| 0 <= i < s.len() implies '0' <= #[trigger] s[i] <= '9' by {
            if i < head.len() {
                assert(s[i] == head[i]);
            }
        }
    }
}

/// The text is one or more decimal digits that write `n`, without needless zeros.
pub open spec fn writes_number(s: Seq<char>, n: int) -> bool {
    &&& s.len() > 0
    &&& forall|i: int| 0 <= i < s.len() ==> '0' <= #[trigger] s[i] <= '9'
    &&& number_of(s) == n
    &&& s[0] == '0' ==> s.len() == 1
}

/// A number in decimal has a minus sign in front just where it is negative, and digits that
/// write its size.
pub proof fn decimal_writes_the_number(n: int)
    ensures
        n >= 0 ==> writes_number(decimal(n), n),
        n < 0 ==> decimal(n).len() > 0 && decimal(n)[0] == '-' && writes_number(
            decimal(n).skip(1),
            -n,
        ),
{
    if n < 0 {
        digits_write_the_number((-n) as nat);
        assert(decimal(n).skip(1) =~= digits((-n) as nat));
    } else {
        digits_write_the_number(n as nat);
    }
}

/// An aligned text is as long as the field, or as the text where that is longer; it ends in the
/// text and has nothing but spaces before it.
pub proof fn alignment_only_adds_spaces(s: Seq<char>, width: nat)
    ensures
        ({
            let padded = pad_left(s, width);
            let added = padded.len() - s.len();
            &&& s.len() < width ==> padded.len() == width
            &&& s.len() >= width ==> padded.len() == s.len()
            &&& padded.skip(added) == s
            &&& forall|i: int| 0 <= i < added ==> #[trigger] padded[i] == ' '
        }),
{
    let padded = pad_left(s, width);
    assert(padded.skip(padded.len() - s.len()) =~= s);
}

/// The views of optional texts and of runs of texts show each text whole.
pub proof fn texts_are_shown_whole(text: &str, owned: String, all: Seq<String>)
    ensures
        text_option(Some(text)) == Some(text@),
        text_option(None) == None::<Seq<char>>,
        string_option(Some(owned)) == Some(owned@),
        string_option(None) == None::<Seq<char>>,
        texts(all).len() == all.len(),
        forall|i: int| 0 <= i < all.len() ==> #[trigger] texts(all)[i] == all[i]@,
{
}

/// A text that is not all ASCII has the lower-case form that Unicode gives it.
pub proof fn other_text_is_lowered_by_unicode(s: Seq<char>)
    requires
        !is_ascii_chars(s),
    ensures
        lowercase(s) == unicode_lowercase(s),
{
}

/// Lowering ASCII capitals keeps the length of any text and every character but the capitals,
/// each of which turns into its own small letter.
pub proof fn only_capitals_are_lowered(s: Seq<char>)
    ensures
        ascii_lower(s).len() == s.len(),
        forall|i: int|
            0 <= i < s.len() && 'A' <= s[i] <= 'Z' ==> (#[trigger] ascii_lower(s)[i]) as u32
                == s[i] as u32 + 32,
        forall|i: int|
            0 <= i < s.len() && !('A' <= s[i] <= 'Z') ==> #[trigger] ascii_lower(s)[i] == s[i],
{
}

} // verus!
