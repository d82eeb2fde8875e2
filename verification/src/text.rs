//! Operations on text that the models and the request layer rely on.
//!
//! Some of the functions here are thin calls into `std`; the contract of such
//! a function is taken from the documentation of the function it calls and is
//! not proved. The others are proved.

use vstd::prelude::*;

verus! {

/// The lowercase form of a string, as `str::to_lowercase` computes it from
/// the Unicode case mappings.
pub uninterp spec fn lowercase(s: Seq<char>) -> Seq<char>;

/// Whether a character has the Unicode property `White_Space`: the control
/// characters from tab to carriage return, the space, the next-line control,
/// the no-break space, and the spaces and separators of the general
/// punctuation block and beyond.
pub open spec fn white_space(c: char) -> bool {
    let code = c as u32;
    ||| 0x09 <= code <= 0x0D
    ||| code == 0x20
    ||| code == 0x85
    ||| code == 0xA0
    ||| code == 0x1680
    ||| 0x2000 <= code <= 0x200A
    ||| code == 0x2028
    ||| code == 0x2029
    ||| code == 0x202F
    ||| code == 0x205F
    ||| code == 0x3000
}

/// The fields of `text`, read after the characters in `field` have been read
/// as the beginning of a field.
pub open spec fn fields_after(text: Seq<char>, field: Seq<char>) -> Seq<Seq<char>>
    decreases text.len(),
{
    let ended = if field.len() == 0 {
        Seq::<Seq<char>>::empty()
    } else {
        seq![field]
    };
    if text.len() == 0 {
        ended
    } else if white_space(text[0]) {
        ended + fields_after(text.skip(1), Seq::empty())
    } else {
        fields_after(text.skip(1), field.push(text[0]))
    }
}

/// The fields of a string: its maximal runs of characters that are not white
/// space, in order.
pub open spec fn whitespace_fields(s: Seq<char>) -> Seq<Seq<char>> {
    fields_after(s, Seq::empty())
}

/// The decimal numeral of `n`, most significant digit first, without sign or
/// leading zeros.
pub open spec fn decimal(n: nat) -> Seq<char>
    decreases n,
{
    if n < 10 {
        seq![decimal_digit(n)]
    } else {
        decimal(n / 10).push(decimal_digit(n % 10))
    }
}

/// The character for a single decimal digit.
pub open spec fn decimal_digit(d: nat) -> char
    recommends
        d < 10,
{
    if d == 0 {
        '0'
    } else if d == 1 {
        '1'
    } else if d == 2 {
        '2'
    } else if d == 3 {
        '3'
    } else if d == 4 {
        '4'
    } else if d == 5 {
        '5'
    } else if d == 6 {
        '6'
    } else if d == 7 {
        '7'
    } else if d == 8 {
        '8'
    } else {
        '9'
    }
}

/// What follows the last `delimiter` in `s`, where `s` holds one.
pub open spec fn text_after_last(s: Seq<char>, delimiter: char) -> Option<Seq<char>> {
    match s.index_of_last(delimiter) {
        Some(i) => Some(s.skip(i + 1)),
        None => None,
    }
}

/// `str::to_lowercase`: the lowercase form of `s`.
#[verifier::external_body]
pub(crate) fn to_lowercase(s: &str) -> (lower: String)
    ensures
        lower@ == lowercase(s@),
{
    s.to_lowercase()
}

/// `str::split_whitespace`, collected: the fields of `s` between white space,
/// each as an owned string. The standard library splits at the characters
/// that have the Unicode property `White_Space`.
#[verifier::external_body]
pub(crate) fn split_whitespace(s: &str) -> (fields: Vec<String>)
    ensures
        fields.deep_view() == whitespace_fields(s@),
{
    s.split_whitespace().map(|field| field.to_string()).collect()
}

/// The text of a single decimal digit.
fn digit_text(d: u64) -> (text: &'static str)
    requires
        d < 10,
    ensures
        text@ == seq![decimal_digit(d as nat)],
{
    proof {
        reveal_strlit("0");
        reveal_strlit("1");
        reveal_strlit("2");
        reveal_strlit("3");
        reveal_strlit("4");
        reveal_strlit("5");
        reveal_strlit("6");
        reveal_strlit("7");
        reveal_strlit("8");
        reveal_strlit("9");
    }
    let text = if d == 0 {
        "0"
    } else if d == 1 {
        "1"
    } else if d == 2 {
        "2"
    } else if d == 3 {
        "3"
    } else if d == 4 {
        "4"
    } else if d == 5 {
        "5"
    } else if d == 6 {
        "6"
    } else if d == 7 {
        "7"
    } else if d == 8 {
        "8"
    } else {
        "9"
    };
    assert(text@ =~= seq![decimal_digit(d as nat)]);
    text
}

/// The decimal numeral of `n`.
pub fn decimal_string(n: u64) -> (numeral: String)
    ensures
        numeral@ == decimal(n as nat),
    decreases n,
{
    if n < 10 {
        String::from_str(digit_text(n))
    } else {
        let numeral = decimal_string(n / 10).concat(digit_text(n % 10));
        assert(numeral@ =~= decimal((n / 10) as nat).push(decimal_digit((n % 10) as nat)));
        numeral
    }
}

/// Whether a character is white space.
pub fn is_white_space(c: char) -> (yes: bool)
    ensures
        yes == white_space(c),
{
    let code: u32 = c as u32;
    (0x09 <= code && code <= 0x0D) || code == 0x20 || code == 0x85 || code == 0xA0 || code
        == 0x1680 || (0x2000 <= code && code <= 0x200A) || code == 0x2028 || code == 0x2029 || code
        == 0x202F || code == 0x205F || code == 0x3000
}

/// `str::rsplit_once`, keeping the part that follows: the text after the last
/// `delimiter` in `s`, or `None` where `s` holds no `delimiter`.
#[verifier::external_body]
pub(crate) fn after_last(s: &str, delimiter: char) -> (tail: Option<String>)
    ensures
        match text_after_last(s@, delimiter) {
            Some(rest) => tail matches Some(t) && t@ == rest,
            None => tail is None,
        },
{
    s.rsplit_once(delimiter).map(|(_, tail)| tail.to_string())
}

/// Whether two strings hold the same text.
pub fn same_text(a: &str, b: &str) -> (same: bool)
    ensures
        same == (a@ == b@),
{
    let left = a.as_bytes();
    let right = b.as_bytes();
    if left.len() != right.len() {
        return false;
    }
    let mut i: usize = 0;
    while i < left.len()
        invariant
            left@ == vstd::utf8::encode_utf8(a@),
            right@ == vstd::utf8::encode_utf8(b@),
            left@.len() == right@.len(),
            i <= left@.len(),
            forall|j: int| 0 <= j < i ==> left@[j] == right@[j],
        decreases left@.len() - i,
    {
        if left[i] != right[i] {
            return false;
        }
        i += 1;
    }
    assert(left@ =~= right@);
    proof {
        vstd::utf8::encode_utf8_decode_utf8(a@);
        vstd::utf8::encode_utf8_decode_utf8(b@);
    }
    true
}

} // verus!
