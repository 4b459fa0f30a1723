//! Text operations on `&str`, stated over the sequence of characters.
use vstd::prelude::*;
use vstd::string::*;
use vstd::utf8::*;

verus! {

/// The characters of an optional text.
pub open spec fn opt_text(text: Option<String>) -> Option<Seq<char>> {
    match text {
        Some(t) => Some(t@),
        None => None,
    }
}

/// The characters of an optional borrowed text.
pub open spec fn opt_str(text: Option<&str>) -> Option<Seq<char>> {
    match text {
        Some(t) => Some(t@),
        None => None,
    }
}

/// Whether two texts hold the same characters.
pub fn str_eq(a: &str, b: &str) -> (same: bool)
    ensures
        same == (a@ == b@),
{
    broadcast use encode_utf8_decode_utf8;

    let x = a.as_bytes();
    let y = b.as_bytes();
    if x.len() != y.len() {
        return false;
    }
    let mut i: usize = 0;
    while i < x.len()
        invariant
            x@ == encode_utf8(a@),
            y@ == encode_utf8(b@),
            x@.len() == y@.len(),
            i <= x@.len(),
            x@.take(i as int) == y@.take(i as int),
        decreases x@.len() - i,
    {
        if x[i] != y[i] {
            return false;
        }
        proof {
            assert(x@.take(i + 1) =~= x@.take(i as int).push(x@[i as int]));
            assert(y@.take(i + 1) =~= y@.take(i as int).push(y@[i as int]));
        }
        i += 1;
    }
    proof {
        assert(x@.take(i as int) =~= x@);
        assert(y@.take(i as int) =~= y@);
        assert(decode_utf8(encode_utf8(a@)) == a@);
        assert(decode_utf8(encode_utf8(b@)) == b@);
    }
    true
}

/// A borrow of an optional text.
pub fn opt_borrow(text: &Option<String>) -> (view: Option<&str>)
    ensures
        opt_str(view) == opt_text(*text),
{
    match text {
        Some(t) => Some(t.as_str()),
        None => None,
    }
}

/// The text before and after the first `c`, where `c` occurs.
pub open spec fn split_at_first(s: Seq<char>, c: char) -> Option<(Seq<char>, Seq<char>)> {
    if s.contains(c) {
        let i = first_index(s, c);
        Some((s.take(i), s.skip(i + 1)))
    } else {
        None
    }
}

/// The index of the first `c` in `s`, or the length of `s` where there is none.
pub open spec fn first_index(s: Seq<char>, c: char) -> int
    decreases s.len(),
{
    if s.len() == 0 {
        0
    } else if s[0] == c {
        0
    } else {
        1 + first_index(s.skip(1), c)
    }
}

pub proof fn lemma_first_index(s: Seq<char>, c: char, i: int)
    requires
        0 <= i < s.len(),
        s[i] == c,
        forall|j: int| 0 <= j < i ==> s[j] != c,
    ensures
        first_index(s, c) == i,
        s.contains(c),
    decreases s.len(),
{
    if i > 0 {
        lemma_first_index(s.skip(1), c, i - 1);
    }
}

/// Splits `s` at the first `c`.
pub fn split_once<'a>(s: &'a str, c: char) -> (parts: Option<(&'a str, &'a str)>)
    ensures
        parts is Some <==> s@.contains(c),
        parts matches Some((before, after)) ==> split_at_first(s@, c) == Some((before@, after@)),
{
    let n: usize = s.unicode_len();
    let mut i: usize = 0;
    for ch in it: s.chars()
        invariant
            n == s@.len(),
            it.seq() == s@,
            i == it.index(),
            forall|j: int| 0 <= j < i ==> s@[j] != c,
    {
        if ch == c {
            proof {
                lemma_first_index(s@, c, i as int);
                assert(s@.subrange(0, i as int) =~= s@.take(i as int));
                assert(s@.subrange(i + 1, n as int) =~= s@.skip(i + 1));
            }
            return Some((s.substring_char(0, i), s.substring_char(i + 1, n)));
        }
        i += 1;
    }
    None
}

/// What follows `prefix` in `s`, where `s` begins with it.
pub open spec fn after_prefix(s: Seq<char>, prefix: Seq<char>) -> Option<Seq<char>> {
    if prefix.is_prefix_of(s) {
        Some(s.skip(prefix.len() as int))
    } else {
        None
    }
}

/// What precedes `suffix` in `s`, where `s` ends with it.
pub open spec fn before_suffix(s: Seq<char>, suffix: Seq<char>) -> Option<Seq<char>> {
    if suffix.is_suffix_of(s) {
        Some(s.take(s.len() - suffix.len()))
    } else {
        None
    }
}

/// Removes `prefix` from the front of `s`.
pub fn strip_prefix<'a>(s: &'a str, prefix: &str) -> (rest: Option<&'a str>)
    ensures
        opt_str(rest) == after_prefix(s@, prefix@),
{
    let n: usize = s.unicode_len();
    let m: usize = prefix.unicode_len();
    if m <= n && str_eq(s.substring_char(0, m), prefix) {
        assert(s@.subrange(m as int, n as int) =~= s@.skip(m as int));
        Some(s.substring_char(m, n))
    } else {
        None
    }
}

/// Removes `suffix` from the end of `s`.
pub fn strip_suffix<'a>(s: &'a str, suffix: &str) -> (rest: Option<&'a str>)
    ensures
        opt_str(rest) == before_suffix(s@, suffix@),
{
    let n: usize = s.unicode_len();
    let m: usize = suffix.unicode_len();
    if m <= n && str_eq(s.substring_char(n - m, n), suffix) {
        assert(s@.subrange(0, n - m) =~= s@.take(n - m));
        Some(s.substring_char(0, n - m))
    } else {
        None
    }
}

/// Whether a character is a decimal digit of ASCII.
pub open spec fn is_digit(c: char) -> bool {
    '0' <= c <= '9'
}

/// Whether every character of `s` is a decimal digit of ASCII.
pub open spec fn all_digits(s: Seq<char>) -> bool {
    forall|i: int| 0 <= i < s.len() ==> is_digit(#[trigger] s[i])
}

/// Tests whether `s` is made of ASCII digits alone.
pub fn is_digits(s: &str) -> (digits: bool)
    ensures
        digits == all_digits(s@),
{
    for ch in it: s.chars()
        invariant
            it.seq() == s@,
            forall|j: int| 0 <= j < it.index() ==> is_digit(#[trigger] s@[j]),
    {
        if !('0' <= ch && ch <= '9') {
            assert(!is_digit(s@[it.index()]));
            return false;
        }
    }
    true
}

/// The digit that stands for `d`.
pub open spec fn digit(d: nat) -> char {
    (48 + d) as char
}

/// The decimal digits of `n`, without leading zeros.
pub open spec fn decimal(n: nat) -> Seq<char>
    decreases n,
{
    if n < 10 {
        seq![digit(n)]
    } else {
        decimal(n / 10).push(digit(n % 10))
    }
}

/// `count` zeros.
pub open spec fn zeros(count: nat) -> Seq<char> {
    Seq::new(count, |i: int| '0')
}

/// The decimal digits of `n`, filled up with leading zeros to `width` digits.
pub open spec fn padded_decimal(n: nat, width: nat) -> Seq<char> {
    if decimal(n).len() >= width {
        decimal(n)
    } else {
        zeros((width - decimal(n).len()) as nat) + decimal(n)
    }
}

/// The number that a sequence of digits stands for.
pub open spec fn digits_value(s: Seq<char>) -> int
    decreases s.len(),
{
    if s.len() == 0 {
        0
    } else {
        10 * digits_value(s.drop_last()) + (s.last() as int - 48)
    }
}

fn digit_text(d: u128) -> (text: &'static str)
    requires
        d < 10,
    ensures
        text@ == seq![digit(d as nat)],
{
    proof {
        reveal_strlit("0");
        reveal_strlit("1");
        reveal_strlit("2");
        reveal_strlit("3");
        reveal_strlit("4");
        reveal_strlit("5");
        reveal_strlit("6");
        reveal_strlit("7");
        reveal_strlit("8");
        reveal_strlit("9");
    }
    let text: &'static str = match d {
        0 => "0",
        1 => "1",
        2 => "2",
        3 => "3",
        4 => "4",
        5 => "5",
        6 => "6",
        7 => "7",
        8 => "8",
        _ => "9",
    };
    assert(text@ =~= seq![digit(d as nat)]);
    text
}

/// Writes `n` in decimal.
pub fn decimal_text(n: u128) -> (text: String)
    ensures
        text@ == decimal(n as nat),
    decreases n,
{
    if n < 10 {
        digit_text(n).to_owned()
    } else {
        let mut text = decimal_text(n / 10);
        text.append(digit_text(n % 10));
        assert(text@ =~= decimal(n as nat));
        text
    }
}

/// Writes `n` in decimal with at least `width` digits.
pub fn padded_decimal_text(n: u128, width: usize) -> (text: String)
    ensures
        text@ == padded_decimal(n as nat, width as nat),
{
    let digits = decimal_text(n);
    let len: usize = digits.as_str().unicode_len();
    if len >= width {
        return digits;
    }
    let fill: usize = width - len;
    let mut text = String::new();
    let mut i: usize = 0;
    while i < fill
        invariant
            i <= fill,
            text@ == zeros(i as nat),
        decreases fill - i,
    {
        proof {
            reveal_strlit("0");
        }
        text.append("0");
        assert(text@ =~= zeros((i + 1) as nat));
        i += 1;
    }
    text.append(digits.as_str());
    text
}

pub proof fn lemma_decimal(n: nat)
    ensures
        decimal(n).len() >= 1,
        all_digits(decimal(n)),
        digits_value(decimal(n)) == n,
    decreases n,
{
    reveal_with_fuel(digits_value, 2);
    if n < 10 {
        assert(decimal(n).drop_last() =~= Seq::<char>::empty());
    } else {
        lemma_decimal(n / 10);
        assert(decimal(n).drop_last() =~= decimal(n / 10));
    }
}

proof fn lemma_leading_zeros(count: nat, s: Seq<char>)
    ensures
        digits_value(zeros(count) + s) == digits_value(s),
    decreases count + s.len(),
{
    let t = zeros(count) + s;
    if s.len() > 0 {
        assert(t.drop_last() =~= zeros(count) + s.drop_last());
        lemma_leading_zeros(count, s.drop_last());
    } else if count > 0 {
        assert(t.drop_last() =~= zeros((count - 1) as nat) + s);
        lemma_leading_zeros((count - 1) as nat, s);
    } else {
        assert(t =~= s);
    }
}

/// Padded decimals are digits, as many as were asked for, and name their number.
pub proof fn lemma_padded_decimal(n: nat, width: nat)
    ensures
        padded_decimal(n, width).len() >= width,
        all_digits(padded_decimal(n, width)),
        digits_value(padded_decimal(n, width)) == n,
{
    lemma_decimal(n);
    if decimal(n).len() < width {
        let fill = (width - decimal(n).len()) as nat;
        lemma_leading_zeros(fill, decimal(n));
        let s = padded_decimal(n, width);
        assert forall|i: int| 0 <= i < s.len() implies is_digit(#[trigger] s[i]) by {
            if i >= fill {
                assert(s[i] == decimal(n)[i - fill]);
            }
        }
    }
}

/// The lower-case form of an ASCII letter; any other character stays.
pub open spec fn lower_char(c: char) -> char {
    if 'A' <= c <= 'Z' {
        (c as u32 + 32) as char
    } else {
        c
    }
}

/// `s` with its ASCII letters in lower case.
pub open spec fn lower(s: Seq<char>) -> Seq<char> {
    s.map_values(|c: char| lower_char(c))
}

/// The lower-case form of one of the letters `A` to `Z`.
fn lower_letter(c: char) -> (letter: Option<&'static str>)
    ensures
        letter matches Some(t) ==> t@ == seq![lower_char(c)],
        letter is None ==> lower_char(c) == c,
{
    proof {
        reveal_strlit("a");
        reveal_strlit("b");
        reveal_strlit("c");
        reveal_strlit("d");
        reveal_strlit("e");
        reveal_strlit("f");
        reveal_strlit("g");
        reveal_strlit("h");
        reveal_strlit("i");
        reveal_strlit("j");
        reveal_strlit("k");
        reveal_strlit("l");
        reveal_strlit("m");
        reveal_strlit("n");
        reveal_strlit("o");
        reveal_strlit("p");
        reveal_strlit("q");
        reveal_strlit("r");
        reveal_strlit("s");
        reveal_strlit("t");
        reveal_strlit("u");
        reveal_strlit("v");
        reveal_strlit("w");
        reveal_strlit("x");
        reveal_strlit("y");
        reveal_strlit("z");
    }
    let letter: Option<&'static str> = match c {
        'A' => Some("a"),
        'B' => Some("b"),
        'C' => Some("c"),
        'D' => Some("d"),
        'E' => Some("e"),
        'F' => Some("f"),
        'G' => Some("g"),
        'H' => Some("h"),
        'I' => Some("i"),
        'J' => Some("j"),
        'K' => Some("k"),
        'L' => Some("l"),
        'M' => Some("m"),
        'N' => Some("n"),
        'O' => Some("o"),
        'P' => Some("p"),
        'Q' => Some("q"),
        'R' => Some("r"),
        'S' => Some("s"),
        'T' => Some("t"),
        'U' => Some("u"),
        'V' => Some("v"),
        'W' => Some("w"),
        'X' => Some("x"),
        'Y' => Some("y"),
        'Z' => Some("z"),
        _ => None,
    };
    assert(letter matches Some(t) ==> t@ =~= seq![lower_char(c)]);
    letter
}

/// Cuts the first character off.
fn split_first<'a>(s: &'a str) -> (parts: (&'a str, &'a str))
    requires
        s@.len() > 0,
    ensures
        parts.0@ == s@.take(1),
        parts.1@ == s@.skip(1),
{
    broadcast use {encode_utf8_decode_utf8, encode_utf8_valid_utf8};

    let ghost bytes = encode_utf8(s@);
    let ghost width = encode_scalar(s@[0] as u32).len() as int;
    proof {
        encode_utf8_first_scalar(s@);
        assert(pop_first_scalar(bytes) =~= encode_utf8(s@.drop_first()));
        reveal_with_fuel(is_char_boundary, 2);
    }
    let mut end: usize = 1;
    while !s.is_char_boundary(end)
        invariant
            bytes == s.spec_bytes(),
            1 <= end <= width <= 4,
            is_char_boundary(bytes, width),
        decreases width - end,
    {
        end += 1;
    }
    assert(end == width);
    let (first, rest) = s.split_at(end);
    proof {
        let head = s@.take(1);
        assert(head.drop_first() =~= Seq::<char>::empty());
        assert(encode_utf8(head.drop_first()) =~= Seq::<u8>::empty());
        assert(encode_utf8(head) =~= encode_scalar(s@[0] as u32));
        assert(first.spec_bytes() =~= encode_utf8(head));
        assert(rest.spec_bytes() =~= encode_utf8(s@.drop_first()));
        assert(decode_utf8(encode_utf8(head)) == head);
        assert(decode_utf8(encode_utf8(s@.drop_first())) == s@.drop_first());
        assert(decode_utf8(encode_utf8(first@)) == first@);
        assert(decode_utf8(encode_utf8(rest@)) == rest@);
        assert(s@.drop_first() =~= s@.skip(1));
    }
    (first, rest)
}

/// Replaces each of the letters `A` to `Z` by its lower-case form and keeps every other
/// character.
pub fn ascii_lowercase(s: &str) -> (text: String)
    ensures
        text@ == lower(s@),
{
    let mut text = String::new();
    let mut rest = s;
    assert(text@ =~= lower(s@.take(0)));
    assert(s@.skip(0) =~= s@);
    for ch in it: s.chars()
        invariant
            it.seq() == s@,
            rest@ == s@.skip(it.index() as int),
            text@ == lower(s@.take(it.index() as int)),
    {
        let ghost i = it.index() as int;
        let (first, after) = split_first(rest);
        match lower_letter(ch) {
            Some(letter) => text.append(letter),
            None => text.append(first),
        }
        proof {
            assert(first@ =~= seq![ch]);
            assert(s@.skip(i).skip(1) =~= s@.skip(i + 1));
            assert(lower(s@.take(i + 1)) =~= lower(s@.take(i)) + seq![lower_char(ch)]);
        }
        rest = after;
    }
    assert(s@.take(s@.len() as int) =~= s@);
    text
}

/// What `str`'s `Debug` form is: the text in double quotes, with the escapes that
/// `char::escape_debug` gives.
pub uninterp spec fn debug_form(s: Seq<char>) -> Seq<char>;

/// Formats `s` with `{:?}`. The result is named, not spelled out: which characters are
/// escaped follows the Unicode tables of the standard library.
#[verifier::external_body]
pub(crate) fn debug_text(s: &str) -> (text: String)
    ensures
        text@ == debug_form(s@),
{
    format!("{:?}", s)
}

} // verus!
