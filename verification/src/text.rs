//! Words of a message: comparing them, reading numbers and color names,
//! and dropping the markup words that carry no value.

use crate::board::{Color, Pawn};
use vstd::prelude::*;

verus! {

/// The views of a sequence of strings.
pub open spec fn views(v: Seq<String>) -> Seq<Seq<char>> {
    v.map_values(|s: String| s@)
}

/// The bytes of an ASCII word.
pub open spec fn ascii_bytes(s: Seq<char>) -> Seq<u8> {
    s.map_values(|c: char| c as u8)
}

/// Whether the text `s` is exactly `lit`.
pub fn str_is(s: &str, lit: &str) -> (b: bool)
    ensures
        b == (s@ == lit@),
{
    let n = s.unicode_len();
    let m = lit.unicode_len();
    if n != m {
        return false;
    }
    let mut i: usize = 0;
    while i < n
        invariant
            n == s@.len(),
            m == lit@.len(),
            n == m,
            i <= n,
            forall|j: int| 0 <= j < i ==> s@[j] == lit@[j],
        decreases n - i,
    {
        if s.get_char(i) != lit.get_char(i) {
            return false;
        }
        i = i + 1;
    }
    assert(s@ =~= lit@);
    true
}

/// Whether the raw bytes `name` spell the ASCII word `lit`.
pub fn bytes_are(name: &Vec<u8>, lit: &str) -> (b: bool)
    ensures
        b == (name@ == ascii_bytes(lit@)),
{
    let m = lit.unicode_len();
    if name.len() != m {
        return false;
    }
    let mut i: usize = 0;
    while i < m
        invariant
            m == lit@.len(),
            name@.len() == m,
            i <= m,
            forall|j: int| 0 <= j < i ==> name@[j] == (lit@[j] as u8),
        decreases m - i,
    {
        let c = lit.get_char(i);
        if name[i] != c as u8 {
            return false;
        }
        i = i + 1;
    }
    assert(name@ =~= ascii_bytes(lit@));
    true
}

/// `c` with an ASCII capital letter made small.
pub open spec fn ascii_lower_char(c: char) -> char {
    if 'A' <= c && c <= 'Z' {
        ((c as u32) + 32) as char
    } else {
        c
    }
}

/// `s` with its ASCII capital letters made small.
pub open spec fn ascii_lower(s: Seq<char>) -> Seq<char> {
    s.map_values(|c: char| ascii_lower_char(c))
}

/// The color that `s` names, in any mix of capital and small letters.
///
/// Matching the four names without regard to ASCII case decides exactly
/// as comparing the Unicode lowercase of `s` with them: no other character
/// lowercases to a letter of these names.
pub open spec fn color_of_name(s: Seq<char>) -> Option<Color> {
    let l = ascii_lower(s);
    if l == "red"@ {
        Some(Color::Red)
    } else if l == "blue"@ {
        Some(Color::Blue)
    } else if l == "yellow"@ {
        Some(Color::Yellow)
    } else if l == "green"@ {
        Some(Color::Green)
    } else {
        None
    }
}

/// The small-letter name of a color.
pub open spec fn color_name(c: Color) -> Seq<char> {
    match c {
        Color::Red => "red"@,
        Color::Blue => "blue"@,
        Color::Yellow => "yellow"@,
        Color::Green => "green"@,
    }
}

fn lower_chars(s: &str) -> (r: Vec<char>)
    ensures
        r@ == ascii_lower(s@),
{
    let n = s.unicode_len();
    let mut r: Vec<char> = Vec::new();
    let mut i: usize = 0;
    while i < n
        invariant
            n == s@.len(),
            i <= n,
            r@ =~= ascii_lower(s@).subrange(0, i as int),
        decreases n - i,
    {
        let c = s.get_char(i);
        let l = if 'A' <= c && c <= 'Z' {
            ((c as u8) + 32) as char
        } else {
            c
        };
        assert(l == ascii_lower_char(c)) by {
            if 'A' <= c && c <= 'Z' {
                assert((c as u8) as u32 == c as u32);
            }
        }
        r.push(l);
        i = i + 1;
    }
    r
}

fn chars_are(v: &Vec<char>, lit: &str) -> (b: bool)
    ensures
        b == (v@ == lit@),
{
    let m = lit.unicode_len();
    if v.len() != m {
        return false;
    }
    let mut i: usize = 0;
    while i < m
        invariant
            m == lit@.len(),
            v@.len() == m,
            i <= m,
            forall|j: int| 0 <= j < i ==> v@[j] == lit@[j],
        decreases m - i,
    {
        if v[i] != lit.get_char(i) {
            return false;
        }
        i = i + 1;
    }
    assert(v@ =~= lit@);
    true
}

/// The color that `s` names, if it names one.
pub fn color_from_name(s: &str) -> (r: Option<Color>)
    ensures
        r == color_of_name(s@),
{
    let l = lower_chars(s);
    if chars_are(&l, "red") {
        Some(Color::Red)
    } else if chars_are(&l, "blue") {
        Some(Color::Blue)
    } else if chars_are(&l, "yellow") {
        Some(Color::Yellow)
    } else if chars_are(&l, "green") {
        Some(Color::Green)
    } else {
        None
    }
}

/// The color that `string` names, without regard to case.
pub fn string_to_color(string: String) -> (c: Color)
    requires
        color_of_name(string@) is Some,
    ensures
        color_of_name(string@) == Some(c),
{
    match color_from_name(string.as_str()) {
        Some(c) => c,
        None => Color::Red,
    }
}

/// Whether `c` is a decimal digit.
pub open spec fn is_digit(c: char) -> bool {
    '0' <= c && c <= '9'
}

/// The value of the decimal digit `c`.
pub open spec fn digit_value(c: char) -> nat {
    ((c as u32) - ('0' as u32)) as nat
}

/// The value of the digits `d`, most significant first.
pub open spec fn digits_value(d: Seq<char>) -> nat
    decreases d.len(),
{
    if d.len() == 0 {
        0
    } else {
        digits_value(d.drop_last()) * 10 + digit_value(d.last())
    }
}

/// `s` without one leading plus sign.
pub open spec fn unsigned_digits(s: Seq<char>) -> Seq<char> {
    if s.len() > 0 && s[0] == '+' {
        s.drop_first()
    } else {
        s
    }
}

/// The number that `s` writes in decimal: digits, at least one, after an
/// optional plus sign, of a value that fits in a `usize`.
pub open spec fn spec_parse_usize(s: Seq<char>) -> Option<usize> {
    let d = unsigned_digits(s);
    if d.len() > 0 && (forall|i: int| 0 <= i < d.len() ==> is_digit(#[trigger] d[i]))
        && digits_value(d) <= usize::MAX {
        Some(digits_value(d) as usize)
    } else {
        None
    }
}

proof fn lemma_digits_value_grows(d: Seq<char>, k: int)
    requires
        0 <= k <= d.len(),
    ensures
        digits_value(d.subrange(0, k)) <= digits_value(d),
    decreases d.len() - k,
{
    if k < d.len() {
        lemma_digits_value_grows(d, k + 1);
        assert(d.subrange(0, k + 1).drop_last() =~= d.subrange(0, k));
    } else {
        assert(d.subrange(0, k) =~= d);
    }
}

/// The number that `s` writes in decimal, as `str::parse::<usize>` reads it.
pub fn parse_usize(s: &str) -> (r: Option<usize>)
    ensures
        r == spec_parse_usize(s@),
{
    let n = s.unicode_len();
    let mut start: usize = 0;
    if n > 0 && s.get_char(0) == '+' {
        start = 1;
    }
    let ghost d = unsigned_digits(s@);
    assert(d =~= s@.subrange(start as int, n as int));
    if start >= n {
        return None;
    }
    let mut v: usize = 0;
    let mut i: usize = start;
    while i < n
        invariant
            n == s@.len(),
            start <= i <= n,
            start < n,
            d == s@.subrange(start as int, n as int),
            d == unsigned_digits(s@),
            forall|j: int| 0 <= j < i - start ==> is_digit(#[trigger] d[j]),
            v == digits_value(d.subrange(0, i - start)),
        decreases n - i,
    {
        let c = s.get_char(i);
        assert(c == d[i - start]);
        if !('0' <= c && c <= '9') {
            assert(!is_digit(d[i - start]));
            return None;
        }
        let digit = ((c as u32) - ('0' as u32)) as usize;
        assert(d.subrange(0, i - start + 1).drop_last() =~= d.subrange(0, i - start));
        assert(digits_value(d.subrange(0, i - start + 1)) == v * 10 + digit);
        match v.checked_mul(10) {
            None => {
                proof {
                    lemma_digits_value_grows(d, i - start + 1);
                }
                return None;
            }
            Some(t) => {
                match t.checked_add(digit) {
                    None => {
                        proof {
                            lemma_digits_value_grows(d, i - start + 1);
                        }
                        return None;
                    }
                    Some(w) => {
                        v = w;
                    }
                }
            }
        }
        i = i + 1;
    }
    assert(d.subrange(0, n - start) =~= d);
    Some(v)
}

/// The pawn that a color name and a decimal id describe.
pub fn build_pawn_from_strings(color: String, id: String) -> (p: Pawn)
    requires
        color_of_name(color@) is Some,
        spec_parse_usize(id@) is Some,
    ensures
        p == (Pawn { color: color_of_name(color@).unwrap(), id: spec_parse_usize(id@).unwrap() }),
{
    let c = string_to_color(color);
    let i = match parse_usize(id.as_str()) {
        Some(i) => i,
        None => 0,
    };
    Pawn { color: c, id: i }
}

/// Whether `s` is one of the markup words that carry no value of their own.
pub open spec fn is_markup_word(s: Seq<char>) -> bool {
    s == "id"@ || s == "color"@ || s == "pawn"@
}

/// Whether a word is kept when the markup words are dropped.
pub open spec fn not_markup() -> spec_fn(Seq<char>) -> bool {
    |s: Seq<char>| !is_markup_word(s)
}

/// Whether a word is other than `w`.
pub open spec fn other_than(w: Seq<char>) -> spec_fn(Seq<char>) -> bool {
    |s: Seq<char>| s != w
}

/// `t` without its markup words, the other words in their order.
pub open spec fn trimmed(t: Seq<Seq<char>>) -> Seq<Seq<char>> {
    t.filter(not_markup())
}

/// `t` without the words equal to `w`, the other words in their order.
pub open spec fn without_word(t: Seq<Seq<char>>, w: Seq<char>) -> Seq<Seq<char>> {
    t.filter(other_than(w))
}

/// The words of `v` from `lo` to `hi`, without their markup words.
pub fn trim_range(v: &Vec<String>, lo: usize, hi: usize) -> (r: Vec<String>)
    requires
        lo <= hi <= v.len(),
    ensures
        views(r@) == trimmed(views(v@).subrange(lo as int, hi as int)),
{
    let ghost t = views(v@).subrange(lo as int, hi as int);
    let mut r: Vec<String> = Vec::new();
    let mut i: usize = lo;
    while i < hi
        invariant
            lo <= i <= hi <= v.len(),
            t == views(v@).subrange(lo as int, hi as int),
            views(r@) == trimmed(t.subrange(0, i - lo)),
        decreases hi - i,
    {
        let s = &v[i];
        let keep = !(str_is(s.as_str(), "id") || str_is(s.as_str(), "color") || str_is(s.as_str(), "pawn"));
        assert(t.subrange(0, i - lo + 1).drop_last() =~= t.subrange(0, i - lo));
        assert(t.subrange(0, i - lo + 1).last() == s@);
        reveal_with_fuel(Seq::filter, 1);
        if keep {
            r.push(s.clone());
        }
        assert(views(r@) =~= trimmed(t.subrange(0, i - lo + 1)));
        i = i + 1;
    }
    assert(t.subrange(0, hi - lo) =~= t);
    r
}

/// The words of `xml_string` without the markup words `id`, `color` and
/// `pawn`: the order of the words is enough to rebuild the values.
pub fn trim_xml(xml_string: &Vec<String>) -> (r: Vec<String>)
    ensures
        views(r@) == trimmed(views(xml_string@)),
{
    let r = trim_range(xml_string, 0, xml_string.len());
    assert(views(xml_string@).subrange(0, xml_string@.len() as int) =~= views(xml_string@));
    r
}

/// `v` without the words equal to `w`.
pub fn remove_word(v: &Vec<String>, w: &str) -> (r: Vec<String>)
    ensures
        views(r@) == without_word(views(v@), w@),
{
    let ghost t = views(v@);
    let mut r: Vec<String> = Vec::new();
    let mut i: usize = 0;
    while i < v.len()
        invariant
            i <= v.len(),
            t == views(v@),
            views(r@) == without_word(t.subrange(0, i as int), w@),
        decreases v.len() - i,
    {
        let s = &v[i];
        let keep = !str_is(s.as_str(), w);
        assert(t.subrange(0, i + 1).drop_last() =~= t.subrange(0, i as int));
        assert(t.subrange(0, i + 1).last() == s@);
        reveal_with_fuel(Seq::filter, 1);
        if keep {
            r.push(s.clone());
        }
        assert(views(r@) =~= without_word(t.subrange(0, i + 1), w@));
        i = i + 1;
    }
    assert(t.subrange(0, v.len() as int) =~= t);
    r
}

/// The digit that writes `d`, below ten.
pub open spec fn digit_char(d: nat) -> char {
    ((('0' as u32) as nat) + d) as char
}

/// `n` written in decimal, without leading zeros.
pub open spec fn decimal(n: nat) -> Seq<char>
    decreases n,
{
    if n < 10 {
        seq![digit_char(n)]
    } else {
        decimal(n / 10).push(digit_char(n % 10))
    }
}

} // verus!
