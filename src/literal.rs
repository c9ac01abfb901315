//! Literal values of object properties and their coercion to record fields.
use vstd::prelude::*;
use crate::navigate::{key_is, same_text};
use crate::node::{Expr, ObjectExpr, Property};

verus! {

/// The text of a string or numeric literal; other expressions have none.
pub open spec fn literal_text(e: Expr) -> Option<Seq<char>> {
    match e {
        Expr::Str(s) => Some(s@),
        Expr::Num(n) => Some(n@),
        _ => None,
    }
}

/// Whether `p` is declared under `key` with a literal value.
pub open spec fn is_literal_entry(p: Property, key: Seq<char>) -> bool {
    key_is(p, key) && literal_text(p.value) is Some
}

/// The literal value under `key` in the key-to-literal map of `props`:
/// properties whose value is no literal are skipped, and of the others the
/// last one declared under `key` wins.
pub open spec fn last_literal(props: Seq<Property>, key: Seq<char>) -> Option<Seq<char>>
    decreases props.len(),
{
    if props.len() == 0 {
        None
    } else if is_literal_entry(props.last(), key) {
        literal_text(props.last().value)
    } else {
        last_literal(props.drop_last(), key)
    }
}

/// The literal value of `obj` under `key`, as [`last_literal`] defines it.
pub fn literal_property<'a>(obj: &'a ObjectExpr, key: &str) -> (r: Option<&'a String>)
    ensures
        match r {
            Some(s) => last_literal(obj.properties@, key@) == Some(s@),
            None => last_literal(obj.properties@, key@) is None,
        },
{
    let props = &obj.properties;
    let mut i: usize = props.len();
    assert(props@.subrange(0, i as int) == props@);
    while i > 0
        invariant
            props@ == obj.properties@,
            i <= props@.len(),
            last_literal(props@, key@) == last_literal(props@.subrange(0, i as int), key@),
        decreases i,
    {
        let ghost pre = props@.subrange(0, i as int);
        assert(pre.drop_last() == props@.subrange(0, i - 1));
        assert(pre.last() == props@[i - 1]);
        let p = &props[i - 1];
        let text = match &p.value {
            Expr::Str(s) => Some(s),
            Expr::Num(n) => Some(n),
            _ => None,
        };
        if let Some(t) = text {
            if let Some(k) = &p.key {
                if same_text(k.as_str(), key) {
                    return Some(t);
                }
            }
        }
        i = i - 1;
    }
    None
}

/// Whether `c` is an ASCII decimal digit.
pub open spec fn is_digit(c: char) -> bool {
    '0' <= c <= '9'
}

/// The value of a run of decimal digits.
pub open spec fn digits_value(s: Seq<char>) -> nat
    decreases s.len(),
{
    if s.len() == 0 {
        0
    } else {
        digits_value(s.drop_last()) * 10 + (s.last() as nat - '0' as nat) as nat
    }
}

/// The digits of a decimal token: the token without its `+` sign, if any.
pub open spec fn unsigned_digits(s: Seq<char>) -> Seq<char> {
    if s.len() > 0 && s[0] == '+' {
        s.drop_first()
    } else {
        s
    }
}

/// The byte a decimal token denotes, as Rust's `u8` parsing reads it: an
/// optional `+`, then one or more digits of a value at most 255.
pub open spec fn u8_of(s: Seq<char>) -> Option<u8> {
    let d = unsigned_digits(s);
    if d.len() > 0 && (forall|i: int| 0 <= i < d.len() ==> is_digit(#[trigger] d[i]))
        && digits_value(d) <= 255 {
        Some(digits_value(d) as u8)
    } else {
        None
    }
}

proof fn lemma_digits_value_grows(s: Seq<char>, n: int)
    requires
        0 <= n <= s.len(),
        forall|i: int| 0 <= i < s.len() ==> is_digit(#[trigger] s[i]),
    ensures
        digits_value(s.subrange(0, n)) <= digits_value(s),
    decreases s.len() - n,
{
    if n < s.len() {
        let t = s.subrange(0, n + 1);
        assert(t.drop_last() == s.subrange(0, n));
        lemma_digits_value_grows(s, n + 1);
    } else {
        assert(s.subrange(0, n) == s);
    }
}

/// Parses a decimal token into a byte, as [`u8_of`] states.
pub fn parse_u8(s: &str) -> (r: Option<u8>)
    ensures
        r == u8_of(s@),
{
    let n = s.unicode_len();
    let mut start: usize = 0;
    if n > 0 && s.get_char(0) == '+' {
        start = 1;
    }
    let ghost d = unsigned_digits(s@);
    assert(d == s@.subrange(start as int, n as int));
    if start == n {
        return None;
    }
    let mut value: u32 = 0;
    let mut i: usize = start;
    while i < n
        invariant
            d == s@.subrange(start as int, n as int),
            d == unsigned_digits(s@),
            n == s@.len(),
            start < n,
            start <= i <= n,
            value <= 255,
            value == digits_value(d.subrange(0, i - start)),
            forall|k: int| 0 <= k < i - start ==> is_digit(#[trigger] d[k]),
        decreases n - i,
    {
        let c = s.get_char(i);
        assert(c == d[i - start]);
        if c < '0' || c > '9' {
            assert(!is_digit(d[i - start]));
            assert(u8_of(s@) is None);
            return None;
        }
        let ghost pre = d.subrange(0, i - start + 1);
        assert(pre.drop_last() == d.subrange(0, i - start));
        let digit = (c as u32) - ('0' as u32);
        value = value * 10 + digit;
        if value > 255 {
            assert(digits_value(pre) > 255);
            proof {
                if forall|k: int| 0 <= k < d.len() ==> is_digit(#[trigger] d[k]) {
                    lemma_digits_value_grows(d, i - start + 1);
                    assert(digits_value(d) > 255);
                }
            }
            assert(u8_of(s@) is None);
            return None;
        }
        i = i + 1;
    }
    assert(d.subrange(0, n - start) == d);
    Some(value as u8)
}

/// The value of a hexadecimal digit of either case.
pub open spec fn hex_value(c: char) -> Option<u8> {
    if '0' <= c <= '9' {
        Some((c as u32 - '0' as u32) as u8)
    } else if 'a' <= c <= 'f' {
        Some((c as u32 - 'a' as u32 + 10) as u8)
    } else if 'A' <= c <= 'F' {
        Some((c as u32 - 'A' as u32 + 10) as u8)
    } else {
        None
    }
}

/// The byte written by the two hexadecimal digits `hi` and `lo`.
pub open spec fn hex_byte(hi: char, lo: char) -> Option<u8> {
    match (hex_value(hi), hex_value(lo)) {
        (Some(h), Some(l)) => Some((h * 16 + l) as u8),
        _ => None,
    }
}

/// A colour as red, green and blue bytes.
#[derive(Clone, Copy, Debug, PartialEq, Eq, Structural)]
pub struct Rgb {
    pub r: u8,
    pub g: u8,
    pub b: u8,
}

/// The colour a class token `bg-[#RRGGBB]` names; any other shape names none.
pub open spec fn color_of(s: Seq<char>) -> Option<Rgb> {
    if s.len() == 12 && s[0] == 'b' && s[1] == 'g' && s[2] == '-' && s[3] == '[' && s[4] == '#'
        && s[11] == ']' {
        match (hex_byte(s[5], s[6]), hex_byte(s[7], s[8]), hex_byte(s[9], s[10])) {
            (Some(r), Some(g), Some(b)) => Some(Rgb { r, g, b }),
            _ => None,
        }
    } else {
        None
    }
}

fn hex_digit(c: char) -> (r: Option<u8>)
    ensures
        r == hex_value(c),
        r matches Some(v) ==> v < 16,
{
    if '0' <= c && c <= '9' {
        Some((c as u32 - '0' as u32) as u8)
    } else if 'a' <= c && c <= 'f' {
        Some((c as u32 - 'a' as u32 + 10) as u8)
    } else if 'A' <= c && c <= 'F' {
        Some((c as u32 - 'A' as u32 + 10) as u8)
    } else {
        None
    }
}

fn hex_pair(hi: char, lo: char) -> (r: Option<u8>)
    ensures
        r == hex_byte(hi, lo),
{
    match (hex_digit(hi), hex_digit(lo)) {
        (Some(h), Some(l)) => Some(h * 16 + l),
        _ => None,
    }
}

/// Decodes a colour token, as [`color_of`] states.
pub fn parse_color(s: &str) -> (r: Option<Rgb>)
    ensures
        r == color_of(s@),
{
    if s.unicode_len() != 12 {
        return None;
    }
    if s.get_char(0) != 'b' || s.get_char(1) != 'g' || s.get_char(2) != '-' || s.get_char(3) != '['
        || s.get_char(4) != '#' || s.get_char(11) != ']' {
        return None;
    }
    let r = hex_pair(s.get_char(5), s.get_char(6));
    let g = hex_pair(s.get_char(7), s.get_char(8));
    let b = hex_pair(s.get_char(9), s.get_char(10));
    match (r, g, b) {
        (Some(r), Some(g), Some(b)) => Some(Rgb { r, g, b }),
        _ => None,
    }
}

/// The first character of `s`, if it has one.
pub open spec fn first_char(s: Seq<char>) -> Option<char> {
    if s.len() > 0 {
        Some(s[0])
    } else {
        None
    }
}

/// The first character of `s`, as [`first_char`] states.
pub fn first_char_of(s: &str) -> (r: Option<char>)
    ensures
        r == first_char(s@),
{
    if s.unicode_len() > 0 {
        Some(s.get_char(0))
    } else {
        None
    }
}

} // verus!
