//! Building text: joining names, decimal numbers, trimming.
use vstd::prelude::*;

verus! {

/// `parts` joined with `sep` between neighbours.
pub open spec fn join(parts: Seq<Seq<char>>, sep: Seq<char>) -> Seq<char>
    decreases parts.len(),
{
    if parts.len() == 0 {
        Seq::empty()
    } else if parts.len() == 1 {
        parts[0]
    } else {
        join(parts.drop_last(), sep) + sep + parts.last()
    }
}

/// The texts of a list of strings.
pub open spec fn texts(s: Seq<String>) -> Seq<Seq<char>> {
    s.map_values(|t: String| t@)
}

/// `parts` joined with `sep`, as [`join`] states.
pub fn joined(parts: &Vec<String>, sep: &str) -> (r: String)
    ensures
        r@ == join(texts(parts@), sep@),
{
    let ghost t = texts(parts@);
    let mut out = String::new();
    let mut i: usize = 0;
    assert(out@ =~= join(t.subrange(0, 0), sep@));
    while i < parts.len()
        invariant
            t == texts(parts@),
            i <= parts@.len(),
            out@ == join(t.subrange(0, i as int), sep@),
        decreases parts@.len() - i,
    {
        let ghost pre = t.subrange(0, i + 1);
        assert(pre.drop_last() == t.subrange(0, i as int));
        assert(pre.last() == parts@[i as int]@);
        if i > 0 {
            out.append(sep);
        } else {
            assert(pre.len() == 1);
            assert(out@ + parts@[0]@ =~= parts@[0]@);
        }
        out.append(parts[i].as_str());
        i = i + 1;
    }
    assert(t.subrange(0, t.len() as int) == t);
    out
}

/// The decimal digits of `n`.
pub open spec fn decimal(n: nat) -> Seq<char>
    decreases n,
{
    if n < 10 {
        seq![digit_char(n)]
    } else {
        decimal(n / 10) + seq![digit_char(n % 10)]
    }
}

/// The character of a decimal digit.
pub open spec fn digit_char(d: nat) -> char {
    if d < 10 {
        (d + '0' as nat) as char
    } else {
        '?'
    }
}

fn digit_text(d: u8) -> (r: &'static str)
    requires
        d < 10,
    ensures
        r@ == seq![digit_char(d as nat)],
{
    proof {
        reveal_strlit("0");
        reveal_strlit("1");
        reveal_strlit("2");
        reveal_strlit("3");
        reveal_strlit("4");
        reveal_strlit("5");
        reveal_strlit("6");
        reveal_strlit("7");
        reveal_strlit("8");
        reveal_strlit("9");
    }
    let r = match d {
        0 => "0",
        1 => "1",
        2 => "2",
        3 => "3",
        4 => "4",
        5 => "5",
        6 => "6",
        7 => "7",
        8 => "8",
        _ => "9",
    };
    assert(r@ =~= seq![digit_char(d as nat)]);
    r
}

/// `n` in decimal, as [`decimal`] states.
pub fn decimal_text(n: u8) -> (r: String)
    ensures
        r@ == decimal(n as nat),
{
    let mut out = String::new();
    let ghost m = n as nat;
    if n >= 100 {
        out.append(digit_text(n / 100));
        out.append(digit_text(n / 10 % 10));
        assert(m / 10 / 10 == m / 100 && m / 100 < 10 && m / 10 >= 10);
        assert(decimal(m / 100) == seq![digit_char(m / 100)]);
        assert(decimal(m / 10) == decimal(m / 10 / 10) + seq![digit_char((m / 10) % 10)]);
    } else if n >= 10 {
        out.append(digit_text(n / 10));
        assert(decimal(m / 10) == seq![digit_char(m / 10)]);
    }
    out.append(digit_text(n % 10));
    assert(out@ =~= decimal(m));
    out
}

/// `s` without the whitespace at either end, as `str::trim` reads it.
pub uninterp spec fn trimmed(s: Seq<char>) -> Seq<char>;

/// Relies on `str::trim`, whose result depends on its input alone.
#[verifier::external_body]
pub(crate) fn trim(s: &str) -> (r: String)
    ensures
        r@ == trimmed(s@),
{
    s.trim().to_string()
}

} // verus!
