//! Building messages: decimal numbers and concatenation.
use vstd::prelude::*;

verus! {

/// The character of decimal digit `d`.
pub open spec fn digit_char(d: nat) -> char {
    (d + 48) as char
}

/// The decimal representation of `n`, without leading zeros.
pub open spec fn decimal(n: nat) -> Seq<char>
    decreases n,
{
    if n < 10 {
        seq![digit_char(n)]
    } else {
        decimal(n / 10).push(digit_char(n % 10))
    }
}

/// The one-character text of digit `d`.
fn digit_str(d: u64) -> (s: &'static str)
    requires
        d < 10,
    ensures
        s@ == seq![digit_char(d as nat)],
{
    proof {
        reveal_strlit("0");
        reveal_strlit("1");
        reveal_strlit("2");
        reveal_strlit("3");
        reveal_strlit("4");
        reveal_strlit("5");
        reveal_strlit("6");
        reveal_strlit("7");
        reveal_strlit("8");
        reveal_strlit("9");
    }
    let s = if d == 0 {
        "0"
    } else if d == 1 {
        "1"
    } else if d == 2 {
        "2"
    } else if d == 3 {
        "3"
    } else if d == 4 {
        "4"
    } else if d == 5 {
        "5"
    } else if d == 6 {
        "6"
    } else if d == 7 {
        "7"
    } else if d == 8 {
        "8"
    } else {
        "9"
    };
    assert(s@ =~= seq![digit_char(d as nat)]);
    s
}

/// Appends the decimal representation of `n`.
pub fn push_decimal(s: &mut String, n: u64)
    ensures
        final(s)@ == old(s)@ + decimal(n as nat),
    decreases n,
{
    if n >= 10 {
        push_decimal(s, n / 10);
    }
    s.append(digit_str(n % 10));
    assert(decimal(n as nat) == if n < 10 {
        seq![digit_char(n as nat)]
    } else {
        decimal((n / 10) as nat).push(digit_char((n % 10) as nat))
    });
    assert(final(s)@ =~= old(s)@ + decimal(n as nat));
}

/// The decimal representation of `x`, with a leading `-` when negative.
pub open spec fn signed_decimal(x: int) -> Seq<char> {
    if x < 0 {
        seq!['-'] + decimal((-x) as nat)
    } else {
        decimal(x as nat)
    }
}

/// `a`, then `x` in signed decimal.
pub fn text_signed(a: &str, x: i64) -> (s: String)
    ensures
        s@ == a@ + signed_decimal(x as int),
{
    let mut s = String::from_str(a);
    if x < 0 {
        proof {
            reveal_strlit("-");
        }
        s.append("-");
        let m = (0i128 - x as i128) as u64;
        push_decimal(&mut s, m);
        assert(s@ =~= a@ + signed_decimal(x as int));
    } else {
        push_decimal(&mut s, x as u64);
    }
    s
}

/// `a`, then `n` in decimal, then `b`.
pub fn text_num_text(a: &str, n: u64, b: &str) -> (s: String)
    ensures
        s@ == a@ + decimal(n as nat) + b@,
{
    let mut s = String::from_str(a);
    push_decimal(&mut s, n);
    s.append(b);
    s
}

/// `a`, `n` in decimal, `b`, `m` in decimal, then `c`.
pub fn text_num_text_num_text(a: &str, n: u64, b: &str, m: u64, c: &str) -> (s: String)
    ensures
        s@ == a@ + decimal(n as nat) + b@ + decimal(m as nat) + c@,
{
    let mut s = String::from_str(a);
    push_decimal(&mut s, n);
    s.append(b);
    push_decimal(&mut s, m);
    s.append(c);
    s
}

/// The concatenation of three texts.
pub fn concat3(a: &str, b: &str, c: &str) -> (s: String)
    ensures
        s@ == a@ + b@ + c@,
{
    let mut s = String::from_str(a);
    s.append(b);
    s.append(c);
    s
}

} // verus!
