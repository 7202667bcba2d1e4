//! Decimal rendering of integers and the small text helpers that the
//! snapshot formats are built from.
use vstd::prelude::*;
use vstd::string::StringExecFns;

verus! {

/// The character of a decimal digit.
pub open spec fn digit_char(d: nat) -> char {
    if d == 0 {
        '0'
    } else if d == 1 {
        '1'
    } else if d == 2 {
        '2'
    } else if d == 3 {
        '3'
    } else if d == 4 {
        '4'
    } else if d == 5 {
        '5'
    } else if d == 6 {
        '6'
    } else if d == 7 {
        '7'
    } else if d == 8 {
        '8'
    } else {
        '9'
    }
}

/// The shortest decimal numeral of `n`.
pub open spec fn decimal(n: nat) -> Seq<char>
    decreases n,
{
    if n < 10 {
        seq![digit_char(n)]
    } else {
        decimal(n / 10).push(digit_char(n % 10))
    }
}

/// The decimal numeral of `n`, left-padded with zeros to at least `width` digits.
pub open spec fn padded(n: nat, width: nat) -> Seq<char> {
    let d = decimal(n);
    if d.len() < width {
        Seq::new((width - d.len()) as nat, |i: int| '0') + d
    } else {
        d
    }
}

/// A whole number of tenths rounded to the nearest unit, halves rounded up.
pub open spec fn round_tenths(t: nat) -> nat {
    (t + 5) / 10
}

/// A non-negative amount of tenths written with one decimal place (`12.3`).
pub open spec fn tenths_text(t: nat) -> Seq<char> {
    decimal(t / 10) + seq!['.'] + seq![digit_char(t % 10)]
}

/// A signed amount of tenths written with one decimal place (`-4.5`).
pub open spec fn signed_tenths_text(t: int) -> Seq<char> {
    if t < 0 {
        seq!['-'] + tenths_text((-t) as nat)
    } else {
        tenths_text(t as nat)
    }
}

/// A signed amount of tenths rounded to a whole number, the magnitude rounded
/// half up and the sign kept.
pub open spec fn signed_whole_text(t: int) -> Seq<char> {
    if t < 0 {
        seq!['-'] + decimal(round_tenths((-t) as nat))
    } else {
        decimal(round_tenths(t as nat))
    }
}

/// The one-character text of a decimal digit.
fn digit_str(d: u64) -> (r: &'static str)
    requires
        d < 10,
    ensures
        r@ == seq![digit_char(d as nat)],
{
    proof {
        reveal_strlit("0");
        reveal_strlit("1");
        reveal_strlit("2");
        reveal_strlit("3");
        reveal_strlit("4");
        reveal_strlit("5");
        reveal_strlit("6");
        reveal_strlit("7");
        reveal_strlit("8");
        reveal_strlit("9");
    }
    if d == 0 {
        "0"
    } else if d == 1 {
        "1"
    } else if d == 2 {
        "2"
    } else if d == 3 {
        "3"
    } else if d == 4 {
        "4"
    } else if d == 5 {
        "5"
    } else if d == 6 {
        "6"
    } else if d == 7 {
        "7"
    } else if d == 8 {
        "8"
    } else {
        "9"
    }
}

/// Appends the decimal numeral of `n`.
pub fn push_decimal(out: &mut String, n: u64)
    ensures
        final(out)@ == old(out)@ + decimal(n as nat),
    decreases n,
{
    if n < 10 {
        out.append(digit_str(n));
    } else {
        push_decimal(out, n / 10);
        out.append(digit_str(n % 10));
        assert(final(out)@ =~= old(out)@ + decimal(n as nat));
    }
}

proof fn lemma_decimal_len(n: nat)
    ensures
        decimal(n).len() >= 1,
        n < 10 ==> decimal(n).len() == 1,
        n < 100 ==> decimal(n).len() <= 2,
        n < 1000 ==> decimal(n).len() <= 3,
        n < 10 <==> decimal(n).len() == 1,
        n < 100 <==> decimal(n).len() <= 2,
        n < 1000 <==> decimal(n).len() <= 3,
    decreases n,
{
    if n >= 10 {
        lemma_decimal_len(n / 10);
    }
}

/// Appends the decimal numeral of `n`, left-padded with zeros to `width`
/// digits, for widths of two and four.
pub fn push_padded(out: &mut String, n: u64, width: u64)
    requires
        width == 2 || width == 4,
    ensures
        final(out)@ == old(out)@ + padded(n as nat, width as nat),
{
    proof {
        lemma_decimal_len(n as nat);
        reveal_strlit("0");
        reveal_strlit("00");
        reveal_strlit("000");
    }
    let ghost d = decimal(n as nat);
    if width == 4 && n < 10 {
        out.append("000");
        assert(Seq::new((4 - d.len()) as nat, |i: int| '0') =~= "000"@);
    } else if width == 4 && n < 100 {
        out.append("00");
        assert(Seq::new((4 - d.len()) as nat, |i: int| '0') =~= "00"@);
    } else if n < 10 || (width == 4 && n < 1000) {
        out.append("0");
        assert(Seq::new((width - d.len()) as nat, |i: int| '0') =~= "0"@);
    }
    push_decimal(out, n);
    assert(final(out)@ =~= old(out)@ + padded(n as nat, width as nat));
}

/// Appends a non-negative amount of tenths with one decimal place.
pub fn push_tenths(out: &mut String, t: u64)
    ensures
        final(out)@ == old(out)@ + tenths_text(t as nat),
{
    proof {
        reveal_strlit(".");
    }
    push_decimal(out, t / 10);
    out.append(".");
    out.append(digit_str(t % 10));
    assert(final(out)@ =~= old(out)@ + tenths_text(t as nat));
}

/// Appends a signed amount of tenths with one decimal place.
pub fn push_signed_tenths(out: &mut String, t: i32)
    ensures
        final(out)@ == old(out)@ + signed_tenths_text(t as int),
{
    proof {
        reveal_strlit("-");
    }
    if t < 0 {
        out.append("-");
        let m: u64 = (0 - (t as i64)) as u64;
        push_tenths(out, m);
        assert(final(out)@ =~= old(out)@ + signed_tenths_text(t as int));
    } else {
        push_tenths(out, t as u64);
    }
}

/// Appends a non-negative amount of tenths rounded to a whole number.
pub fn push_rounded(out: &mut String, t: u32)
    ensures
        final(out)@ == old(out)@ + decimal(round_tenths(t as nat)),
{
    let w: u64 = (t as u64 + 5) / 10;
    push_decimal(out, w);
}

/// Appends a signed amount of tenths rounded to a whole number.
pub fn push_signed_rounded(out: &mut String, t: i32)
    ensures
        final(out)@ == old(out)@ + signed_whole_text(t as int),
{
    proof {
        reveal_strlit("-");
    }
    if t < 0 {
        out.append("-");
        let m: u64 = (0 - (t as i64)) as u64;
        push_decimal(out, (m + 5) / 10);
        assert(final(out)@ =~= old(out)@ + signed_whole_text(t as int));
    } else {
        push_decimal(out, (t as u64 + 5) / 10);
    }
}

} // verus!
