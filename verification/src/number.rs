//! Numbers in decimal digits.
use vstd::prelude::*;

use crate::semver;

verus! {

/// The digit for a number below ten.
pub open spec fn digit(d: nat) -> char {
    (48 + d) as char
}

/// The decimal digits of a number, without leading zeros.
pub open spec fn decimal_of(n: nat) -> Seq<char>
    decreases n,
{
    if n < 10 {
        seq![digit(n)]
    } else {
        decimal_of(n / 10).push(digit(n % 10))
    }
}

/// The decimal digits of a number, with zeros in front up to the width.
pub open spec fn padded_of(n: nat, width: nat) -> Seq<char> {
    let d = decimal_of(n);
    if d.len() >= width {
        d
    } else {
        Seq::new((width - d.len()) as nat, |i: int| '0') + d
    }
}

fn digit_text(d: u64) -> (r: &'static str)
    requires
        d < 10,
    ensures
        r@ == seq![digit(d as nat)],
{
    proof {
        reveal_strlit("0");
        reveal_strlit("1");
        reveal_strlit("2");
        reveal_strlit("3");
        reveal_strlit("4");
        reveal_strlit("5");
        reveal_strlit("6");
        reveal_strlit("7");
        reveal_strlit("8");
        reveal_strlit("9");
    }
    if d == 0 {
        "0"
    } else if d == 1 {
        "1"
    } else if d == 2 {
        "2"
    } else if d == 3 {
        "3"
    } else if d == 4 {
        "4"
    } else if d == 5 {
        "5"
    } else if d == 6 {
        "6"
    } else if d == 7 {
        "7"
    } else if d == 8 {
        "8"
    } else {
        "9"
    }
}

/// A number in decimal digits.
pub fn decimal(n: u64) -> (r: String)
    ensures
        r@ == decimal_of(n as nat),
    decreases n,
{
    if n < 10 {
        digit_text(n).to_owned()
    } else {
        let mut s = decimal(n / 10);
        s.append(digit_text(n % 10));
        proof {
            assert(s@ =~= decimal_of(n as nat));
        }
        s
    }
}

/// A number in decimal digits, with zeros in front up to the width.
pub fn padded(n: u64, width: usize) -> (r: String)
    ensures
        r@ == padded_of(n as nat, width as nat),
{
    let digits = decimal(n);
    let len: usize = digits.as_str().unicode_len();
    let mut out = String::new();
    let mut k: usize = len;
    proof {
        reveal_strlit("0");
    }
    while k < width
        invariant
            len <= k,
            len < width ==> k <= width,
            len >= width ==> k == len,
            out@ == Seq::new((k - len) as nat, |i: int| '0'),
            "0"@ == seq!['0'],
        decreases width - k,
    {
        out.append("0");
        k += 1;
        proof {
            assert(out@ =~= Seq::new((k - len) as nat, |i: int| '0'));
        }
    }
    out.append(digits.as_str());
    proof {
        assert(out@ =~= padded_of(n as nat, width as nat));
    }
    out
}

/// The digits of a number spell that number.
pub proof fn decimal_spells(n: nat)
    ensures
        decimal_of(n).len() >= 1,
        semver::all_digits(decimal_of(n)),
        semver::number(decimal_of(n)) == n,
    decreases n,
{
    reveal_with_fuel(semver::number, 2);
    if n < 10 {
        assert(seq![digit(n)].drop_last().len() == 0);
        assert((48 + n) as char as int == 48 + n);
    } else {
        decimal_spells(n / 10);
        assert(decimal_of(n).drop_last() =~= decimal_of(n / 10));
        assert((48 + n % 10) as char as int == 48 + n % 10);
    }
}

/// A number in decimal has no zero in front of another digit, and as many digits as it needs: it is
/// less than the power of ten that is one digit longer.
pub proof fn decimal_has_no_leading_zero(n: nat)
    ensures
        n > 0 ==> decimal_of(n)[0] != '0',
        n < 10 <==> decimal_of(n).len() == 1,
        n < 100 <==> decimal_of(n).len() <= 2,
        n < 1000 <==> decimal_of(n).len() <= 3,
        n < 10000 <==> decimal_of(n).len() <= 4,
    decreases n,
{
    if n >= 10 {
        decimal_has_no_leading_zero(n / 10);
        decimal_spells(n / 10);
        assert(decimal_of(n)[0] == decimal_of(n / 10)[0]);
        decimal_spells(n / 100);
        decimal_spells(n / 1000);
    }
}

/// Padding puts zeros in front and nothing else: the digits still spell the number.
pub proof fn padding_keeps_the_number(n: nat, width: nat)
    ensures
        padded_of(n, width).len() >= width,
        decimal_of(n).is_suffix_of(padded_of(n, width)),
        padded_of(n, width).len() > width ==> padded_of(n, width) == decimal_of(n),
        forall|i: int|
            0 <= i < padded_of(n, width).len() - decimal_of(n).len() ==> #[trigger] padded_of(
                n,
                width,
            )[i] == '0',
{
    let d = decimal_of(n);
    let p = padded_of(n, width);
    assert(d =~= p.subrange(p.len() - d.len(), p.len() as int));
}

} // verus!
