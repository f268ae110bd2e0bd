//! Numbers written out in decimal, as the ids of the tickets minted at setup.

use vstd::prelude::*;
use vstd::string::StringExecFns;

verus! {

/// The character for a digit.
pub open spec fn digit(d: nat) -> char {
    if d == 0 {
        '0'
    } else if d == 1 {
        '1'
    } else if d == 2 {
        '2'
    } else if d == 3 {
        '3'
    } else if d == 4 {
        '4'
    } else if d == 5 {
        '5'
    } else if d == 6 {
        '6'
    } else if d == 7 {
        '7'
    } else if d == 8 {
        '8'
    } else {
        '9'
    }
}

/// The decimal numeral of `n`, without leading zeros.
pub open spec fn decimal(n: nat) -> Seq<char>
    decreases n,
{
    if n < 10 {
        seq![digit(n)]
    } else {
        decimal(n / 10).push(digit(n % 10))
    }
}

/// The digits that stand before the last ones written: none when nothing is
/// left to write.
spec fn leading(rest: nat) -> Seq<char> {
    if rest == 0 {
        Seq::empty()
    } else {
        decimal(rest)
    }
}

/// Different digits have different characters.
proof fn lemma_digit_injective(c: nat, d: nat)
    requires
        c < 10,
        d < 10,
        digit(c) == digit(d),
    ensures
        c == d,
{
}

/// Different numbers have different numerals.
pub proof fn lemma_decimal_injective(a: nat, b: nat)
    requires
        decimal(a) == decimal(b),
    ensures
        a == b,
    decreases a,
{
    lemma_decimal_nonempty(a / 10);
    lemma_decimal_nonempty(b / 10);
    if a < 10 && b < 10 {
        assert(decimal(a)[0] == digit(a));
        assert(decimal(b)[0] == digit(b));
        lemma_digit_injective(a, b);
    } else if a >= 10 && b >= 10 {
        assert(decimal(a).last() == digit(a % 10));
        assert(decimal(b).last() == digit(b % 10));
        assert(decimal(a).drop_last() =~= decimal(a / 10));
        assert(decimal(b).drop_last() =~= decimal(b / 10));
        lemma_digit_injective(a % 10, b % 10);
        lemma_decimal_injective(a / 10, b / 10);
    } else {
        if a < 10 {
            assert(decimal(a).len() == 1);
            assert(decimal(b).len() == decimal(b / 10).len() + 1);
        } else {
            assert(decimal(b).len() == 1);
            assert(decimal(a).len() == decimal(a / 10).len() + 1);
        }
    }
}

/// A numeral has at least one digit.
pub proof fn lemma_decimal_nonempty(n: nat)
    ensures
        decimal(n).len() >= 1,
    decreases n,
{
    if n >= 10 {
        lemma_decimal_nonempty(n / 10);
    }
}

/// The text of one digit.
fn digit_text(d: u64) -> (r: &'static str)
    requires
        d < 10,
    ensures
        r@ == seq![digit(d as nat)],
{
    proof {
        reveal_strlit("0");
        reveal_strlit("1");
        reveal_strlit("2");
        reveal_strlit("3");
        reveal_strlit("4");
        reveal_strlit("5");
        reveal_strlit("6");
        reveal_strlit("7");
        reveal_strlit("8");
        reveal_strlit("9");
    }
    let r = if d == 0 {
        "0"
    } else if d == 1 {
        "1"
    } else if d == 2 {
        "2"
    } else if d == 3 {
        "3"
    } else if d == 4 {
        "4"
    } else if d == 5 {
        "5"
    } else if d == 6 {
        "6"
    } else if d == 7 {
        "7"
    } else if d == 8 {
        "8"
    } else {
        "9"
    };
    assert(r@ =~= seq![digit(d as nat)]);
    r
}

/// Writes `n` in decimal.
pub fn decimal_string(n: u64) -> (r: String)
    ensures
        r@ == decimal(n as nat),
{
    let mut text = String::from_str(digit_text(n % 10));
    let mut rest = n / 10;
    assert(decimal(n as nat) =~= leading(rest as nat) + text@);
    while rest > 0
        invariant
            decimal(n as nat) == leading(rest as nat) + text@,
        decreases rest,
    {
        let ghost before = text@;
        let ghost d = digit((rest % 10) as nat);
        text = String::from_str(digit_text(rest % 10)).concat(text.as_str());
        assert(leading(rest as nat) + before =~= leading((rest / 10) as nat) + (seq![d] + before));
        rest = rest / 10;
    }
    assert(leading(0) + text@ =~= text@);
    text
}

} // verus!
