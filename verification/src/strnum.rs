//! Decimal rendering of unsigned integers, used when a numeric option is
//! placed on the converter's command line.

use vstd::prelude::*;
use crate::text::all_digits;
use crate::text::dec_value;
use crate::text::digit_val;

verus! {

/// The character for one decimal digit.
pub open spec fn digit_char(d: int) -> char {
    if d == 0 {
        '0'
    } else if d == 1 {
        '1'
    } else if d == 2 {
        '2'
    } else if d == 3 {
        '3'
    } else if d == 4 {
        '4'
    } else if d == 5 {
        '5'
    } else if d == 6 {
        '6'
    } else if d == 7 {
        '7'
    } else if d == 8 {
        '8'
    } else {
        '9'
    }
}

/// The usual decimal spelling of `n`: no sign, no leading zero except for
/// `n == 0` itself.
pub open spec fn dec_rep(n: nat) -> Seq<char>
    decreases n,
{
    if n < 10 {
        seq![digit_char(n as int)]
    } else {
        dec_rep(n / 10).push(digit_char((n % 10) as int))
    }
}

fn digit_str(d: u32) -> (r: &'static str)
    requires
        d < 10,
    ensures
        r@ == seq![digit_char(d as int)],
{
    let r: &'static str = if d == 0 {
        "0"
    } else if d == 1 {
        "1"
    } else if d == 2 {
        "2"
    } else if d == 3 {
        "3"
    } else if d == 4 {
        "4"
    } else if d == 5 {
        "5"
    } else if d == 6 {
        "6"
    } else if d == 7 {
        "7"
    } else if d == 8 {
        "8"
    } else {
        "9"
    };
    proof {
        reveal_strlit("0");
        reveal_strlit("1");
        reveal_strlit("2");
        reveal_strlit("3");
        reveal_strlit("4");
        reveal_strlit("5");
        reveal_strlit("6");
        reveal_strlit("7");
        reveal_strlit("8");
        reveal_strlit("9");
        assert(r@ =~= seq![digit_char(d as int)]);
    }
    r
}

/// Renders `n` in decimal.
pub fn u32_to_dec(n: u32) -> (r: String)
    ensures
        r@ == dec_rep(n as nat),
    decreases n,
{
    if n < 10 {
        let s = digit_str(n);
        s.to_owned()
    } else {
        let mut r = u32_to_dec(n / 10);
        r.append(digit_str(n % 10));
        proof {
            assert(dec_rep(n as nat) =~= dec_rep((n / 10) as nat) + seq![
                digit_char((n % 10) as int),
            ]);
        }
        r
    }
}

/// The decimal spelling is made of digits and reads back as the number it
/// spells.
pub proof fn lemma_dec_rep_is_decimal(n: nat)
    ensures
        all_digits(dec_rep(n)),
        dec_value(dec_rep(n)) == n,
    decreases n,
{
    if n < 10 {
        let c = digit_char(n as int);
        assert(seq![c].drop_last() =~= Seq::<char>::empty());
        assert(seq![c].last() == c);
        assert(dec_value(Seq::<char>::empty()) == 0);
        assert(dec_value(seq![c]) == digit_val(c));
        assert(digit_val(c) == n);
    } else {
        lemma_dec_rep_is_decimal(n / 10);
        let r = dec_rep(n / 10);
        let c = digit_char((n % 10) as int);
        assert(r.push(c).drop_last() =~= r);
        assert(r.push(c).last() == c);
        assert(dec_value(r.push(c)) == dec_value(r) * 10 + digit_val(c));
        assert(digit_val(c) == n % 10);
        assert((n / 10) * 10 + n % 10 == n) by (nonlinear_arith);
        assert(all_digits(r.push(c)));
    }
}

} // verus!
