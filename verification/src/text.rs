//! Character-sequence utilities shared by the option parser and the response
//! builders: whitespace trimming, token tests, decimal parsing, and substring
//! containment.

use vstd::prelude::*;

verus! {

/// True when `c` occurs in `s`.
pub open spec fn contains_char(s: Seq<char>, c: char) -> bool {
    exists|i: int| 0 <= i < s.len() && s[i] == c
}

/// True when `needle` occurs contiguously inside `hay`.
pub open spec fn contains_seq(hay: Seq<char>, needle: Seq<char>) -> bool {
    exists|i: int|
        0 <= i && i + needle.len() <= hay.len() && #[trigger] hay.subrange(i, i + needle.len())
            == needle
}

/// Any prefix-concatenation witnesses containment of its right part.
pub proof fn lemma_concat_contains(prefix: Seq<char>, part: Seq<char>, suffix: Seq<char>)
    ensures
        contains_seq(prefix + part + suffix, part),
{
    let hay = prefix + part + suffix;
    let i = prefix.len() as int;
    assert(hay.subrange(i, i + part.len()) =~= part);
}

/// The whitespace characters recognized when an option value is trimmed.
pub open spec fn is_space_char(c: char) -> bool {
    let u = c as u32;
    u == 0x9 || u == 0xA || u == 0xB || u == 0xC || u == 0xD || u == 0x20 || u == 0x85 || u == 0xA0
        || u == 0x1680 || (0x2000 <= u && u <= 0x200A) || u == 0x2028 || u == 0x2029 || u == 0x202F
        || u == 0x205F || u == 0x3000
}

fn is_ws(c: char) -> (r: bool)
    ensures
        r == is_space_char(c),
{
    let u = c as u32;
    u == 0x9 || u == 0xA || u == 0xB || u == 0xC || u == 0xD || u == 0x20 || u == 0x85 || u == 0xA0
        || u == 0x1680 || (0x2000 <= u && u <= 0x200A) || u == 0x2028 || u == 0x2029 || u == 0x202F
        || u == 0x205F || u == 0x3000
}

/// `s` with leading whitespace removed.
pub open spec fn trim_front(s: Seq<char>) -> Seq<char>
    decreases s.len(),
{
    if s.len() > 0 && is_space_char(s[0]) {
        trim_front(s.drop_first())
    } else {
        s
    }
}

/// `s` with trailing whitespace removed.
pub open spec fn trim_back(s: Seq<char>) -> Seq<char>
    decreases s.len(),
{
    if s.len() > 0 && is_space_char(s.last()) {
        trim_back(s.drop_last())
    } else {
        s
    }
}

/// `s` with whitespace removed on both ends.
pub open spec fn trimmed(s: Seq<char>) -> Seq<char> {
    trim_back(trim_front(s))
}

/// Removes leading and trailing whitespace.
pub fn trim_str(s: &str) -> (r: String)
    ensures
        r@ == trimmed(s@),
{
    let n = s.unicode_len();
    let mut i: usize = 0;
    proof {
        assert(s@.skip(0) =~= s@);
    }
    while i < n && is_ws(s.get_char(i))
        invariant
            0 <= i <= n,
            n == s@.len(),
            trim_front(s@) == trim_front(s@.skip(i as int)),
        decreases n - i,
    {
        proof {
            assert(s@.skip(i as int).drop_first() =~= s@.skip(i as int + 1));
        }
        i = i + 1;
    }
    proof {
        assert(trim_front(s@) == s@.skip(i as int));
        assert(s@.skip(i as int) =~= s@.subrange(i as int, n as int));
    }
    let mut j: usize = n;
    while j > i && is_ws(s.get_char(j - 1))
        invariant
            i <= j <= n,
            n == s@.len(),
            trim_front(s@) == s@.subrange(i as int, n as int),
            trim_back(s@.subrange(i as int, n as int)) == trim_back(
                s@.subrange(i as int, j as int),
            ),
        decreases j,
    {
        proof {
            assert(s@.subrange(i as int, j as int).drop_last() =~= s@.subrange(
                i as int,
                j as int - 1,
            ));
        }
        j = j - 1;
    }
    let part = s.substring_char(i, j);
    part.to_owned()
}

/// The two literal tokens that mean "true" for a boolean option.
pub open spec fn is_true_token(s: Seq<char>) -> bool {
    s == "true"@ || s == "1"@
}

pub(crate) fn str_eq(a: &str, b: &str) -> (r: bool)
    ensures
        r == (a@ == b@),
{
    let sa: String = a.to_owned();
    let sb: String = b.to_owned();
    sa == sb
}

/// Token test used for every boolean option value (after trimming).
pub fn is_true_str(t: &str) -> (r: bool)
    ensures
        r == is_true_token(t@),
{
    str_eq(t, "true") || str_eq(t, "1")
}

/// True when `c` is a decimal digit.
pub open spec fn is_digit(c: char) -> bool {
    48 <= c as u32 && c as u32 <= 57
}

/// The numeric value of a digit character.
pub open spec fn digit_val(c: char) -> int {
    c as u32 - 48
}

/// True when every character of `s` is a decimal digit.
pub open spec fn all_digits(s: Seq<char>) -> bool {
    forall|i: int| 0 <= i < s.len() ==> is_digit(#[trigger] s[i])
}

/// The value of a digit string read in base ten.
pub open spec fn dec_value(s: Seq<char>) -> int
    decreases s.len(),
{
    if s.len() == 0 {
        0
    } else {
        dec_value(s.drop_last()) * 10 + digit_val(s.last())
    }
}

proof fn lemma_dec_value_nonneg(s: Seq<char>)
    requires
        all_digits(s),
    ensures
        dec_value(s) >= 0,
    decreases s.len(),
{
    if s.len() > 0 {
        assert(all_digits(s.drop_last()));
        lemma_dec_value_nonneg(s.drop_last());
    }
}

/// A digit string is worth at least as much as any of its prefixes.
proof fn lemma_dec_value_mono(s: Seq<char>, k: int)
    requires
        all_digits(s),
        0 <= k <= s.len(),
    ensures
        dec_value(s) >= dec_value(s.take(k)) >= 0,
    decreases s.len() - k,
{
    assert(all_digits(s.take(k)));
    lemma_dec_value_nonneg(s.take(k));
    if k < s.len() {
        assert(s.take(k + 1).drop_last() =~= s.take(k));
        assert(dec_value(s.take(k + 1)) == dec_value(s.take(k)) * 10 + digit_val(s[k]));
        lemma_dec_value_mono(s, k + 1);
    } else {
        assert(s.take(k) =~= s);
    }
}

/// A numeric token with an optional leading `+` stripped.
pub open spec fn unsigned_body(s: Seq<char>) -> Seq<char> {
    if s.len() > 0 && s[0] == '+' {
        s.drop_first()
    } else {
        s
    }
}

/// How an unsigned numeric option value is read: an optional leading `+`,
/// then one or more digits, whose value must fit the type.
pub open spec fn spec_parse_u32(s: Seq<char>) -> Option<u32> {
    let t = unsigned_body(s);
    if t.len() > 0 && all_digits(t) && dec_value(t) <= u32::MAX {
        Some(dec_value(t) as u32)
    } else {
        None
    }
}

/// Reads an unsigned decimal number, `None` on any malformed or oversized
/// input.
pub fn parse_u32_str(s: &str) -> (r: Option<u32>)
    ensures
        r == spec_parse_u32(s@),
{
    let n = s.unicode_len();
    let mut k: usize = 0;
    if n > 0 && s.get_char(0) == '+' {
        k = 1;
    }
    let ghost t = unsigned_body(s@);
    let ghost off = k as int;
    proof {
        assert(t =~= s@.subrange(off, n as int));
    }
    if k >= n {
        return None;
    }
    let mut acc: u64 = 0;
    while k < n
        invariant
            off <= k <= n,
            n == s@.len(),
            off == 0 || off == 1,
            t == unsigned_body(s@),
            t == s@.subrange(off, n as int),
            all_digits(t.take(k - off)),
            acc == dec_value(t.take(k - off)),
            acc <= u32::MAX,
        decreases n - k,
    {
        let c = s.get_char(k);
        let u = c as u32;
        proof {
            assert(t[k - off] == s@[k as int]);
        }
        if u < 48 || u > 57 {
            proof {
                assert(0 <= k - off < t.len());
                assert(!is_digit(t[k - off]));
                assert(!all_digits(t));
            }
            return None;
        }
        proof {
            assert(t.take(k - off + 1).drop_last() =~= t.take(k - off));
            assert(t.take(k - off + 1).last() == t[k - off]);
            assert(all_digits(t.take(k - off + 1)));
            assert(dec_value(t.take(k - off + 1)) == dec_value(t.take(k - off)) * 10 + digit_val(
                t[k - off],
            ));
            assert(digit_val(t[k - off]) == u - 48);
        }
        acc = acc * 10 + (u - 48) as u64;
        proof {
            assert(acc == dec_value(t.take(k - off + 1)));
        }
        if acc > u32::MAX as u64 {
            proof {
                if all_digits(t) && dec_value(t) <= u32::MAX {
                    lemma_dec_value_mono(t, k - off + 1);
                    assert(false);
                }
            }
            return None;
        }
        k = k + 1;
    }
    proof {
        assert(t.take(n - off) =~= t);
    }
    Some(acc as u32)
}

} // verus!
