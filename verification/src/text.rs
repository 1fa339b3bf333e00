//! Character-level text helpers: bridging `String` and `Vec<char>`,
//! and decimal numerals with parse/print round-trip lemmas.
use vstd::prelude::*;

verus! {

/// Relies on `str::chars`: the characters of a string slice, in order,
/// are exactly its view.
#[verifier::external_body]
pub fn str_chars(s: &str) -> (r: Vec<char>)
    ensures
        r@ == s@,
{
    s.chars().collect()
}

/// Relies on `String: FromIterator<char>`: collecting characters yields
/// the string whose view is that character sequence.
#[verifier::external_body]
pub fn string_from_chars(v: &Vec<char>) -> (r: String)
    ensures
        r@ == v@,
{
    v.iter().collect()
}

pub open spec fn is_digit(c: char) -> bool {
    '0' <= c && c <= '9'
}

pub open spec fn digit_val(c: char) -> nat {
    (c as nat - '0' as nat) as nat
}

pub open spec fn digit_char(d: nat) -> char
    recommends
        d < 10,
{
    ((d + '0' as nat) as u8) as char
}

/// The decimal numeral of `n`, most significant digit first, no leading zeros.
pub open spec fn dec_digits(n: nat) -> Seq<char>
    decreases n,
{
    if n < 10 {
        seq![digit_char(n)]
    } else {
        dec_digits(n / 10) + seq![digit_char(n % 10)]
    }
}

/// The value of a digit string read in base ten.
pub open spec fn dec_val(s: Seq<char>) -> nat
    decreases s.len(),
{
    if s.len() == 0 {
        0
    } else {
        dec_val(s.drop_last()) * 10 + digit_val(s.last())
    }
}

pub open spec fn all_digits(s: Seq<char>) -> bool {
    forall|i: int| 0 <= i < s.len() ==> is_digit(#[trigger] s[i])
}

pub proof fn lemma_digit_char(d: nat)
    requires
        d < 10,
    ensures
        is_digit(digit_char(d)),
        digit_val(digit_char(d)) == d,
        d >= 1 ==> digit_char(d) != '0',
{
    let c = ((d + '0' as nat) as u8) as char;
    assert(c as nat == d + 48);
}

pub proof fn lemma_dec_digits_shape(n: nat)
    ensures
        dec_digits(n).len() >= 1,
        all_digits(dec_digits(n)),
        n >= 10 ==> dec_digits(n)[0] != '0',
        n < 10 ==> dec_digits(n).len() == 1,
        n >= 1 ==> dec_digits(n)[0] != '0' || n == 0,
    decreases n,
{
    if n < 10 {
        lemma_digit_char(n);
        assert(all_digits(dec_digits(n)));
    } else {
        lemma_dec_digits_shape(n / 10);
        assert(n / 10 >= 1);
        lemma_digit_char((n % 10) as nat);
        let s = dec_digits(n);
        assert(s[0] == dec_digits(n / 10)[0]);
        assert forall|i: int| 0 <= i < s.len() implies is_digit(#[trigger] s[i]) by {
            if i < s.len() - 1 {
                assert(s[i] == dec_digits(n / 10)[i]);
            } else {
                assert(s[i] == digit_char(n % 10));
            }
        }
    }
}

pub proof fn lemma_dec_round_trip(n: nat)
    ensures
        dec_val(dec_digits(n)) == n,
    decreases n,
{
    if n < 10 {
        let s = dec_digits(n);
        assert(s.len() == 1);
        assert(s.drop_last().len() == 0);
        assert(dec_val(s.drop_last()) == 0);
        lemma_digit_char(n);
        assert(dec_val(s) == dec_val(s.drop_last()) * 10 + digit_val(s.last()));
    } else {
        lemma_dec_round_trip(n / 10);
        let s = dec_digits(n);
        assert(s.drop_last() =~= dec_digits(n / 10));
        lemma_digit_char((n % 10) as nat);
        assert(dec_val(s) == (n / 10) * 10 + n % 10);
        assert((n / 10) * 10 + n % 10 == n) by (nonlinear_arith);
    }
}

/// Append the decimal numeral of `n` to `out`.
pub fn push_u64(out: &mut Vec<char>, n: u64)
    ensures
        final(out)@ == old(out)@ + dec_digits(n as nat),
    decreases n,
{
    if n < 10 {
        let c: u8 = (n as u8) + ('0' as u8);
        proof {
            lemma_digit_char(n as nat);
            assert(digit_char(n as nat) == (c as char));
        }
        out.push(c as char);
    } else {
        push_u64(out, n / 10);
        let d: u64 = n % 10;
        let c: u8 = (d as u8) + ('0' as u8);
        proof {
            lemma_digit_char((n % 10) as nat);
            assert(digit_char((n % 10) as nat) == (c as char));
        }
        out.push(c as char);
        proof {
            assert(out@ =~= old(out)@ + dec_digits(n as nat));
        }
    }
}


pub proof fn lemma_dec_val_mono(s: Seq<char>, i: int)
    requires
        0 <= i <= s.len(),
    ensures
        dec_val(s) >= dec_val(s.take(i)),
    decreases s.len() - i,
{
    if i == s.len() {
        assert(s.take(i) =~= s);
    } else {
        lemma_dec_val_mono(s, i + 1);
        let a = s.take(i + 1);
        assert(a.drop_last() =~= s.take(i));
        assert(a.last() == s[i]);
        assert(dec_val(s.take(i + 1)) == dec_val(s.take(i)) * 10 + digit_val(s[i]));
        assert(dec_val(s.take(i)) * 10 >= dec_val(s.take(i))) by (nonlinear_arith);
    }
}

/// What a digit string is worth, if it is one and its value fits in `u64`.
pub open spec fn spec_parse_u64(s: Seq<char>) -> Option<u64> {
    if s.len() >= 1 && all_digits(s) && dec_val(s) <= u64::MAX {
        Some(dec_val(s) as u64)
    } else {
        None
    }
}

/// Parse an unsigned decimal numeral; `None` on any non-digit, emptiness, or overflow.
pub fn parse_u64_chars(s: &Vec<char>) -> (r: Option<u64>)
    ensures
        r == spec_parse_u64(s@),
{
    if s.len() == 0 {
        return None;
    }
    let mut acc: u64 = 0;
    let mut i: usize = 0;
    while i < s.len()
        invariant
            0 <= i <= s@.len(),
            all_digits(s@.take(i as int)),
            dec_val(s@.take(i as int)) == acc,
        decreases s@.len() - i,
    {
        let c = s[i];
        if !('0' <= c && c <= '9') {
            proof {
                assert(!is_digit(s@[i as int]));
            }
            return None;
        }
        let d: u64 = (c as u32 as u64) - ('0' as u32 as u64);
        proof {
            assert(digit_val(s@[i as int]) == d);
        }
        proof {
            assert(s@.take(i + 1).drop_last() =~= s@.take(i as int));
            assert(s@.take(i + 1).last() == s@[i as int]);
            assert(dec_val(s@.take(i + 1)) == acc * 10 + d);
            assert(forall|j: int|
                0 <= j < i + 1 ==> is_digit(#[trigger] s@.take(i + 1)[j]));
        }
        let step = match acc.checked_mul(10) {
            Some(x) => x.checked_add(d),
            None => None,
        };
        match step {
            Some(v) => {
                acc = v;
            }
            None => {
                proof {
                    lemma_dec_val_mono(s@, i + 1);
                }
                return None;
            }
        }
        i = i + 1;
    }
    proof {
        assert(s@.take(i as int) =~= s@);
    }
    Some(acc)
}

/// The decimal numeral of a signed value, with a leading minus where negative.
pub open spec fn int_digits(v: int) -> Seq<char> {
    if v < 0 {
        seq!['-'] + dec_digits((-v) as nat)
    } else {
        dec_digits(v as nat)
    }
}

pub open spec fn spec_parse_i64(s: Seq<char>) -> Option<i64> {
    if s.len() >= 1 && s[0] == '-' {
        let t = s.skip(1);
        if t.len() >= 1 && all_digits(t) && dec_val(t) <= 0x8000000000000000 {
            Some((0 - dec_val(t)) as i64)
        } else {
            None
        }
    } else {
        if s.len() >= 1 && all_digits(s) && dec_val(s) <= i64::MAX {
            Some(dec_val(s) as i64)
        } else {
            None
        }
    }
}

/// Parse a signed decimal numeral; `None` outside the `i64` range.
pub fn parse_i64_chars(s: &Vec<char>) -> (r: Option<i64>)
    ensures
        r == spec_parse_i64(s@),
{
    if s.len() >= 1 && s[0] == '-' {
        let mut t: Vec<char> = Vec::new();
        let mut i: usize = 1;
        while i < s.len()
            invariant
                1 <= i <= s@.len(),
                s@.len() >= 1,
                t@ =~= s@.skip(1).take(i - 1),
            decreases s@.len() - i,
        {
            t.push(s[i]);
            proof {
                assert(s@.skip(1)[i - 1] == s@[i as int]);
            }
            i = i + 1;
        }
        proof {
            assert(t@ =~= s@.skip(1));
        }
        match parse_u64_chars(&t) {
            Some(m) => {
                if m <= 0x8000000000000000 {
                    proof {
                        assert(dec_val(s@.skip(1)) == m);
                    }
                    if m == 0x8000000000000000 {
                        Some(i64::MIN)
                    } else {
                        Some(-(m as i64))
                    }
                } else {
                    None
                }
            }
            None => None,
        }
    } else {
        match parse_u64_chars(s) {
            Some(m) => {
                if m <= i64::MAX as u64 {
                    Some(m as i64)
                } else {
                    None
                }
            }
            None => None,
        }
    }
}

/// Append the decimal numeral of a signed value.
pub fn push_i64(out: &mut Vec<char>, n: i64)
    ensures
        final(out)@ == old(out)@ + int_digits(n as int),
{
    if n >= 0 {
        push_u64(out, n as u64);
    } else {
        out.push('-');
        let m: u64 = if n == i64::MIN {
            0x8000000000000000u64
        } else {
            (-n) as u64
        };
        push_u64(out, m);
        proof {
            assert(m == -(n as int));
            assert(final(out)@ =~= old(out)@ + int_digits(n as int));
        }
    }
}

pub proof fn lemma_u64_digits_round_trip(n: u64)
    ensures
        spec_parse_u64(dec_digits(n as nat)) == Some(n),
{
    lemma_dec_digits_shape(n as nat);
    lemma_dec_round_trip(n as nat);
}

pub proof fn lemma_i64_digits_round_trip(n: i64)
    ensures
        spec_parse_i64(int_digits(n as int)) == Some(n),
{
    if n >= 0 {
        lemma_dec_digits_shape(n as nat);
        lemma_dec_round_trip(n as nat);
        let s = int_digits(n as int);
        assert(s[0] != '-');
    } else {
        let m = (-(n as int)) as nat;
        lemma_dec_digits_shape(m);
        lemma_dec_round_trip(m);
        let s = int_digits(n as int);
        assert(s[0] == '-');
        assert(s.skip(1) =~= dec_digits(m));
    }
}


/// Relies on `str` equality: two string slices are equal exactly when
/// their characters are.
#[verifier::external_body]
pub fn str_eq(a: &str, b: &str) -> (r: bool)
    ensures
        r == (a@ == b@),
{
    a == b
}

/// A `String` with the same characters as `s`.
pub fn string_of(s: &str) -> (r: String)
    ensures
        r@ == s@,
{
    let cs = str_chars(s);
    string_from_chars(&cs)
}

/// The concatenation of two string slices.
pub fn strcat(a: &str, b: &str) -> (r: String)
    ensures
        r@ == a@ + b@,
{
    let mut out: Vec<char> = Vec::new();
    crate::json::push_str_chars(&mut out, a);
    crate::json::push_str_chars(&mut out, b);
    string_from_chars(&out)
}

/// The decimal numeral of `n` as a string.
pub fn u64_string(n: u64) -> (r: String)
    ensures
        r@ == dec_digits(n as nat),
{
    let mut out: Vec<char> = Vec::new();
    push_u64(&mut out, n);
    string_from_chars(&out)
}


pub proof fn lemma_dec_val2(a: char, b: char)
    ensures
        dec_val(seq![a, b]) == digit_val(a) * 10 + digit_val(b),
{
    let s = seq![a, b];
    assert(s.drop_last() =~= seq![a]);
    assert(s.last() == b);
    assert(seq![a].drop_last() =~= Seq::<char>::empty());
    assert(seq![a].last() == a);
    assert(dec_val(seq![a].drop_last()) == 0);
    assert(dec_val(seq![a]) == dec_val(seq![a].drop_last()) * 10 + digit_val(a));
    assert(dec_val(s) == dec_val(seq![a]) * 10 + digit_val(b));
}

pub proof fn lemma_dec_val4(a: char, b: char, c: char, d: char)
    ensures
        dec_val(seq![a, b, c, d]) == ((digit_val(a) * 10 + digit_val(b)) * 10 + digit_val(c))
            * 10 + digit_val(d),
{
    let s = seq![a, b, c, d];
    assert(s.drop_last() =~= seq![a, b, c]);
    assert(s.last() == d);
    assert(seq![a, b, c].drop_last() =~= seq![a, b]);
    assert(seq![a, b, c].last() == c);
    lemma_dec_val2(a, b);
    assert(dec_val(seq![a, b, c]) == dec_val(seq![a, b]) * 10 + digit_val(c));
    assert(dec_val(s) == dec_val(seq![a, b, c]) * 10 + digit_val(d));
}

/// Whether `p` occurs in `s` as a contiguous run.
pub open spec fn spec_contains(s: Seq<char>, p: Seq<char>) -> bool {
    exists|i: int| 0 <= i <= s.len() - p.len() && #[trigger] s.subrange(i, i + p.len()) == p
}

/// Substring search; the naive scan, checked against `spec_contains`.
pub fn contains_sub(s: &str, pat: &str) -> (r: bool)
    ensures
        r == spec_contains(s@, pat@),
{
    let sv = str_chars(s);
    let pv = str_chars(pat);
    let slen = sv.len();
    let plen = pv.len();
    if plen > slen {
        proof {
            assert forall|k: int| !(0 <= k <= s@.len() - pat@.len() && #[trigger] s@.subrange(
                k,
                k + pat@.len(),
            ) == pat@) by {
                assert(s@.len() - pat@.len() < 0);
            }
        }
        return false;
    }
    if plen == 0 {
        proof {
            let zero: int = 0;
            assert(s@.subrange(zero, zero + pat@.len()) =~= pat@);
            assert(spec_contains(s@, pat@));
        }
        return true;
    }
    let mut i: usize = 0;
    while i <= slen - plen
        invariant
            sv@ == s@,
            pv@ == pat@,
            slen == sv@.len(),
            plen == pv@.len(),
            plen <= slen,
            1 <= plen,
            0 <= i <= slen - plen + 1,
            forall|k: int| 0 <= k < i ==> #[trigger] s@.subrange(k, k + pat@.len()) != pat@,
        decreases slen - plen + 1 - i,
    {
        let mut j: usize = 0;
        let mut hit = true;
        while j < plen && hit
            invariant
                sv@ == s@,
                pv@ == pat@,
                slen == sv@.len(),
                plen == pv@.len(),
                plen <= slen,
                0 <= i <= slen - plen,
                0 <= j <= plen,
                hit ==> forall|k: int| 0 <= k < j ==> s@[i + k] == pat@[k],
                !hit ==> s@.subrange(i as int, i + pat@.len()) != pat@,
            decreases plen - j + (if hit {
                1int
            } else {
                0int
            }),
        {
            if sv[i + j] != pv[j] {
                proof {
                    assert(s@.subrange(i as int, i + pat@.len())[j as int] == s@[i + j]);
                    assert(s@.subrange(i as int, i + pat@.len()) != pat@);
                }
                hit = false;
            } else {
                j = j + 1;
            }
        }
        if hit {
            proof {
                assert(j == pv@.len());
                assert(s@.subrange(i as int, i + pat@.len()) =~= pat@);
            }
            return true;
        }
        proof {
            assert(s@.subrange(i as int, i + pat@.len()) != pat@);
        }
        i = i + 1;
    }
    proof {
        assert(forall|k: int|
            0 <= k <= s@.len() - pat@.len() ==> #[trigger] s@.subrange(k, k + pat@.len())
                != pat@);
    }
    false
}

} // verus!
