//! Unsigned decimal codec for numeric header and XML field values.
//!
//! Numeric fields use unsigned 64-bit semantics: negative, empty or
//! overflowing text is a parse failure, never a clamp or a default.

use vstd::prelude::*;

verus! {

pub open spec fn is_digit(c: char) -> bool {
    48 <= c as u32 && c as u32 <= 57
}

pub open spec fn digit_val(c: char) -> int {
    c as u32 - 48
}

pub open spec fn all_digits(s: Seq<char>) -> bool {
    forall|i: int| 0 <= i < s.len() ==> is_digit(#[trigger] s[i])
}

/// The value of an all-digit string, most significant digit first.
pub open spec fn dec_val(s: Seq<char>) -> int
    decreases s.len(),
{
    if s.len() == 0 {
        0
    } else {
        dec_val(s.drop_last()) * 10 + digit_val(s.last())
    }
}

/// What Rust's unsigned-decimal grammar accepts: an optional leading `+`
/// followed by one or more digits whose value fits in 64 bits.
pub open spec fn dec_of(s: Seq<char>) -> Option<u64> {
    let t = if s.len() > 0 && s[0] == '+' {
        s.drop_first()
    } else {
        s
    };
    if t.len() > 0 && all_digits(t) && dec_val(t) <= u64::MAX {
        Some(dec_val(t) as u64)
    } else {
        None
    }
}

/// The canonical decimal rendering of an unsigned value, without sign or
/// leading zeros.
pub open spec fn dec_string_of(v: nat) -> Seq<char>
    decreases v,
{
    if v < 10 {
        seq![digit_char(v as int)]
    } else {
        dec_string_of(v / 10).push(digit_char((v % 10) as int))
    }
}

pub open spec fn digit_char(d: int) -> char {
    if d == 0 {
        '0'
    } else if d == 1 {
        '1'
    } else if d == 2 {
        '2'
    } else if d == 3 {
        '3'
    } else if d == 4 {
        '4'
    } else if d == 5 {
        '5'
    } else if d == 6 {
        '6'
    } else if d == 7 {
        '7'
    } else if d == 8 {
        '8'
    } else {
        '9'
    }
}

pub proof fn lemma_digit_char(d: int)
    requires
        0 <= d < 10,
    ensures
        is_digit(digit_char(d)),
        digit_val(digit_char(d)) == d,
        digit_char(d) != '+',
{
}

pub proof fn lemma_dec_val_nonneg(s: Seq<char>)
    requires
        all_digits(s),
    ensures
        dec_val(s) >= 0,
    decreases s.len(),
{
    if s.len() > 0 {
        assert(all_digits(s.drop_last())) by {
            assert(forall|i: int|
                0 <= i < s.len() - 1 ==> #[trigger] s.drop_last()[i] == s[i]);
        }
        lemma_dec_val_nonneg(s.drop_last());
    }
}

/// The value of an all-digit string bounds the value of each of its prefixes.
pub proof fn lemma_dec_val_prefix(s: Seq<char>, i: int)
    requires
        all_digits(s),
        0 <= i <= s.len(),
    ensures
        dec_val(s.subrange(0, i)) <= dec_val(s),
    decreases s.len(),
{
    if i == s.len() {
        assert(s.subrange(0, i) =~= s);
    } else {
        assert(all_digits(s.drop_last())) by {
            assert(forall|i: int|
                0 <= i < s.len() - 1 ==> #[trigger] s.drop_last()[i] == s[i]);
        }
        assert(s.subrange(0, i) =~= s.drop_last().subrange(0, i));
        lemma_dec_val_prefix(s.drop_last(), i);
        lemma_dec_val_nonneg(s.drop_last());
        assert(dec_val(s) == dec_val(s.drop_last()) * 10 + digit_val(s.last()));
        assert(dec_val(s.drop_last()) * 10 >= dec_val(s.drop_last()));
        assert(digit_val(s.last()) >= 0);
    }
}

/// Parses unsigned decimal text exactly as Rust's `u64` grammar does:
/// an optional leading `+`, then only digits; anything else, including an
/// empty string, a sign other than `+`, or an overflowing value, is `None`.
pub fn parse_u64(s: &str) -> (r: Option<u64>)
    ensures
        r == dec_of(s@),
{
    let n = s.unicode_len();
    let start: usize = if n > 0 && s.get_char(0) == '+' {
        1
    } else {
        0
    };
    let ghost t = if s@.len() > 0 && s@[0] == '+' {
        s@.drop_first()
    } else {
        s@
    };
    assert(t =~= s@.subrange(start as int, n as int));
    if n == start {
        return None;
    }
    let mut i: usize = start;
    let mut v: u64 = 0;
    while i < n
        invariant
            start <= i <= n,
            n == s@.len(),
            start as int == if s@.len() > 0 && s@[0] == '+' {
                1int
            } else {
                0int
            },
            t == s@.subrange(start as int, n as int),
            t == if s@.len() > 0 && s@[0] == '+' {
                s@.drop_first()
            } else {
                s@
            },
            all_digits(s@.subrange(start as int, i as int)),
            v == dec_val(s@.subrange(start as int, i as int)),
        decreases n - i,
    {
        let c = s.get_char(i);
        let u = c as u32;
        if !(48 <= u && u <= 57) {
            proof {
                assert(t[i - start] == s@[i as int]);
                assert(!is_digit(t[i - start]));
                assert(!all_digits(t));
            }
            return None;
        }
        let d: u64 = (u - 48) as u64;
        let wide: u128 = (v as u128) * 10 + (d as u128);
        let ghost prefix = s@.subrange(start as int, i as int);
        let ghost prefix1 = s@.subrange(start as int, i + 1 as int);
        assert(prefix1.drop_last() =~= prefix && prefix1.last() == s@[i as int]);
        if wide > u64::MAX as u128 {
            proof {
                assert(all_digits(prefix1));
                assert(dec_val(prefix1) > u64::MAX);
                assert(prefix1 =~= t.subrange(0, i + 1 - start));
                if all_digits(t) {
                    lemma_dec_val_prefix(t, i + 1 - start);
                }
            }
            return None;
        }
        v = wide as u64;
        i = i + 1;
    }
    assert(t =~= s@.subrange(start as int, i as int));
    Some(v)
}

fn digit_str(d: u64) -> (r: &'static str)
    requires
        d < 10,
    ensures
        r@ =~= seq![digit_char(d as int)],
{
    proof {
        reveal_strlit("0");
        reveal_strlit("1");
        reveal_strlit("2");
        reveal_strlit("3");
        reveal_strlit("4");
        reveal_strlit("5");
        reveal_strlit("6");
        reveal_strlit("7");
        reveal_strlit("8");
        reveal_strlit("9");
    }
    if d == 0 {
        "0"
    } else if d == 1 {
        "1"
    } else if d == 2 {
        "2"
    } else if d == 3 {
        "3"
    } else if d == 4 {
        "4"
    } else if d == 5 {
        "5"
    } else if d == 6 {
        "6"
    } else if d == 7 {
        "7"
    } else if d == 8 {
        "8"
    } else {
        "9"
    }
}

fn push_decimal(out: &mut String, v: u64)
    ensures
        final(out)@ == old(out)@ + dec_string_of(v as nat),
    decreases v,
{
    if v >= 10 {
        push_decimal(out, v / 10);
    }
    out.append(digit_str(v % 10));
    proof {
        if v >= 10 {
            assert(dec_string_of(v as nat) =~= dec_string_of((v as nat) / 10)
                + seq![digit_char((v % 10) as int)]);
        } else {
            assert(dec_string_of(v as nat) =~= seq![digit_char(v as int)]);
        }
        assert(final(out)@ =~= old(out)@ + dec_string_of(v as nat));
    }
}

/// Renders an unsigned value in canonical decimal, the encoding every
/// numeric header uses on the wire.
pub fn u64_to_string(v: u64) -> (r: String)
    ensures
        r@ == dec_string_of(v as nat),
{
    let mut s = String::new();
    push_decimal(&mut s, v);
    proof {
        assert(s@ =~= dec_string_of(v as nat));
    }
    s
}

/// Rendering an unsigned value and parsing the result returns the value:
/// the numeric codec round-trips on every `u64`.
pub proof fn lemma_decimal_round_trip(v: u64)
    ensures
        all_digits(dec_string_of(v as nat)),
        dec_val(dec_string_of(v as nat)) == v,
        dec_of(dec_string_of(v as nat)) == Some(v),
    decreases v,
{
    let s = dec_string_of(v as nat);
    if v < 10 {
        lemma_digit_char(v as int);
        assert(s.last() == digit_char(v as int));
        assert(s.drop_last() =~= Seq::<char>::empty());
        assert(dec_val(s.drop_last()) == 0);
        assert(dec_val(s) == digit_val(digit_char(v as int)));
        assert(s[0] == digit_char(v as int));
    } else {
        lemma_decimal_round_trip(v / 10);
        let p = dec_string_of((v / 10) as nat);
        lemma_digit_char((v % 10) as int);
        assert(s == p.push(digit_char((v % 10) as int)));
        assert(s.drop_last() =~= p && s.last() == digit_char((v % 10) as int));
        assert(dec_val(s) == dec_val(p) * 10 + (v % 10) as int);
        assert(dec_val(s) == v) by {
            vstd::arithmetic::div_mod::lemma_fundamental_div_mod(v as int, 10);
        }
        assert(forall|i: int| 0 <= i < s.len() ==> is_digit(#[trigger] s[i])) by {
            assert(forall|i: int| 0 <= i < p.len() ==> s[i] == #[trigger] p[i]);
        }
        assert(s[0] == p[0]);
    }
    assert(is_digit(s[0]) && s[0] != '+') by {
        lemma_digit_char(digit_val(s[0]));
    }
}

} // verus!
