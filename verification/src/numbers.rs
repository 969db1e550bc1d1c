//! Decimal strings: verified reading and writing of integers.

use vstd::prelude::*;
use vstd::string::StrSliceExecFns;

verus! {

/// Relies on String::push: appends the given character to the end of the
/// string.
#[verifier::external_body]
pub(crate) fn push_char(s: &mut String, c: char)
    ensures
        final(s)@ == old(s)@.push(c),
{
    s.push(c);
}

/// Whether two strings hold the same characters.
pub fn str_eq(s: &str, t: &str) -> (r: bool)
    ensures
        r == (s@ == t@),
{
    let sl = s.unicode_len();
    let tl = t.unicode_len();
    if sl != tl {
        return false;
    }
    let mut i: usize = 0;
    while i < sl
        invariant
            0 <= i <= sl,
            sl == s@.len(),
            sl == t@.len(),
            forall|j: int| 0 <= j < i ==> s@[j] == t@[j],
        decreases sl - i,
    {
        if s.get_char(i) != t.get_char(i) {
            return false;
        }
        i += 1;
    }
    proof {
        assert(s@ =~= t@);
    }
    true
}

/// An ASCII decimal digit.
pub open spec fn is_digit(c: char) -> bool {
    '0' as int <= c as int && c as int <= '9' as int
}

/// The value of a decimal digit.
pub open spec fn digit_val(c: char) -> int {
    c as int - '0' as int
}

/// Every character of the string is a decimal digit.
pub open spec fn all_digits(s: Seq<char>) -> bool {
    forall|i: int| 0 <= i < s.len() ==> is_digit(#[trigger] s[i])
}

/// A nonempty run of decimal digits.
pub open spec fn valid_uint_str(s: Seq<char>) -> bool {
    s.len() > 0 && all_digits(s)
}

/// The value of a run of decimal digits.
pub open spec fn uint_val(s: Seq<char>) -> int
    decreases s.len(),
{
    if s.len() == 0 {
        0
    } else {
        uint_val(s.drop_last()) * 10 + digit_val(s.last())
    }
}

/// An optional `+` or `-` sign followed by a nonempty run of digits: what
/// Rust's integer parsing accepts.
pub open spec fn valid_int_str(s: Seq<char>) -> bool {
    if s.len() > 0 && (s[0] == '+' || s[0] == '-') {
        valid_uint_str(s.drop_first())
    } else {
        valid_uint_str(s)
    }
}

/// The signed value of a decimal string.
pub open spec fn int_val(s: Seq<char>) -> int {
    if s.len() > 0 && s[0] == '-' {
        -uint_val(s.drop_first())
    } else if s.len() > 0 && s[0] == '+' {
        uint_val(s.drop_first())
    } else {
        uint_val(s)
    }
}

/// A run of digits has a nonnegative value.
pub proof fn lemma_uint_val_nonneg(s: Seq<char>)
    requires
        all_digits(s),
    ensures
        0 <= uint_val(s),
    decreases s.len(),
{
    if s.len() > 0 {
        assert(forall|i: int|
            0 <= i < s.drop_last().len() ==> is_digit(#[trigger] s.drop_last()[i]));
        lemma_uint_val_nonneg(s.drop_last());
        assert(is_digit(s.last()));
        assert(uint_val(s.drop_last()) * 10 >= 0) by (nonlinear_arith)
            requires
                uint_val(s.drop_last()) >= 0,
        ;
    }
}

/// Reading one more digit multiplies the prefix value by ten and adds it.
pub proof fn lemma_uint_take_step(s: Seq<char>, k: int)
    requires
        0 <= k < s.len(),
    ensures
        uint_val(s.take(k + 1)) == uint_val(s.take(k)) * 10 + digit_val(s[k]),
{
    assert(s.take(k + 1).drop_last() =~= s.take(k));
    assert(s.take(k + 1).last() == s[k]);
}

/// A prefix of a run of digits never exceeds the whole run's value.
pub proof fn lemma_uint_prefix_le(s: Seq<char>, k: int)
    requires
        all_digits(s),
        0 <= k <= s.len(),
    ensures
        uint_val(s.take(k)) <= uint_val(s),
    decreases s.len() - k,
{
    if k == s.len() {
        assert(s.take(k) =~= s);
    } else {
        lemma_uint_prefix_le(s, k + 1);
        lemma_uint_take_step(s, k);
        assert(forall|i: int| 0 <= i < s.take(k).len() ==> is_digit(#[trigger] s.take(k)[i]));
        lemma_uint_val_nonneg(s.take(k));
        assert(is_digit(s[k]));
        assert(uint_val(s.take(k)) * 10 >= uint_val(s.take(k))) by (nonlinear_arith)
            requires
                uint_val(s.take(k)) >= 0,
        ;
    }
}

/// Reads a signed 64-bit integer from a decimal string, exactly as Rust's
/// own integer parsing does: an optional sign, at least one digit, nothing
/// else, and a value that fits.
pub fn parse_i64(s: &str) -> (r: Option<i64>)
    ensures
        r == (if valid_int_str(s@) && i64::MIN <= int_val(s@) <= i64::MAX {
            Some(int_val(s@) as i64)
        } else {
            None::<i64>
        }),
{
    let len = s.unicode_len();
    if len == 0 {
        return None;
    }
    let first = s.get_char(0);
    let negative = first == '-';
    let start: usize = if first == '-' || first == '+' {
        1
    } else {
        0
    };
    if len == start {
        return None;
    }
    let ghost ds = s@.subrange(start as int, s@.len() as int);
    let mut mag: u128 = 0;
    let mut i: usize = start;
    proof {
        assert(ds.take(0) =~= Seq::<char>::empty());
    }
    while i < len
        invariant
            start <= i <= len,
            len == s@.len(),
            start == 0 || start == 1,
            start == 1 ==> (s@[0] == '-' || s@[0] == '+'),
            start == 0 ==> !(s@[0] == '-' || s@[0] == '+'),
            negative == (s@[0] == '-'),
            len > start,
            ds == s@.subrange(start as int, s@.len() as int),
            forall|j: int| start <= j < i ==> is_digit(#[trigger] s@[j]),
            mag == uint_val(ds.take(i - start)),
            mag <= 0x8000_0000_0000_0000u128,
        decreases len - i,
    {
        let c = s.get_char(i);
        let v = c as u32;
        if v < 48 || v > 57 {
            proof {
                assert(!is_digit(s@[i as int]));
                assert(ds[i - start] == s@[i as int]);
                assert(!valid_int_str(s@)) by {
                    if start == 1 {
                        assert(s@.drop_first()[i - 1] == s@[i as int]);
                    }
                }
            }
            return None;
        }
        let d = (v - 48) as u128;
        proof {
            assert(is_digit(s@[i as int]));
            assert(ds[i - start] == s@[i as int]);
            assert(d == digit_val(ds[i - start]));
            lemma_uint_take_step(ds, i - start);
        }
        mag = mag * 10 + d;
        i += 1;
        if mag > 0x8000_0000_0000_0000u128 {
            proof {
                if valid_int_str(s@) {
                    let digits = if start == 1 {
                        s@.drop_first()
                    } else {
                        s@
                    };
                    assert(digits =~= ds);
                    assert(all_digits(ds));
                    lemma_uint_prefix_le(ds, i - start);
                    lemma_uint_val_nonneg(ds);
                    assert(uint_val(ds) >= mag);
                    assert(int_val(s@) == if negative {
                        -uint_val(ds)
                    } else {
                        uint_val(ds)
                    });
                }
            }
            return None;
        }
    }
    proof {
        assert(ds.take(i - start) =~= ds);
        assert(forall|j: int| 0 <= j < ds.len() ==> is_digit(#[trigger] ds[j]));
        let digits = if start == 1 {
            s@.drop_first()
        } else {
            s@
        };
        assert(digits =~= ds);
        assert(valid_int_str(s@));
        assert(int_val(s@) == if negative {
            -uint_val(ds)
        } else {
            uint_val(ds)
        });
    }
    if negative {
        if mag == 0x8000_0000_0000_0000u128 {
            Some(i64::MIN)
        } else {
            Some(-(mag as i64))
        }
    } else {
        if mag <= 0x7fff_ffff_ffff_ffffu128 {
            Some(mag as i64)
        } else {
            None
        }
    }
}

/// Reads a signed 32-bit integer from a decimal string, exactly as Rust's
/// own integer parsing does.
pub fn parse_i32(s: &str) -> (r: Option<i32>)
    ensures
        r == (if valid_int_str(s@) && i32::MIN <= int_val(s@) <= i32::MAX {
            Some(int_val(s@) as i32)
        } else {
            None::<i32>
        }),
{
    match parse_i64(s) {
        Some(v) => {
            if i32::MIN as i64 <= v && v <= i32::MAX as i64 {
                Some(v as i32)
            } else {
                None
            }
        },
        None => None,
    }
}

/// The character of one decimal digit.
pub open spec fn spec_digit_char(d: int) -> char {
    if d == 0 {
        '0'
    } else if d == 1 {
        '1'
    } else if d == 2 {
        '2'
    } else if d == 3 {
        '3'
    } else if d == 4 {
        '4'
    } else if d == 5 {
        '5'
    } else if d == 6 {
        '6'
    } else if d == 7 {
        '7'
    } else if d == 8 {
        '8'
    } else {
        '9'
    }
}

/// The decimal digits of a nonnegative number, most significant first.
pub open spec fn spec_decimal(n: int) -> Seq<char>
    decreases n,
{
    if n < 10 {
        seq![spec_digit_char(if n < 0 {
            0
        } else {
            n
        })]
    } else {
        spec_decimal(n / 10) + seq![spec_digit_char(n % 10)]
    }
}

/// The character of one decimal digit.
fn digit_char(d: u64) -> (r: char)
    requires
        0 <= d <= 9,
    ensures
        r == spec_digit_char(d as int),
{
    match d {
        0 => '0',
        1 => '1',
        2 => '2',
        3 => '3',
        4 => '4',
        5 => '5',
        6 => '6',
        7 => '7',
        8 => '8',
        _ => '9',
    }
}

/// Writes a number in decimal, most significant digit first.
pub fn u64_to_string(n: u64) -> (r: String)
    ensures
        r@ == spec_decimal(n as int),
    decreases n,
{
    if n < 10 {
        let mut r = String::new();
        push_char(&mut r, digit_char(n));
        proof {
            assert(Seq::<char>::empty().push(spec_digit_char(n as int)) =~= spec_decimal(
                n as int,
            ));
        }
        r
    } else {
        let mut r = u64_to_string(n / 10);
        push_char(&mut r, digit_char(n % 10));
        proof {
            assert(spec_decimal(n as int / 10).push(spec_digit_char(n as int % 10))
                =~= spec_decimal(n as int));
        }
        r
    }
}

} // verus!
