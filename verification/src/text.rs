//! Characters and digit strings: the bridges between `String` and
//! `Vec<char>`, and verified conversions between digit strings and numbers.

use vstd::prelude::*;

verus! {

/// Relies on `str::chars`: it yields the characters of the string slice,
/// in order, so collecting them gives a vector whose view is the slice's view.
#[verifier::external_body]
pub fn str_chars(s: &str) -> (r: Vec<char>)
    ensures
        r@ == s@,
{
    s.chars().collect()
}

/// Relies on `String`'s `FromIterator<char>` implementation: collecting
/// characters in order builds the string of exactly those characters.
#[verifier::external_body]
pub fn chars_string(v: &Vec<char>) -> (r: String)
    ensures
        r@ == v@,
{
    v.iter().collect()
}

/// Copy the characters of `v` from position `a` (inclusive) to `b`
/// (exclusive) into a fresh vector.
pub fn copy_range(v: &Vec<char>, a: usize, b: usize) -> (r: Vec<char>)
    requires
        a <= b <= v@.len(),
    ensures
        r@ == v@.subrange(a as int, b as int),
{
    let mut out: Vec<char> = Vec::new();
    let mut i: usize = a;
    while i < b
        invariant
            a <= i <= b <= v@.len(),
            out@ =~= v@.subrange(a as int, i as int),
        decreases b - i,
    {
        out.push(v[i]);
        i += 1;
    }
    assert(out@ =~= v@.subrange(a as int, b as int));
    out
}

/// Decide whether two character vectors hold the same characters.
pub fn chars_eq(a: &Vec<char>, b: &Vec<char>) -> (r: bool)
    ensures
        r == (a@ == b@),
{
    if a.len() != b.len() {
        assert(a@ != b@) by {
            assert(a@.len() != b@.len());
        }
        return false;
    }
    let mut i: usize = 0;
    while i < a.len()
        invariant
            i <= a.len(),
            a.len() == b.len(),
            forall|j: int| 0 <= j < i ==> a@[j] == b@[j],
        decreases a.len() - i,
    {
        if a[i] != b[i] {
            return false;
        }
        i += 1;
    }
    assert(a@ =~= b@);
    true
}

/// Decide whether two string slices hold the same characters.
pub fn str_eq(a: &str, b: &str) -> (r: bool)
    ensures
        r == (a@ == b@),
{
    let va = str_chars(a);
    let vb = str_chars(b);
    chars_eq(&va, &vb)
}

/// Whether `c` is a decimal digit.
pub open spec fn is_digit(c: char) -> bool {
    '0' <= c && c <= '9'
}

/// The value of a decimal digit.
pub open spec fn digit_val(c: char) -> int {
    c as int - '0' as int
}

/// Whether every character of `s` is a decimal digit.
pub open spec fn all_digits(s: Seq<char>) -> bool {
    forall|i: int| 0 <= i < s.len() ==> is_digit(#[trigger] s[i])
}

/// The number denoted by a digit string, most significant digit first.
/// The empty string denotes 0.
pub open spec fn digits_val(s: Seq<char>) -> int
    decreases s.len(),
{
    if s.len() == 0 {
        0
    } else {
        digits_val(s.drop_last()) * 10 + digit_val(s.last())
    }
}

/// A digit string denotes a value of at least 0.
pub proof fn lemma_digits_val_nonneg(s: Seq<char>)
    requires
        all_digits(s),
    ensures
        digits_val(s) >= 0,
    decreases s.len(),
{
    if s.len() > 0 {
        assert(all_digits(s.drop_last()));
        lemma_digits_val_nonneg(s.drop_last());
    }
}

/// Extending a digit string by one digit multiplies its value by ten and
/// adds the digit.
pub proof fn lemma_digits_val_step(s: Seq<char>, i: int)
    requires
        0 <= i < s.len(),
    ensures
        digits_val(s.subrange(0, i + 1)) == digits_val(s.subrange(0, i)) * 10 + digit_val(s[i]),
{
    let t = s.subrange(0, i + 1);
    assert(t.drop_last() =~= s.subrange(0, i));
    assert(t.last() == s[i]);
}

/// The value of a prefix of a digit string never exceeds the value of the
/// whole string.
pub proof fn lemma_digits_val_prefix_le(s: Seq<char>, i: int)
    requires
        all_digits(s),
        0 <= i <= s.len(),
    ensures
        digits_val(s.subrange(0, i)) <= digits_val(s),
    decreases s.len() - i,
{
    if i == s.len() {
        assert(s.subrange(0, i) =~= s);
    } else {
        lemma_digits_val_step(s, i);
        assert(all_digits(s.subrange(0, i)));
        lemma_digits_val_nonneg(s.subrange(0, i));
        lemma_digits_val_prefix_le(s, i + 1);
    }
}

/// Read a decimal number from a string. Returns the number exactly when
/// the string is a nonempty run of decimal digits whose value fits in an
/// `i32`; returns nothing otherwise.
pub fn try_parse_i32(s: &str) -> (r: Option<i32>)
    ensures
        r is Some <==> s@.len() >= 1 && all_digits(s@) && digits_val(s@) <= i32::MAX,
        r is Some ==> r->0 == digits_val(s@),
{
    let v = str_chars(s);
    if v.len() == 0 {
        return None;
    }
    let mut acc: u64 = 0;
    let mut i: usize = 0;
    while i < v.len()
        invariant
            0 < v.len(),
            v@ == s@,
            0 <= i <= v.len(),
            all_digits(v@.subrange(0, i as int)),
            acc == digits_val(v@.subrange(0, i as int)),
            acc <= i32::MAX,
        decreases v.len() - i,
    {
        let c = v[i];
        if !(c >= '0' && c <= '9') {
            assert(!all_digits(s@));
            return None;
        }
        proof {
            lemma_digits_val_step(v@, i as int);
        }
        let d: u64 = (c as u32 - '0' as u32) as u64;
        acc = acc * 10 + d;
        i += 1;
        assert(all_digits(v@.subrange(0, i as int)));
        if acc > 2147483647u64 {
            proof {
                if all_digits(s@) {
                    lemma_digits_val_prefix_le(s@, i as int);
                }
            }
            return None;
        }
    }
    assert(v@.subrange(0, v.len() as int) =~= s@);
    Some(acc as i32)
}


/// Whether `s` is a decimal integer literal whose value fits in an
/// `i32`: an optional `+` or `-` sign followed by a nonempty digit run,
/// exactly the strings `i32` itself reads.
pub open spec fn int_str_ok(s: Seq<char>) -> bool {
    if s.len() >= 1 && (s[0] == '-' || s[0] == '+') {
        let d = s.subrange(1, s.len() as int);
        &&& d.len() >= 1
        &&& all_digits(d)
        &&& (if s[0] == '-' {
            digits_val(d) <= 2147483648
        } else {
            digits_val(d) <= i32::MAX
        })
    } else {
        s.len() >= 1 && all_digits(s) && digits_val(s) <= i32::MAX
    }
}

/// The value a decimal integer literal denotes.
pub open spec fn int_str_val(s: Seq<char>) -> int {
    if s.len() >= 1 && s[0] == '-' {
        -digits_val(s.subrange(1, s.len() as int))
    } else if s.len() >= 1 && s[0] == '+' {
        digits_val(s.subrange(1, s.len() as int))
    } else {
        digits_val(s)
    }
}

/// Read a decimal integer from a string, sign included. Returns the
/// number exactly when the string is an optionally signed nonempty digit
/// run whose value fits in an `i32`; returns nothing otherwise.
#[verifier::loop_isolation(false)]
pub fn try_parse_i32_signed(s: &str) -> (r: Option<i32>)
    ensures
        r is Some <==> int_str_ok(s@),
        r is Some ==> r->0 == int_str_val(s@),
{
    let v = str_chars(s);
    if v.len() == 0 {
        return None;
    }
    let neg: bool = v[0] == '-';
    let start: usize = if v[0] == '-' || v[0] == '+' {
        1
    } else {
        0
    };
    if v.len() == start {
        assert(!int_str_ok(s@)) by {
            assert(s@.subrange(1, s@.len() as int).len() == 0);
        }
        return None;
    }
    let limit: u64 = if neg {
        2147483648
    } else {
        2147483647
    };
    let ghost d = s@.subrange(start as int, s@.len() as int);
    proof {
        if start == 0 {
            assert(d =~= s@);
        }
    }
    let mut acc: u64 = 0;
    let mut i: usize = start;
    while i < v.len()
        invariant
            start <= i <= v.len(),
            v@ == s@,
            d == s@.subrange(start as int, s@.len() as int),
            all_digits(v@.subrange(start as int, i as int)),
            acc == digits_val(v@.subrange(start as int, i as int)),
            acc <= limit,
        decreases v.len() - i,
    {
        let c = v[i];
        if !(c >= '0' && c <= '9') {
            assert(!all_digits(d)) by {
                assert(d[i - start] == s@[i as int]);
            }
            return None;
        }
        proof {
            assert(v@.subrange(start as int, i + 1).drop_last() =~= v@.subrange(
                start as int,
                i as int,
            ));
            assert(v@.subrange(start as int, i + 1).last() == v@[i as int]);
        }
        let dg: u64 = (c as u32 - '0' as u32) as u64;
        acc = acc * 10 + dg;
        i += 1;
        assert(all_digits(v@.subrange(start as int, i as int)));
        if acc > limit {
            proof {
                if all_digits(d) {
                    lemma_digits_val_prefix_le(d, i - start as int);
                    assert(v@.subrange(start as int, i as int) =~= d.subrange(0, i - start as int));
                }
            }
            return None;
        }
    }
    proof {
        assert(v@.subrange(start as int, v@.len() as int) =~= d);
        lemma_digits_val_nonneg(d);
    }
    if neg {
        if acc == 2147483648 {
            Some(i32::MIN)
        } else {
            Some(-(acc as i32))
        }
    } else {
        Some(acc as i32)
    }
}

/// The decimal rendering of a number, most significant digit first,
/// without leading zeroes (0 is rendered as "0").
pub open spec fn dec_digits(n: nat) -> Seq<char>
    decreases n,
{
    if n < 10 {
        seq![((n + 48) as u8) as char]
    } else {
        dec_digits(n / 10) + seq![((n % 10 + 48) as u8) as char]
    }
}

/// Render a number in decimal.
pub fn usize_string(n: usize) -> (r: String)
    ensures
        r@ == dec_digits(n as nat),
{
    let mut digits: Vec<char> = Vec::new();
    let mut m: usize = n;
    if m < 10 {
        let c: char = ((m as u8) + 48u8) as char;
        digits.push(c);
        return chars_string(&digits);
    }
    while m >= 10
        invariant
            dec_digits(n as nat) == dec_digits(m as nat) + digits@,
        decreases m,
    {
        let c: char = (((m % 10) as u8) + 48u8) as char;
        digits.insert(0, c);
        m = m / 10;
        assert(digits@ =~= seq![c] + digits@.subrange(1, digits@.len() as int));
    }
    let c: char = ((m as u8) + 48u8) as char;
    digits.insert(0, c);
    proof {
        assert(dec_digits(m as nat) == seq![c]);
        assert(dec_digits(n as nat) =~= digits@);
    }
    chars_string(&digits)
}

} // verus!
