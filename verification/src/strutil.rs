//! Small verified string helpers shared by the parser, normalizer and
//! renderers: character access, character-sequence equality, and decimal
//! formatting of integers.
use vstd::prelude::*;
use vstd::string::*;

verus! {

/// Relies on std's `String::push`: appends exactly the one given character.
#[verifier::external_body]
pub(crate) fn push_char(s: &mut String, c: char)
    ensures
        final(s)@ == old(s)@.push(c),
{
    s.push(c);
}

/// The characters of `s`, as a vector.
pub(crate) fn chars_of(s: &str) -> (v: Vec<char>)
    ensures
        v@ == s@,
{
    let n = s.unicode_len();
    let mut v: Vec<char> = Vec::new();
    let mut i: usize = 0;
    while i < n
        invariant
            i <= n,
            n == s@.len(),
            v@ == s@.take(i as int),
        decreases n - i,
    {
        let c = s.get_char(i);
        v.push(c);
        proof {
            assert(s@.take(i as int).push(s@[i as int]) =~= s@.take(i + 1 as int));
        }
        i += 1;
    }
    proof {
        assert(s@.take(n as int) =~= s@);
    }
    v
}

/// Whether the character vector spells exactly the string `s`.
pub(crate) fn chars_eq(a: &Vec<char>, s: &str) -> (b: bool)
    ensures
        b == (a@ == s@),
{
    let n = s.unicode_len();
    if a.len() != n {
        proof {
            assert(a@ != s@);
        }
        return false;
    }
    let mut i: usize = 0;
    while i < n
        invariant
            i <= n,
            n == s@.len(),
            a@.len() == n,
            forall|j: int| 0 <= j < i ==> a@[j] == s@[j],
        decreases n - i,
    {
        if a[i] != s.get_char(i) {
            return false;
        }
        i += 1;
    }
    proof {
        assert(a@ =~= s@);
    }
    true
}

/// The decimal digit character for `d` (0 through 9).
pub open spec fn digit_char(d: int) -> char {
    ((48 + d) as u8) as char
}

/// The decimal digits of `n` without a leading zero; empty for zero.
pub open spec fn dec_digits(n: nat) -> Seq<char>
    decreases n,
{
    if n == 0 {
        Seq::empty()
    } else {
        dec_digits(n / 10).push(digit_char((n % 10) as int))
    }
}

/// The decimal rendering of a nonnegative integer (zero is "0").
pub open spec fn u64_digits(n: nat) -> Seq<char> {
    if n == 0 {
        seq!['0']
    } else {
        dec_digits(n)
    }
}

/// The decimal rendering of a signed integer, with a leading minus sign when
/// negative.
pub open spec fn i64_digits(n: int) -> Seq<char> {
    if n < 0 {
        seq!['-'] + u64_digits((-n) as nat)
    } else {
        u64_digits(n as nat)
    }
}

fn push_dec_digits(out: &mut String, n: u64)
    ensures
        final(out)@ == old(out)@ + dec_digits(n as nat),
    decreases n,
{
    if n > 0 {
        push_dec_digits(out, n / 10);
        let d: u8 = (n % 10) as u8;
        push_char(out, (48 + d) as char);
        proof {
            assert(final(out)@ =~= old(out)@ + dec_digits(n as nat));
        }
    } else {
        proof {
            assert(old(out)@ + dec_digits(0) =~= old(out)@);
        }
    }
}

/// Appends the decimal rendering of `n` to `out`.
pub(crate) fn push_u64(out: &mut String, n: u64)
    ensures
        final(out)@ == old(out)@ + u64_digits(n as nat),
{
    if n == 0 {
        push_char(out, '0');
        proof {
            assert(old(out)@.push('0') =~= old(out)@ + u64_digits(0));
        }
    } else {
        push_dec_digits(out, n);
    }
}

/// Appends the decimal rendering of `n` to `out`, minus sign included.
pub(crate) fn push_i64(out: &mut String, n: i64)
    ensures
        final(out)@ == old(out)@ + i64_digits(n as int),
{
    if n < 0 {
        push_char(out, '-');
        let m: u64 = ((-(n + 1)) as u64) + 1;
        assert(m as int == -(n as int));
        push_u64(out, m);
        proof {
            assert(old(out)@.push('-') + u64_digits(m as nat) =~= old(out)@ + i64_digits(
                n as int,
            ));
        }
    } else {
        push_u64(out, n as u64);
    }
}

/// A two-digit zero-padded decimal rendering.
pub open spec fn pad2(n: int) -> Seq<char> {
    seq![digit_char(n / 10), digit_char(n % 10)]
}

/// A four-digit zero-padded decimal rendering.
pub open spec fn pad4(n: int) -> Seq<char> {
    seq![
        digit_char(n / 1000),
        digit_char((n / 100) % 10),
        digit_char((n / 10) % 10),
        digit_char(n % 10),
    ]
}

/// Appends the two-digit zero-padded rendering of `n` to `out`.
pub(crate) fn push_pad2(out: &mut String, n: u64)
    requires
        n <= 99,
    ensures
        final(out)@ == old(out)@ + pad2(n as int),
{
    push_char(out, (48 + (n / 10) as u8) as char);
    push_char(out, (48 + (n % 10) as u8) as char);
    proof {
        assert(final(out)@ =~= old(out)@ + pad2(n as int));
    }
}

/// Appends the four-digit zero-padded rendering of `n` to `out`.
pub(crate) fn push_pad4(out: &mut String, n: u64)
    requires
        n <= 9999,
    ensures
        final(out)@ == old(out)@ + pad4(n as int),
{
    push_char(out, (48 + (n / 1000) as u8) as char);
    push_char(out, (48 + ((n / 100) % 10) as u8) as char);
    push_char(out, (48 + ((n / 10) % 10) as u8) as char);
    push_char(out, (48 + (n % 10) as u8) as char);
    proof {
        assert(final(out)@ =~= old(out)@ + pad4(n as int));
    }
}

} // verus!
