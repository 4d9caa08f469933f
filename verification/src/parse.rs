//! Decimal parsing of kernel-reported names.
//!
//! VCPU file descriptors and VCPU memory mappings are recognised by names of
//! the shape `anon_inode:kvm-vcpu:<n>`; the `<n>` is a decimal index.

use vstd::prelude::*;

verus! {

/// Every byte of `s` is an ASCII digit.
pub open spec fn spec_all_digits(s: Seq<u8>) -> bool {
    forall|i: int| 0 <= i < s.len() ==> 0x30 <= #[trigger] s[i] <= 0x39
}

/// Numeric value of a string of ASCII digits.
pub open spec fn spec_decimal_value(s: Seq<u8>) -> nat
    decreases s.len(),
{
    if s.len() == 0 {
        0
    } else {
        (spec_decimal_value(s.drop_last()) * 10 + (s.last() - 0x30)) as nat
    }
}

/// A digit string parses; it is nonempty, all digits, and its value fits.
pub open spec fn spec_parses_as_decimal(s: Seq<u8>) -> bool {
    s.len() > 0 && spec_all_digits(s) && spec_decimal_value(s) <= usize::MAX
}

/// Appending digits never shrinks the value.
proof fn lemma_decimal_prefix_le(s: Seq<u8>, k: int)
    requires
        0 <= k <= s.len(),
        spec_all_digits(s),
    ensures
        spec_decimal_value(s.take(k)) <= spec_decimal_value(s),
    decreases s.len() - k,
{
    if k < s.len() {
        lemma_decimal_prefix_le(s, k + 1);
        let t = s.take(k + 1);
        assert(t.drop_last() =~= s.take(k));
        assert(spec_decimal_value(s.take(k)) <= spec_decimal_value(t));
    } else {
        assert(s.take(k) =~= s);
    }
}

/// Parse the bytes from `from` to the end as a decimal number.
///
/// `None` exactly when the range is empty, holds a byte that is no digit, or
/// the value exceeds `usize`.
pub fn parse_decimal(s: &Vec<u8>, from: usize) -> (r: Option<usize>)
    requires
        from <= s@.len(),
    ensures
        match r {
            Some(v) => spec_parses_as_decimal(s@.skip(from as int)) && v == spec_decimal_value(
                s@.skip(from as int),
            ),
            None => !spec_parses_as_decimal(s@.skip(from as int)),
        },
{
    let ghost tail = s@.skip(from as int);
    let n = s.len();
    if from == n {
        return None;
    }
    let mut acc: usize = 0;
    let mut i: usize = from;
    while i < n
        invariant
            from <= i <= n,
            n == s@.len(),
            tail == s@.skip(from as int),
            spec_all_digits(tail.take(i - from)),
            acc == spec_decimal_value(tail.take(i - from)),
        decreases n - i,
    {
        let c = s[i];
        if c < 0x30 || c > 0x39 {
            proof {
                assert(tail[i - from] == c);
            }
            return None;
        }
        let d = (c - 0x30) as usize;
        let wide: u128 = (acc as u128) * 10 + (d as u128);
        if wide > (usize::MAX as u128) {
            proof {
                assert(tail.take(i - from + 1).drop_last() =~= tail.take(i - from));
                assert(tail.take(i - from + 1).last() == c);
                assert(spec_decimal_value(tail.take(i - from + 1)) == acc * 10 + d);
                if spec_all_digits(tail) {
                    lemma_decimal_prefix_le(tail, i - from + 1);
                }
            }
            return None;
        }
        proof {
            assert(tail.take(i - from + 1).drop_last() =~= tail.take(i - from));
            assert(tail.take(i - from + 1).last() == c);
        }
        acc = acc * 10 + d;
        i = i + 1;
    }
    proof {
        assert(tail.take(n - from) =~= tail);
    }
    Some(acc)
}

/// Whether `s` begins with `prefix`.
pub open spec fn spec_starts_with(s: Seq<u8>, prefix: Seq<u8>) -> bool {
    s.len() >= prefix.len() && s.take(prefix.len() as int) == prefix
}

/// Test whether `s` begins with `prefix`.
pub fn starts_with(s: &Vec<u8>, prefix: &Vec<u8>) -> (r: bool)
    ensures
        r == spec_starts_with(s@, prefix@),
{
    let np = prefix.len();
    if s.len() < np {
        proof {
            assert(!spec_starts_with(s@, prefix@));
        }
        return false;
    }
    let mut i: usize = 0;
    while i < np
        invariant
            i <= np,
            np == prefix@.len(),
            np <= s@.len(),
            forall|k: int| 0 <= k < i ==> s@[k] == prefix@[k],
        decreases np - i,
    {
        if s[i] != prefix[i] {
            proof {
                assert(s@.take(np as int)[i as int] == s@[i as int]);
            }
            return false;
        }
        i = i + 1;
    }
    proof {
        assert(s@.take(np as int) =~= prefix@);
    }
    true
}

/// Whether two byte strings are equal.
pub fn bytes_eq(a: &Vec<u8>, b: &Vec<u8>) -> (r: bool)
    ensures
        r == (a@ == b@),
{
    if a.len() != b.len() {
        proof {
            assert(a@.len() != b@.len());
        }
        return false;
    }
    let n = a.len();
    let mut i: usize = 0;
    while i < n
        invariant
            i <= n,
            n == a@.len(),
            n == b@.len(),
            forall|k: int| 0 <= k < i ==> a@[k] == b@[k],
        decreases n - i,
    {
        if a[i] != b[i] {
            return false;
        }
        i = i + 1;
    }
    proof {
        assert(a@ =~= b@);
    }
    true
}

/// Copy a byte string.
pub fn copy_bytes(a: &Vec<u8>) -> (r: Vec<u8>)
    ensures
        r@ == a@,
{
    let n = a.len();
    let mut r: Vec<u8> = Vec::new();
    let mut i: usize = 0;
    while i < n
        invariant
            i <= n,
            n == a@.len(),
            r@ == a@.take(i as int),
        decreases n - i,
    {
        r.push(a[i]);
        proof {
            assert(r@ =~= a@.take(i + 1));
        }
        i = i + 1;
    }
    proof {
        assert(a@.take(n as int) =~= a@);
    }
    r
}

} // verus!
