//! Verified string helpers: equality and prefix tests, decimal formatting,
//! and thin trusted wrappers for the few `String` operations that the
//! standard library performs for us.

use vstd::prelude::*;
use vstd::string::StrSliceExecFns;
use vstd::string::StringSliceAdditionalSpecFns;
use vstd::utf8::{decode_utf8, encode_utf8, encode_utf8_decode_utf8, valid_utf8};

verus! {

/// Relies on `String::push`: appends one character at the end.
#[verifier::external_body]
pub(crate) fn push_char(s: &mut String, c: char)
    ensures
        final(s)@ == old(s)@.push(c),
{
    s.push(c);
}

/// Relies on `String::from_utf8`: succeeds exactly on valid UTF-8 input and
/// then returns the decoded characters of that input.
#[verifier::external_body]
pub(crate) fn string_from_utf8(v: Vec<u8>) -> (r: Result<String, ()>)
    ensures
        match r {
            Ok(s) => valid_utf8(v@) && s@ == decode_utf8(v@),
            Err(()) => !valid_utf8(v@),
        },
{
    String::from_utf8(v).map_err(|_| ())
}

/// Character-for-character equality of two string slices.
pub fn str_eq(a: &str, b: &str) -> (r: bool)
    ensures
        r == (a@ == b@),
{
    proof {
        encode_utf8_decode_utf8(a@);
        encode_utf8_decode_utf8(b@);
    }
    let ab = a.as_bytes();
    let bb = b.as_bytes();
    if ab.len() != bb.len() {
        return false;
    }
    let n = ab.len();
    let mut i: usize = 0;
    while i < n
        invariant
            n == ab@.len() && n == bb@.len(),
            ab@ == encode_utf8(a@) && bb@ == encode_utf8(b@),
            i <= n,
            forall|j: int| 0 <= j < i ==> ab@[j] == bb@[j],
        decreases n - i,
    {
        if ab[i] != bb[i] {
            return false;
        }
        i += 1;
    }
    proof {
        assert(ab@ =~= bb@);
        assert(decode_utf8(encode_utf8(a@)) == decode_utf8(encode_utf8(b@)));
    }
    true
}

/// True when `p` is a prefix of `s` (by characters).
pub open spec fn is_char_prefix(s: Seq<char>, p: Seq<char>) -> bool {
    p.len() <= s.len() && s.take(p.len() as int) == p
}

/// Character-level prefix test.
pub fn str_starts_with(s: &str, p: &str) -> (r: bool)
    ensures
        r == is_char_prefix(s@, p@),
{
    let sn = s.unicode_len();
    let pn = p.unicode_len();
    if pn > sn {
        return false;
    }
    let mut i: usize = 0;
    while i < pn
        invariant
            pn == p@.len(),
            sn == s@.len(),
            pn <= sn,
            i <= pn,
            forall|j: int| 0 <= j < i ==> s@[j] == p@[j],
        decreases pn - i,
    {
        if s.get_char(i) != p.get_char(i) {
            assert(s@.take(pn as int)[i as int] != p@[i as int]);
            return false;
        }
        i += 1;
    }
    proof {
        assert(s@.take(pn as int) =~= p@);
    }
    true
}

/// A string of `n` copies of `c`.
pub fn repeat_char(c: char, n: usize) -> (r: String)
    ensures
        r@ == Seq::new(n as nat, |i: int| c),
{
    let mut r = String::new();
    let mut i: usize = 0;
    while i < n
        invariant
            i <= n,
            r@ =~= Seq::new(i as nat, |j: int| c),
        decreases n - i,
    {
        push_char(&mut r, c);
        proof {
            assert(r@ =~= Seq::new((i + 1) as nat, |j: int| c));
        }
        i += 1;
    }
    r
}

/// The decimal digit character for `d`.
pub open spec fn dec_digit(d: int) -> char
    recommends
        0 <= d < 10,
{
    ((d + 48) as u8) as char
}

/// The usual decimal rendering of `n`: no sign and no leading zeros.
pub open spec fn spec_dec(n: int) -> Seq<char>
    recommends
        n >= 0,
    decreases n,
{
    if n < 10 {
        seq![dec_digit(n)]
    } else {
        spec_dec(n / 10).push(dec_digit(n % 10))
    }
}

/// Renders `n` in decimal.
pub fn u64_to_dec(n: u64) -> (r: String)
    ensures
        r@ == spec_dec(n as int),
{
    if n == 0 {
        let mut r = String::new();
        push_char(&mut r, '0');
        proof {
            assert(r@ =~= spec_dec(0));
        }
        return r;
    }
    let mut digits: Vec<u8> = Vec::new();
    let mut m: u64 = n;
    loop
        invariant_except_break
            m != 0,
            forall|j: int| 0 <= j < digits@.len() ==> 48 <= #[trigger] digits@[j] < 58,
            spec_dec(n as int) =~= spec_dec(m as int) + Seq::new(
                digits@.len(),
                |j: int| digits@[digits@.len() - 1 - j] as char,
            ),
        ensures
            forall|j: int| 0 <= j < digits@.len() ==> 48 <= #[trigger] digits@[j] < 58,
            spec_dec(n as int) =~= Seq::new(
                digits@.len(),
                |j: int| digits@[digits@.len() - 1 - j] as char,
            ),
        decreases m,
    {
        let ghost pre = digits@;
        let d: u8 = (m % 10) as u8 + 48;
        let m2 = m / 10;
        digits.push(d);
        proof {
            let len = digits@.len() as int;
            let prevseq = Seq::new(pre.len(), |j: int| pre[pre.len() - 1 - j] as char);
            let cur = Seq::new(len as nat, |j: int| digits@[len - 1 - j] as char);
            assert(cur =~= seq![d as char] + prevseq);
            if m >= 10 {
                assert(spec_dec(m as int) == spec_dec(m2 as int).push(dec_digit(m as int % 10)));
                assert(spec_dec(m as int) =~= spec_dec(m2 as int) + seq![d as char]);
                assert(spec_dec(m2 as int) + cur =~= spec_dec(m as int) + prevseq);
                assert(spec_dec(n as int) =~= spec_dec(m2 as int) + cur);
            } else {
                assert(spec_dec(m as int) =~= seq![d as char]);
                assert(cur =~= spec_dec(m as int) + prevseq);
                assert(spec_dec(n as int) =~= cur);
            }
        }
        m = m2;
        if m == 0 {
            break;
        }
    }
    let mut r = String::new();
    let len = digits.len();
    let mut i: usize = len;
    while i > 0
        invariant
            i <= len && len == digits@.len(),
            forall|j: int| 0 <= j < digits@.len() ==> 48 <= #[trigger] digits@[j] < 58,
            spec_dec(n as int) =~= Seq::new(
                digits@.len(),
                |j: int| digits@[digits@.len() - 1 - j] as char,
            ),
            r@ =~= spec_dec(n as int).take(len - i),
        decreases i,
    {
        push_char(&mut r, digits[i - 1] as char);
        proof {
            assert(spec_dec(n as int)[len - i] == digits@[i - 1] as char);
            assert(r@ =~= spec_dec(n as int).take(len - (i - 1)));
        }
        i -= 1;
    }
    proof {
        assert(r@ =~= spec_dec(n as int));
    }
    r
}

/// Renders `n` in decimal.
pub fn usize_to_dec(n: usize) -> (r: String)
    ensures
        r@ == spec_dec(n as int),
{
    u64_to_dec(n as u64)
}

} // verus!
