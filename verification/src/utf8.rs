//! Validation of UTF-8 byte strings.
//!
//! Type, field and variant names read out of a binary image must be valid
//! UTF-8. Validity is stated here from first principles, following the
//! well-formed byte distribution of RFC 3629: ASCII bytes stand alone, lead
//! bytes `C2..DF`, `E0..EF` and `F0..F4` open two-, three- and four-byte
//! sequences whose continuation bytes lie in `80..BF`, with the narrowed
//! second-byte ranges that exclude overlong forms and surrogates.

use vstd::prelude::*;

verus! {

broadcast use vstd::seq::group_seq_axioms;

/// A UTF-8 continuation byte.
pub open spec fn is_cont(b: u8) -> bool {
    0x80 <= b <= 0xBF
}

/// Whether `s` is a well-formed UTF-8 byte string.
pub open spec fn is_utf8(s: Seq<u8>) -> bool
    decreases s.len(),
{
    if s.len() == 0 {
        true
    } else {
        let b0 = s[0];
        if b0 <= 0x7F {
            is_utf8(s.skip(1))
        } else if 0xC2 <= b0 <= 0xDF {
            s.len() >= 2 && is_cont(s[1]) && is_utf8(s.skip(2))
        } else if b0 == 0xE0 {
            s.len() >= 3 && 0xA0 <= s[1] <= 0xBF && is_cont(s[2]) && is_utf8(s.skip(3))
        } else if 0xE1 <= b0 <= 0xEC || b0 == 0xEE || b0 == 0xEF {
            s.len() >= 3 && is_cont(s[1]) && is_cont(s[2]) && is_utf8(s.skip(3))
        } else if b0 == 0xED {
            s.len() >= 3 && 0x80 <= s[1] <= 0x9F && is_cont(s[2]) && is_utf8(s.skip(3))
        } else if b0 == 0xF0 {
            s.len() >= 4 && 0x90 <= s[1] <= 0xBF && is_cont(s[2]) && is_cont(s[3])
                && is_utf8(s.skip(4))
        } else if 0xF1 <= b0 <= 0xF3 {
            s.len() >= 4 && is_cont(s[1]) && is_cont(s[2]) && is_cont(s[3]) && is_utf8(s.skip(4))
        } else if b0 == 0xF4 {
            s.len() >= 4 && 0x80 <= s[1] <= 0x8F && is_cont(s[2]) && is_cont(s[3])
                && is_utf8(s.skip(4))
        } else {
            false
        }
    }
}

proof fn lemma_skip_skip(s: Seq<u8>, i: int, k: int)
    requires
        0 <= i,
        0 <= k,
        i + k <= s.len(),
    ensures
        s.skip(i).skip(k) == s.skip(i + k),
{
    assert(s.skip(i).skip(k) =~= s.skip(i + k));
}

/// Whether the byte slice holds well-formed UTF-8.
pub fn validate_utf8(bytes: &[u8]) -> (r: bool)
    ensures
        r == is_utf8(bytes@),
{
    let n = bytes.len();
    let mut i: usize = 0;
    proof {
        assert(bytes@.skip(0) =~= bytes@);
    }
    while i < n
        invariant
            i <= n,
            n == bytes@.len(),
            is_utf8(bytes@) == is_utf8(bytes@.skip(i as int)),
        decreases n - i,
    {
        let ghost rest = bytes@.skip(i as int);
        let b0 = bytes[i];
        assert(rest[0] == bytes@[i as int]);
        let step: usize;
        if b0 <= 0x7F {
            step = 1;
        } else if 0xC2 <= b0 && b0 <= 0xDF {
            if n - i < 2 {
                return false;
            }
            let b1 = bytes[i + 1];
            assert(rest[1] == bytes@[i + 1]);
            if !(0x80 <= b1 && b1 <= 0xBF) {
                return false;
            }
            step = 2;
        } else if b0 == 0xE0 || (0xE1 <= b0 && b0 <= 0xEF) {
            if n - i < 3 {
                return false;
            }
            let b1 = bytes[i + 1];
            let b2 = bytes[i + 2];
            assert(rest[1] == bytes@[i + 1]);
            assert(rest[2] == bytes@[i + 2]);
            let lo: u8 = if b0 == 0xE0 {
                0xA0
            } else {
                0x80
            };
            let hi: u8 = if b0 == 0xED {
                0x9F
            } else {
                0xBF
            };
            if !(lo <= b1 && b1 <= hi) {
                return false;
            }
            if !(0x80 <= b2 && b2 <= 0xBF) {
                return false;
            }
            step = 3;
        } else if 0xF0 <= b0 && b0 <= 0xF4 {
            if n - i < 4 {
                return false;
            }
            let b1 = bytes[i + 1];
            let b2 = bytes[i + 2];
            let b3 = bytes[i + 3];
            assert(rest[1] == bytes@[i + 1]);
            assert(rest[2] == bytes@[i + 2]);
            assert(rest[3] == bytes@[i + 3]);
            let lo: u8 = if b0 == 0xF0 {
                0x90
            } else {
                0x80
            };
            let hi: u8 = if b0 == 0xF4 {
                0x8F
            } else {
                0xBF
            };
            if !(lo <= b1 && b1 <= hi) {
                return false;
            }
            if !(0x80 <= b2 && b2 <= 0xBF) {
                return false;
            }
            if !(0x80 <= b3 && b3 <= 0xBF) {
                return false;
            }
            step = 4;
        } else {
            return false;
        }
        proof {
            lemma_skip_skip(bytes@, i as int, step as int);
        }
        i += step;
    }
    true
}

} // verus!
