//! UTF-8 validity, specified and checked.
//!
//! `is_utf8` is the standard well-formedness condition on byte sequences
//! (RFC 3629): one leading byte per scalar value, the right number of
//! continuation bytes, no overlong forms, no surrogates, nothing above
//! U+10FFFF. `validate_utf8` decides it.

use vstd::prelude::*;

verus! {

/// A UTF-8 continuation byte, `0b10xx_xxxx`.
pub open spec fn is_cont(b: u8) -> bool {
    0x80 <= b && b <= 0xBF
}

/// Well-formed UTF-8.
pub open spec fn is_utf8(s: Seq<u8>) -> bool
    decreases s.len(),
{
    if s.len() == 0 {
        true
    } else {
        let b0 = s[0];
        if b0 <= 0x7F {
            is_utf8(s.skip(1))
        } else if 0xC2 <= b0 && b0 <= 0xDF {
            s.len() >= 2 && is_cont(s[1]) && is_utf8(s.skip(2))
        } else if b0 == 0xE0 {
            s.len() >= 3 && 0xA0 <= s[1] && s[1] <= 0xBF && is_cont(s[2]) && is_utf8(s.skip(3))
        } else if (0xE1 <= b0 && b0 <= 0xEC) || b0 == 0xEE || b0 == 0xEF {
            s.len() >= 3 && is_cont(s[1]) && is_cont(s[2]) && is_utf8(s.skip(3))
        } else if b0 == 0xED {
            s.len() >= 3 && 0x80 <= s[1] && s[1] <= 0x9F && is_cont(s[2]) && is_utf8(s.skip(3))
        } else if b0 == 0xF0 {
            s.len() >= 4 && 0x90 <= s[1] && s[1] <= 0xBF && is_cont(s[2]) && is_cont(s[3])
                && is_utf8(s.skip(4))
        } else if 0xF1 <= b0 && b0 <= 0xF3 {
            s.len() >= 4 && is_cont(s[1]) && is_cont(s[2]) && is_cont(s[3]) && is_utf8(s.skip(4))
        } else if b0 == 0xF4 {
            s.len() >= 4 && 0x80 <= s[1] && s[1] <= 0x8F && is_cont(s[2]) && is_cont(s[3])
                && is_utf8(s.skip(4))
        } else {
            false
        }
    }
}

/// Decides `is_utf8` on a byte slice.
pub fn validate_utf8(data: &[u8]) -> (r: bool)
    ensures
        r == is_utf8(data@),
{
    let len = data.len();
    let mut i: usize = 0;
    proof {
        assert(data@.skip(0) =~= data@);
    }
    while i < len
        invariant
            i <= len,
            len == data@.len(),
            is_utf8(data@) == is_utf8(data@.skip(i as int)),
        decreases len - i,
    {
        let ghost pre = data@.skip(i as int);
        let b0 = *vstd::slice::slice_index_get(data, i);
        assert(pre[0] == data@[i as int]);
        let width: usize = if b0 <= 0x7F {
            1
        } else if 0xC2 <= b0 && b0 <= 0xDF {
            if !(len - i > 1) {
                assert(!is_utf8(pre));
                return false;
            }
            let b1 = *vstd::slice::slice_index_get(data, i + 1);
            assert(pre[1] == data@[i + 1]);
            if !(0x80 <= b1 && b1 <= 0xBF) {
                assert(!is_utf8(pre));
                return false;
            }
            2
        } else if 0xE0 <= b0 && b0 <= 0xEF {
            if !(len - i > 2) {
                assert(!is_utf8(pre));
                return false;
            }
            let b1 = *vstd::slice::slice_index_get(data, i + 1);
            let b2 = *vstd::slice::slice_index_get(data, i + 2);
            assert(pre[1] == data@[i + 1] && pre[2] == data@[i + 2]);
            let lo: u8 = if b0 == 0xE0 {
                0xA0
            } else {
                0x80
            };
            let hi: u8 = if b0 == 0xED {
                0x9F
            } else {
                0xBF
            };
            if !(lo <= b1 && b1 <= hi && 0x80 <= b2 && b2 <= 0xBF) {
                assert(!is_utf8(pre));
                return false;
            }
            3
        } else if 0xF0 <= b0 && b0 <= 0xF4 {
            if !(len - i > 3) {
                assert(!is_utf8(pre));
                return false;
            }
            let b1 = *vstd::slice::slice_index_get(data, i + 1);
            let b2 = *vstd::slice::slice_index_get(data, i + 2);
            let b3 = *vstd::slice::slice_index_get(data, i + 3);
            assert(pre[1] == data@[i + 1] && pre[2] == data@[i + 2] && pre[3] == data@[i + 3]);
            let lo: u8 = if b0 == 0xF0 {
                0x90
            } else {
                0x80
            };
            let hi: u8 = if b0 == 0xF4 {
                0x8F
            } else {
                0xBF
            };
            if !(lo <= b1 && b1 <= hi && 0x80 <= b2 && b2 <= 0xBF && 0x80 <= b3 && b3 <= 0xBF) {
                assert(!is_utf8(pre));
                return false;
            }
            4
        } else {
            assert(!is_utf8(pre));
            return false;
        };
        assert(is_utf8(pre) == is_utf8(pre.skip(width as int)));
        assert(pre.skip(width as int) =~= data@.skip(i + width));
        i = i + width;
    }
    assert(data@.skip(len as int) =~= Seq::<u8>::empty());
    true
}

} // verus!
