//! Executable UTF-8 validation, proved against vstd's definition of a
//! valid UTF-8 byte sequence.
//!
//! Metadata strings in the container are length-prefixed byte runs that
//! must be valid UTF-8; a run that is not is a hard decode failure.  The
//! checker walks the bytes one encoded scalar at a time, mirroring the
//! front-recursive definition of [`valid_utf8`].

use vstd::prelude::*;
use vstd::utf8::{
    valid_utf8, valid_first_scalar, valid_leading_and_continuation_bytes_first_codepoint,
    decode_first_codepoint, length_of_first_codepoint, pop_first_scalar,
};

verus! {

/// True exactly when `b` is a valid UTF-8 encoding.
pub fn utf8_valid(b: &[u8]) -> (r: bool)
    ensures
        r == valid_utf8(b@),
{
    let n: usize = b.len();
    let mut i: usize = 0;
    proof {
        assert(b@.skip(0) =~= b@);
    }
    while i < n
        invariant
            i <= n,
            n == b@.len(),
            valid_utf8(b@) == valid_utf8(b@.skip(i as int)),
        decreases n - i,
    {
        let ghost t = b@.skip(i as int);
        proof {
            assert(t.len() == n - i);
            assert(t[0] == b@[i as int]);
        }
        let b0: u8 = b[i];
        if b0 < 0x80 {
            // One-byte encoding.
            proof {
                assert((b0 & 0x7f) < 0xd8) by (bit_vector);
                assert(valid_first_scalar(t));
                assert(pop_first_scalar(t) =~= b@.skip(i + 1));
            }
            i = i + 1;
        } else if 0xc0 <= b0 && b0 <= 0xdf {
            // Two-byte encoding: one continuation byte, and the encoded
            // codepoint must not fit in one byte.
            if n - i < 2 {
                return false;
            }
            proof {
                assert(t[1] == b@[i + 1]);
            }
            let b1: u8 = b[i + 1];
            if !(0x80 <= b1 && b1 <= 0xbf) {
                return false;
            }
            let cp: u32 = (((b0 & 0x1f) as u32) << 6) | ((b1 & 0x3f) as u32);
            if cp < 0x80 {
                return false;
            }
            proof {
                assert((((b0 & 0x1f) as u32) << 6) | ((b1 & 0x3f) as u32) < 0xd800)
                    by (bit_vector);
                assert(valid_first_scalar(t));
                assert(pop_first_scalar(t) =~= b@.skip(i + 2));
            }
            i = i + 2;
        } else if 0xe0 <= b0 && b0 <= 0xef {
            // Three-byte encoding: two continuation bytes, a codepoint
            // that needs three bytes, and not a surrogate.
            if n - i < 3 {
                return false;
            }
            proof {
                assert(t[1] == b@[i + 1]);
                assert(t[2] == b@[i + 2]);
            }
            let b1: u8 = b[i + 1];
            let b2: u8 = b[i + 2];
            if !(0x80 <= b1 && b1 <= 0xbf) || !(0x80 <= b2 && b2 <= 0xbf) {
                return false;
            }
            let cp: u32 = (((b0 & 0x0f) as u32) << 12) | (((b1 & 0x3f) as u32) << 6) | ((b2
                & 0x3f) as u32);
            if cp < 0x800 {
                return false;
            }
            if 0xd800 <= cp && cp <= 0xdfff {
                return false;
            }
            proof {
                assert(valid_first_scalar(t));
                assert(pop_first_scalar(t) =~= b@.skip(i + 3));
            }
            i = i + 3;
        } else if 0xf0 <= b0 && b0 <= 0xf7 {
            // Four-byte encoding: three continuation bytes and a
            // codepoint within the supplementary planes.
            if n - i < 4 {
                return false;
            }
            proof {
                assert(t[1] == b@[i + 1]);
                assert(t[2] == b@[i + 2]);
                assert(t[3] == b@[i + 3]);
            }
            let b1: u8 = b[i + 1];
            let b2: u8 = b[i + 2];
            let b3: u8 = b[i + 3];
            if !(0x80 <= b1 && b1 <= 0xbf) || !(0x80 <= b2 && b2 <= 0xbf) || !(0x80 <= b3 && b3
                <= 0xbf) {
                return false;
            }
            let cp: u32 = (((b0 & 0x07) as u32) << 18) | (((b1 & 0x3f) as u32) << 12) | (((b2
                & 0x3f) as u32) << 6) | ((b3 & 0x3f) as u32);
            if !(0x10000 <= cp && cp <= 0x10ffff) {
                return false;
            }
            proof {
                assert(valid_first_scalar(t));
                assert(pop_first_scalar(t) =~= b@.skip(i + 4));
            }
            i = i + 4;
        } else {
            // A continuation byte or an undefined leading byte cannot
            // begin a scalar.
            proof {
                assert(!valid_leading_and_continuation_bytes_first_codepoint(t));
            }
            return false;
        }
    }
    proof {
        assert(b@.skip(n as int).len() == 0);
    }
    true
}

} // verus!
