use vstd::prelude::*;
use vstd::string::StringSliceAdditionalSpecFns;
use vstd::utf8::{
    codepoint_width_1, codepoint_width_2, codepoint_width_3, codepoint_width_4,
    is_continuation_byte, partial_valid_partial_invalid_utf8, partial_valid_utf8,
    partial_valid_utf8_extend, valid_first_scalar, valid_utf8,
};

verus! {

/// Decides whether `bytes` is a valid UTF-8 encoding, against vstd's model
/// of UTF-8.  Wire lines must be text; this check backs the transport's
/// `InvalidEncoding` error.
pub fn utf8_valid(bytes: &[u8]) -> (r: bool)
    ensures
        r == valid_utf8(bytes@),
{
    let n = bytes.len();
    let mut i: usize = 0;
    while i < n
        invariant
            i <= n,
            n == bytes@.len(),
            partial_valid_utf8(bytes@, i as int),
        decreases n - i,
    {
        let ghost tail = bytes@.subrange(i as int, n as int);
        proof {
            assert(tail.len() == n - i);
            assert forall|k: int| 0 <= k < tail.len() implies tail[k] == bytes@[i + k] by {}
        }
        let rem = n - i;
        let b0 = bytes[i];
        assert(tail[0] == b0);
        // Width of a valid scalar encoding starting at `i`, or 0 if there is
        // none.
        let width: usize = if b0 < 0x80 {
            assert(valid_first_scalar(tail)) by {
                assert(codepoint_width_1(b0) == (b0 & 0x7f) as u32);
                assert(b0 & 0x7f == b0) by (bit_vector)
                    requires
                        b0 < 0x80,
                ;
            }
            1
        } else if b0 < 0xc0 {
            // A continuation byte cannot lead a scalar.
            assert(!valid_first_scalar(tail));
            0
        } else if b0 <= 0xdf {
            if rem >= 2 && is_cont(bytes[i + 1]) {
                let b1 = bytes[i + 1];
                assert(tail[1] == b1);
                let cp: u32 = (((b0 & 0x1f) as u32) << 6u32) | ((b1 & 0x3f) as u32);
                assert(cp == codepoint_width_2(b0, b1));
                assert((((b0 & 0x1f) as u32) << 6u32) | ((b1 & 0x3f) as u32) <= 0x7ff)
                    by (bit_vector);
                if cp >= 0x80 {
                    assert(valid_first_scalar(tail));
                    2
                } else {
                    // Overlong two-byte form.
                    assert(!valid_first_scalar(tail));
                    0
                }
            } else {
                assert(!valid_first_scalar(tail));
                0
            }
        } else if b0 <= 0xef {
            if rem >= 3 && is_cont(bytes[i + 1]) && is_cont(bytes[i + 2]) {
                let b1 = bytes[i + 1];
                let b2 = bytes[i + 2];
                assert(tail[1] == b1 && tail[2] == b2);
                let cp: u32 = (((b0 & 0x0f) as u32) << 12u32) | (((b1 & 0x3f) as u32) << 6u32)
                    | ((b2 & 0x3f) as u32);
                assert(cp == codepoint_width_3(b0, b1, b2));
                assert((((b0 & 0x0f) as u32) << 12u32) | (((b1 & 0x3f) as u32) << 6u32) | ((b2
                    & 0x3f) as u32) <= 0xffff) by (bit_vector);
                if cp >= 0x800 && !(0xd800 <= cp && cp <= 0xdfff) {
                    assert(valid_first_scalar(tail));
                    3
                } else {
                    // Overlong three-byte form or surrogate.
                    assert(!valid_first_scalar(tail));
                    0
                }
            } else {
                assert(!valid_first_scalar(tail));
                0
            }
        } else if b0 <= 0xf7 {
            if rem >= 4 && is_cont(bytes[i + 1]) && is_cont(bytes[i + 2]) && is_cont(
                bytes[i + 3],
            ) {
                let b1 = bytes[i + 1];
                let b2 = bytes[i + 2];
                let b3 = bytes[i + 3];
                assert(tail[1] == b1 && tail[2] == b2 && tail[3] == b3);
                let cp: u32 = (((b0 & 0x07) as u32) << 18u32) | (((b1 & 0x3f) as u32) << 12u32)
                    | (((b2 & 0x3f) as u32) << 6u32) | ((b3 & 0x3f) as u32);
                assert(cp == codepoint_width_4(b0, b1, b2, b3));
                assert((((b0 & 0x07) as u32) << 18u32) | (((b1 & 0x3f) as u32) << 12u32) | (((b2
                    & 0x3f) as u32) << 6u32) | ((b3 & 0x3f) as u32) <= 0x1fffff) by (bit_vector);
                if 0x10000 <= cp && cp <= 0x10ffff {
                    assert(valid_first_scalar(tail));
                    4
                } else {
                    // Overlong four-byte form or beyond the last scalar.
                    assert(!valid_first_scalar(tail));
                    0
                }
            } else {
                assert(!valid_first_scalar(tail));
                0
            }
        } else {
            // 0xf8 and above lead no encoding at all.
            assert(!valid_first_scalar(tail));
            0
        };
        if width == 0 {
            proof {
                assert(!valid_utf8(tail)) by {
                    reveal_with_fuel(valid_utf8, 1);
                }
                partial_valid_partial_invalid_utf8(bytes@, i as int);
            }
            return false;
        }
        proof {
            partial_valid_utf8_extend(bytes@, i as int);
        }
        i = i + width;
    }
    assert(bytes@.subrange(0, n as int) =~= bytes@);
    true
}

/// True when the byte has the continuation form `10xxxxxx`.
fn is_cont(b: u8) -> (r: bool)
    ensures
        r == is_continuation_byte(b),
{
    0x80 <= b && b <= 0xbf
}

/// Byte-for-byte equality of two slices.
pub fn bytes_eq(a: &[u8], b: &[u8]) -> (r: bool)
    ensures
        r == (a@ == b@),
{
    let n = a.len();
    if n != b.len() {
        proof {
            assert(a@.len() != b@.len());
        }
        return false;
    }
    let mut i: usize = 0;
    while i < n
        invariant
            i <= n,
            n == a@.len(),
            n == b@.len(),
            forall|j: int| 0 <= j < i ==> a@[j] == b@[j],
        decreases n - i,
    {
        if a[i] != b[i] {
            return false;
        }
        i = i + 1;
    }
    proof {
        assert(a@ =~= b@);
    }
    true
}

/// Appends every byte of `src` to `dst`.
pub fn append_bytes(dst: &mut Vec<u8>, src: &[u8])
    ensures
        final(dst)@ == old(dst)@ + src@,
{
    let n = src.len();
    let mut i: usize = 0;
    while i < n
        invariant
            i <= n,
            n == src@.len(),
            dst@ == old(dst)@ + src@.subrange(0, i as int),
        decreases n - i,
    {
        dst.push(src[i]);
        proof {
            assert(old(dst)@ + src@.subrange(0, i as int + 1) =~= (old(dst)@ + src@.subrange(
                0,
                i as int,
            )).push(src@[i as int]));
        }
        i = i + 1;
    }
    proof {
        assert(src@.subrange(0, n as int) =~= src@);
    }
}

/// Text equality of two string slices, decided on their UTF-8 bytes.
pub fn str_eq(a: &str, b: &str) -> (r: bool)
    ensures
        r == (a@ == b@),
{
    let r = bytes_eq(a.as_bytes(), b.as_bytes());
    proof {
        if a.spec_bytes() == b.spec_bytes() {
            vstd::utf8::encode_utf8_decode_utf8(a@);
            vstd::utf8::encode_utf8_decode_utf8(b@);
        }
    }
    r
}

} // verus!
