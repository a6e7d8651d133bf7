//! An executable UTF-8 validity check.
//!
//! The daemon interprets a submitted secret as UTF-8 text and rejects
//! anything else, so it needs a checker whose answer is exactly
//! [`vstd::utf8::valid_utf8`] of the submitted bytes.  The checker
//! walks the input one encoded scalar at a time, deciding validity of
//! each from the well-known byte ranges and proving those ranges
//! equivalent to the codepoint bounds of the specification.

use vstd::prelude::*;
use vstd::utf8::*;

verus! {

/// Byte ranges versus codepoint bounds for a two-byte encoding.
proof fn lemma_width2(b0: u8, b1: u8)
    requires
        is_leading_byte_width_2(b0),
        is_continuation_byte(b1),
    ensures
        codepoint_width_2(b0, b1) < 0x800,
        b0 >= 0xc2 ==> codepoint_width_2(b0, b1) >= 0x80,
        b0 < 0xc2 ==> codepoint_width_2(b0, b1) < 0x80,
{
    assert(codepoint_width_2(b0, b1) == ((((b0 & 0x1f) as u32) << 6) | ((b1 & 0x3f) as u32)));
    assert((0xc0 <= b0 <= 0xdf && 0x80 <= b1 <= 0xbf) ==> {
        let cp = (((b0 & 0x1f) as u32) << 6) | ((b1 & 0x3f) as u32);
        &&& cp < 0x800
        &&& (b0 >= 0xc2 ==> cp >= 0x80)
        &&& (b0 < 0xc2 ==> cp < 0x80)
    }) by (bit_vector);
}

/// Byte ranges versus codepoint bounds for a three-byte encoding.
proof fn lemma_width3(b0: u8, b1: u8, b2: u8)
    requires
        is_leading_byte_width_3(b0),
        is_continuation_byte(b1),
        is_continuation_byte(b2),
    ensures
        b0 == 0xe0 ==> (codepoint_width_3(b0, b1, b2) >= 0x800 <==> b1 >= 0xa0),
        b0 == 0xe0 ==> codepoint_width_3(b0, b1, b2) < 0xd800,
        b0 != 0xe0 ==> codepoint_width_3(b0, b1, b2) >= 0x800,
        b0 == 0xed ==> (codepoint_width_3(b0, b1, b2) >= 0xd800 <==> b1 >= 0xa0),
        b0 == 0xed ==> codepoint_width_3(b0, b1, b2) <= 0xdfff,
        (b0 != 0xe0 && b0 != 0xed) ==> !(0xd800 <= codepoint_width_3(b0, b1, b2) <= 0xdfff),
{
    assert(codepoint_width_3(b0, b1, b2) == ((((b0 & 0x0f) as u32) << 12) | (((b1
        & 0x3f) as u32) << 6) | ((b2 & 0x3f) as u32)));
    assert((0xe0 <= b0 <= 0xef && 0x80 <= b1 <= 0xbf && 0x80 <= b2 <= 0xbf) ==> {
        let cp = (((b0 & 0x0f) as u32) << 12) | (((b1 & 0x3f) as u32) << 6) | ((b2
            & 0x3f) as u32);
        &&& (b0 == 0xe0 ==> (cp >= 0x800 <==> b1 >= 0xa0))
        &&& (b0 == 0xe0 ==> cp < 0xd800)
        &&& (b0 != 0xe0 ==> cp >= 0x800)
        &&& (b0 == 0xed ==> (cp >= 0xd800 <==> b1 >= 0xa0))
        &&& (b0 == 0xed ==> cp <= 0xdfff)
        &&& ((b0 != 0xe0 && b0 != 0xed) ==> !(0xd800 <= cp <= 0xdfff))
    }) by (bit_vector);
}

/// Byte ranges versus codepoint bounds for a four-byte encoding.
proof fn lemma_width4(b0: u8, b1: u8, b2: u8, b3: u8)
    requires
        is_leading_byte_width_4(b0),
        is_continuation_byte(b1),
        is_continuation_byte(b2),
        is_continuation_byte(b3),
    ensures
        b0 == 0xf0 ==> (codepoint_width_4(b0, b1, b2, b3) >= 0x10000 <==> b1 >= 0x90),
        b0 == 0xf0 ==> codepoint_width_4(b0, b1, b2, b3) <= 0x10ffff,
        (0xf1 <= b0 <= 0xf3) ==> 0x10000 <= codepoint_width_4(b0, b1, b2, b3) <= 0x10ffff,
        b0 == 0xf4 ==> (codepoint_width_4(b0, b1, b2, b3) <= 0x10ffff <==> b1 <= 0x8f),
        b0 == 0xf4 ==> codepoint_width_4(b0, b1, b2, b3) >= 0x10000,
        b0 >= 0xf5 ==> codepoint_width_4(b0, b1, b2, b3) > 0x10ffff,
{
    assert(codepoint_width_4(b0, b1, b2, b3) == ((((b0 & 0x07) as u32) << 18) | (((b1
        & 0x3f) as u32) << 12) | (((b2 & 0x3f) as u32) << 6) | ((b3 & 0x3f) as u32)));
    assert((0xf0 <= b0 <= 0xf7 && 0x80 <= b1 <= 0xbf && 0x80 <= b2 <= 0xbf && 0x80 <= b3
        <= 0xbf) ==> {
        let cp = (((b0 & 0x07) as u32) << 18) | (((b1 & 0x3f) as u32) << 12) | (((b2
            & 0x3f) as u32) << 6) | ((b3 & 0x3f) as u32);
        &&& (b0 == 0xf0 ==> (cp >= 0x10000 <==> b1 >= 0x90))
        &&& (b0 == 0xf0 ==> cp <= 0x10ffff)
        &&& ((0xf1 <= b0 <= 0xf3) ==> 0x10000 <= cp <= 0x10ffff)
        &&& (b0 == 0xf4 ==> (cp <= 0x10ffff <==> b1 <= 0x8f))
        &&& (b0 == 0xf4 ==> cp >= 0x10000)
        &&& (b0 >= 0xf5 ==> cp > 0x10ffff)
    }) by (bit_vector);
}

/// Decide whether `bytes` form a valid UTF-8 encoding.
pub fn validate_utf8(bytes: &[u8]) -> (r: bool)
    ensures
        r == valid_utf8(bytes@),
{
    let n = bytes.len();
    let mut i: usize = 0;
    proof {
        assert(bytes@.skip(0) =~= bytes@);
    }
    while i < n
        invariant
            i <= n,
            n == bytes@.len(),
            valid_utf8(bytes@) == valid_utf8(bytes@.skip(i as int)),
        decreases n - i,
    {
        let ghost suf = bytes@.skip(i as int);
        proof {
            assert(suf.len() == n - i);
            assert forall|k: int| 0 <= k < suf.len() implies suf[k] == bytes@[i + k] by {}
        }
        let b0 = bytes[i];
        let width: usize;
        if b0 < 0x80 {
            // One byte: always a valid scalar.
            proof {
                assert(valid_first_scalar(suf));
                assert(length_of_first_scalar(suf) == 1);
            }
            width = 1;
        } else if b0 < 0xc2 {
            // A stray continuation byte, or the overlong leaders 0xc0
            // and 0xc1.
            proof {
                if is_leading_byte_width_2(b0) && suf.len() >= 2 && is_continuation_byte(
                    suf[1],
                ) {
                    lemma_width2(b0, suf[1]);
                    assert(!valid_first_scalar(suf));
                } else {
                    assert(!valid_first_scalar(suf));
                }
            }
            return false;
        } else if b0 < 0xe0 {
            if n - i < 2 {
                proof {
                    assert(!valid_first_scalar(suf));
                }
                return false;
            }
            let b1 = bytes[i + 1];
            if !(0x80 <= b1 && b1 <= 0xbf) {
                proof {
                    assert(!valid_first_scalar(suf));
                }
                return false;
            }
            proof {
                lemma_width2(b0, b1);
                assert(valid_first_scalar(suf));
                assert(length_of_first_scalar(suf) == 2);
            }
            width = 2;
        } else if b0 < 0xf0 {
            if n - i < 3 {
                proof {
                    assert(!valid_first_scalar(suf));
                }
                return false;
            }
            let b1 = bytes[i + 1];
            let b2 = bytes[i + 2];
            if !(0x80 <= b1 && b1 <= 0xbf) || !(0x80 <= b2 && b2 <= 0xbf) {
                proof {
                    assert(!valid_first_scalar(suf));
                }
                return false;
            }
            if (b0 == 0xe0 && b1 < 0xa0) || (b0 == 0xed && b1 >= 0xa0) {
                // Overlong encoding, or a surrogate codepoint.
                proof {
                    lemma_width3(b0, b1, b2);
                    assert(!valid_first_scalar(suf));
                }
                return false;
            }
            proof {
                lemma_width3(b0, b1, b2);
                assert(valid_first_scalar(suf));
                assert(length_of_first_scalar(suf) == 3);
            }
            width = 3;
        } else if b0 < 0xf5 {
            if n - i < 4 {
                proof {
                    assert(!valid_first_scalar(suf));
                }
                return false;
            }
            let b1 = bytes[i + 1];
            let b2 = bytes[i + 2];
            let b3 = bytes[i + 3];
            if !(0x80 <= b1 && b1 <= 0xbf) || !(0x80 <= b2 && b2 <= 0xbf) || !(0x80 <= b3
                && b3 <= 0xbf) {
                proof {
                    assert(!valid_first_scalar(suf));
                }
                return false;
            }
            if (b0 == 0xf0 && b1 < 0x90) || (b0 == 0xf4 && b1 >= 0x90) {
                // Overlong encoding, or a codepoint past 0x10ffff.
                proof {
                    lemma_width4(b0, b1, b2, b3);
                    assert(!valid_first_scalar(suf));
                }
                return false;
            }
            proof {
                lemma_width4(b0, b1, b2, b3);
                assert(valid_first_scalar(suf));
                assert(length_of_first_scalar(suf) == 4);
            }
            width = 4;
        } else {
            // Leaders 0xf5 through 0xff encode nothing below 0x110000.
            proof {
                if is_leading_byte_width_4(b0) && suf.len() >= 4 && is_continuation_byte(
                    suf[1],
                ) && is_continuation_byte(suf[2]) && is_continuation_byte(suf[3]) {
                    lemma_width4(b0, suf[1], suf[2], suf[3]);
                    assert(!valid_first_scalar(suf));
                } else {
                    assert(!valid_first_scalar(suf));
                }
            }
            return false;
        }
        proof {
            assert(pop_first_scalar(suf) =~= bytes@.skip(i as int + width as int));
        }
        i += width;
    }
    proof {
        assert(bytes@.skip(n as int) =~= Seq::<u8>::empty());
    }
    true
}

} // verus!
