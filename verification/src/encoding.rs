//! GBK / UTF-8 conversion.
//!
//! A deliberately small converter: ASCII passes through unchanged, and a
//! handful of common double-byte GBK characters are mapped by table; every
//! other well-formed double-byte sequence becomes the replacement character.
//! Both directions check the output buffer with a fixed per-character margin
//! before each character, so a conversion can stop early with
//! `NotEnoughSpace`, leaving the already converted prefix in the buffer.

use vstd::prelude::*;

verus! {

/// Why a conversion failed.
#[derive(Debug, Clone, Copy, PartialEq, Eq, Structural)]
pub enum EncodingError {
    /// The input is not well formed in the source encoding.
    InvalidInput,
    /// The output buffer cannot take the next converted character.
    NotEnoughSpace,
    /// The requested encoding is not handled.
    UnsupportedEncoding,
}

/// The character encodings this module knows about.
#[derive(Debug, Clone, Copy, PartialEq, Eq, Structural)]
pub enum Encoding {
    UTF8,
    GBK,
    ASCII,
}

/// Largest single-byte GBK character.
pub const GBK_SINGLE_BYTE_MAX: u8 = 0x7F;

/// Smallest first byte of a double-byte GBK character.
pub const GBK_DOUBLE_BYTE_MIN_FIRST: u8 = 0x81;

/// Largest first byte of a double-byte GBK character.
pub const GBK_DOUBLE_BYTE_MAX_FIRST: u8 = 0xFE;

/// Smallest second byte of a double-byte GBK character.
pub const GBK_DOUBLE_BYTE_MIN_SECOND: u8 = 0x40;

/// Largest second byte of a double-byte GBK character.
pub const GBK_DOUBLE_BYTE_MAX_SECOND: u8 = 0xFE;

/// A byte that stands alone as a GBK character (the ASCII range).
pub open spec fn spec_is_gbk_single_byte(c: u8) -> bool {
    c <= GBK_SINGLE_BYTE_MAX
}

/// A byte that opens a double-byte GBK character.
pub open spec fn spec_is_gbk_double_byte_first(c: u8) -> bool {
    GBK_DOUBLE_BYTE_MIN_FIRST <= c <= GBK_DOUBLE_BYTE_MAX_FIRST
}

/// A byte that may close a double-byte GBK character (0x7F is excluded).
pub open spec fn spec_is_gbk_double_byte_second(c: u8) -> bool {
    (GBK_DOUBLE_BYTE_MIN_SECOND <= c <= 0x7E) || (0x80 <= c <= GBK_DOUBLE_BYTE_MAX_SECOND)
}

/// Byte length of the GBK character opened by `c`: 1, 2, or 0 when `c` can
/// open none.
pub open spec fn spec_gbk_char_len(c: u8) -> usize {
    if spec_is_gbk_single_byte(c) {
        1usize
    } else if spec_is_gbk_double_byte_first(c) {
        2usize
    } else {
        0usize
    }
}

/// Checks whether `c` is a valid single-byte GBK character.
pub fn is_gbk_single_byte(c: u8) -> (r: bool)
    ensures
        r == spec_is_gbk_single_byte(c),
{
    c <= GBK_SINGLE_BYTE_MAX
}

/// Checks whether `c` is a valid first byte of a double-byte GBK character.
pub fn is_gbk_double_byte_first(c: u8) -> (r: bool)
    ensures
        r == spec_is_gbk_double_byte_first(c),
{
    c >= GBK_DOUBLE_BYTE_MIN_FIRST && c <= GBK_DOUBLE_BYTE_MAX_FIRST
}

/// Checks whether `c` is a valid second byte of a double-byte GBK character.
pub fn is_gbk_double_byte_second(c: u8) -> (r: bool)
    ensures
        r == spec_is_gbk_double_byte_second(c),
{
    (c >= GBK_DOUBLE_BYTE_MIN_SECOND && c <= 0x7E) || (c >= 0x80 && c <= GBK_DOUBLE_BYTE_MAX_SECOND)
}

/// Byte length of the GBK character opened by `c` (0 for an invalid opener).
pub fn gbk_char_len(c: u8) -> (r: usize)
    ensures
        r == spec_gbk_char_len(c),
{
    if is_gbk_single_byte(c) {
        1
    } else if is_gbk_double_byte_first(c) {
        2
    } else {
        0
    }
}

/// The Unicode scalar this module assigns to a double-byte GBK character:
/// a small fixed table, with the replacement character for everything else.
pub open spec fn spec_gbk_unicode(first: u8, second: u8) -> u32 {
    if first == 0xB1 && second == 0xE3 {
        0x4E2D
    } else if first == 0xCE && second == 0xC2 {
        0x6587
    } else if first == 0xD7 && second == 0xD6 {
        0x7F51
    } else if first == 0xC2 && second == 0xED {
        0x963F
    } else if first == 0xB5 && second == 0xC7 {
        0x9648
    } else if first == 0xCB && second == 0xE3 {
        0x5C3C
    } else {
        0xFFFD
    }
}

/// The UTF-8 encoding of a scalar of at most sixteen bits: one, two or
/// three bytes.
pub open spec fn spec_utf8_encode(u: u32) -> Seq<u8> {
    if u <= 0x7F {
        seq![u as u8]
    } else if u <= 0x7FF {
        seq![(0xC0u8 | ((u >> 6) as u8)), (0x80u8 | ((u as u8) & 0x3F))]
    } else {
        seq![
            (0xE0u8 | ((u >> 12) as u8)),
            (0x80u8 | (((u >> 6) as u8) & 0x3F)),
            (0x80u8 | ((u as u8) & 0x3F)),
        ]
    }
}

/// The GBK bytes this module assigns to a scalar decoded from a two-byte
/// UTF-8 sequence: the two table entries, or `?` for everything else.
pub open spec fn spec_gbk_encode_2byte(u: u32) -> Seq<u8> {
    if u == 0x4E2D {
        seq![0xB1u8, 0xE3u8]
    } else if u == 0x6587 {
        seq![0xCEu8, 0xC2u8]
    } else {
        seq![0x3Fu8]
    }
}

/// The GBK bytes this module assigns to a scalar decoded from a three-byte
/// UTF-8 sequence: the four table entries, or `?` for everything else.
pub open spec fn spec_gbk_encode_3byte(u: u32) -> Seq<u8> {
    if u == 0x7F51 {
        seq![0xD7u8, 0xD6u8]
    } else if u == 0x963F {
        seq![0xC2u8, 0xEDu8]
    } else if u == 0x9648 {
        seq![0xB5u8, 0xC7u8]
    } else if u == 0x5C3C {
        seq![0xCBu8, 0xE3u8]
    } else {
        seq![0x3Fu8]
    }
}

/// How a conversion run ends, and the converted bytes produced up to that
/// point.
pub enum ConvOutcome {
    /// The whole input was converted to these bytes.
    Converted(Seq<u8>),
    /// The input is malformed; these bytes were converted before the bad
    /// character.
    Invalid(Seq<u8>),
    /// The output buffer cannot take the next character; these bytes were
    /// converted first.
    NoSpace(Seq<u8>),
}

/// The GBK to UTF-8 conversion as a function of the input, the output
/// capacity and the bytes converted so far.  Before each character the
/// remaining space is checked against a fixed three-byte margin.
pub open spec fn spec_gbk_to_utf8(gbk: Seq<u8>, cap: int, acc: Seq<u8>) -> ConvOutcome
    decreases gbk.len(),
{
    if gbk.len() == 0 {
        ConvOutcome::Converted(acc)
    } else if acc.len() + 3 >= cap {
        ConvOutcome::NoSpace(acc)
    } else {
        let c = gbk[0];
        if spec_is_gbk_single_byte(c) {
            spec_gbk_to_utf8(gbk.skip(1), cap, acc.push(c))
        } else if spec_is_gbk_double_byte_first(c) && gbk.len() >= 2 {
            if spec_is_gbk_double_byte_second(gbk[1]) {
                spec_gbk_to_utf8(
                    gbk.skip(2),
                    cap,
                    acc + spec_utf8_encode(spec_gbk_unicode(c, gbk[1])),
                )
            } else {
                ConvOutcome::Invalid(acc)
            }
        } else {
            ConvOutcome::Invalid(acc)
        }
    }
}

/// The UTF-8 to GBK conversion as a function of the input, the output
/// capacity and the bytes converted so far, with a fixed two-byte margin.
pub open spec fn spec_utf8_to_gbk(utf8: Seq<u8>, cap: int, acc: Seq<u8>) -> ConvOutcome
    decreases utf8.len(),
{
    if utf8.len() == 0 {
        ConvOutcome::Converted(acc)
    } else if acc.len() + 2 >= cap {
        ConvOutcome::NoSpace(acc)
    } else {
        let first = utf8[0];
        if first <= 0x7F {
            spec_utf8_to_gbk(utf8.skip(1), cap, acc.push(first))
        } else if (first & 0xE0) == 0xC0 && utf8.len() >= 2 {
            if (utf8[1] & 0xC0) != 0x80 {
                ConvOutcome::Invalid(acc)
            } else {
                let u = (((first & 0x1F) as u32) << 6) | ((utf8[1] & 0x3F) as u32);
                spec_utf8_to_gbk(utf8.skip(2), cap, acc + spec_gbk_encode_2byte(u))
            }
        } else if (first & 0xF0) == 0xE0 && utf8.len() >= 3 {
            if (utf8[1] & 0xC0) != 0x80 || (utf8[2] & 0xC0) != 0x80 {
                ConvOutcome::Invalid(acc)
            } else {
                let u = (((first & 0x0F) as u32) << 12) | (((utf8[1] & 0x3F) as u32) << 6) | ((
                utf8[2] & 0x3F) as u32);
                spec_utf8_to_gbk(utf8.skip(3), cap, acc + spec_gbk_encode_3byte(u))
            }
        } else {
            ConvOutcome::Invalid(acc)
        }
    }
}


/// Converts GBK bytes to UTF-8 into `utf8_buffer`.
///
/// On success the converted bytes stand at the front of the buffer and the
/// count is returned; the rest of the buffer is untouched.  On a malformed
/// input or a full buffer the already converted prefix has been written and
/// the matching error is returned.  The outcome is exactly
/// `spec_gbk_to_utf8` of the input and the buffer's length.
pub fn gbk_to_utf8(gbk_bytes: &[u8], utf8_buffer: &mut [u8]) -> (r: Result<usize, EncodingError>)
    ensures
        final(utf8_buffer)@.len() == old(utf8_buffer)@.len(),
        (match spec_gbk_to_utf8(gbk_bytes@, old(utf8_buffer)@.len() as int, Seq::<u8>::empty()) {
            ConvOutcome::Converted(out) => r == Ok::<usize, EncodingError>(out.len() as usize)
                && final(utf8_buffer)@ == out + old(utf8_buffer)@.skip(out.len() as int),
            ConvOutcome::NoSpace(out) => r == Err::<usize, EncodingError>(
                EncodingError::NotEnoughSpace,
            ) && final(utf8_buffer)@ == out + old(utf8_buffer)@.skip(out.len() as int),
            ConvOutcome::Invalid(out) => r == Err::<usize, EncodingError>(
                EncodingError::InvalidInput,
            ) && final(utf8_buffer)@ == out + old(utf8_buffer)@.skip(out.len() as int),
        }),
{
    let cap: usize = utf8_buffer.len();
    let n: usize = gbk_bytes.len();
    let mut gbk_index: usize = 0;
    let mut utf8_index: usize = 0;
    proof {
        assert(gbk_bytes@.skip(0) =~= gbk_bytes@);
        assert(utf8_buffer@.take(0) =~= Seq::<u8>::empty());
    }
    while gbk_index < n
        invariant
            gbk_index <= n,
            utf8_index <= cap,
            n == gbk_bytes@.len(),
            cap == old(utf8_buffer)@.len(),
            utf8_buffer@.len() == cap,
            forall|j: int| utf8_index <= j < cap ==> utf8_buffer@[j] == old(utf8_buffer)@[j],
            spec_gbk_to_utf8(gbk_bytes@, cap as int, Seq::<u8>::empty()) == spec_gbk_to_utf8(
                gbk_bytes@.skip(gbk_index as int),
                cap as int,
                utf8_buffer@.take(utf8_index as int),
            ),
        decreases n - gbk_index,
    {
        let ghost pre_rest = gbk_bytes@.skip(gbk_index as int);
        let ghost pre_acc = utf8_buffer@.take(utf8_index as int);
        proof {
            assert(pre_rest.len() == n - gbk_index);
            assert(pre_rest[0] == gbk_bytes@[gbk_index as int]);
        }
        // The fixed three-byte margin: a UTF-8 character needs at most three
        // bytes here.
        if cap < 3 || utf8_index >= cap - 3 {
            proof {
                assert(pre_acc.len() + 3 >= cap as int);
                assert(spec_gbk_to_utf8(pre_rest, cap as int, pre_acc)
                    == ConvOutcome::NoSpace(pre_acc));
                assert(utf8_buffer@ =~= utf8_buffer@.take(utf8_index as int) + old(
                    utf8_buffer,
                )@.skip(utf8_index as int));
            }
            return Err(EncodingError::NotEnoughSpace);
        }
        let current = gbk_bytes[gbk_index];
        if is_gbk_single_byte(current) {
            utf8_buffer[utf8_index] = current;
            proof {
                assert(pre_rest.skip(1) =~= gbk_bytes@.skip(gbk_index + 1));
                assert(utf8_buffer@.take(utf8_index + 1) =~= pre_acc.push(current));
                assert(spec_gbk_to_utf8(pre_rest, cap as int, pre_acc) == spec_gbk_to_utf8(
                    pre_rest.skip(1),
                    cap as int,
                    pre_acc.push(current),
                ));
            }
            utf8_index = utf8_index + 1;
            gbk_index = gbk_index + 1;
        } else if is_gbk_double_byte_first(current) && gbk_index + 1 < n {
            let second = gbk_bytes[gbk_index + 1];
            proof {
                assert(pre_rest[1] == second);
            }
            if is_gbk_double_byte_second(second) {
                // A small fixed table; everything unmapped becomes the
                // replacement character.
                let unicode: u32 = if current == 0xB1 && second == 0xE3 {
                    0x4E2D
                } else if current == 0xCE && second == 0xC2 {
                    0x6587
                } else if current == 0xD7 && second == 0xD6 {
                    0x7F51
                } else if current == 0xC2 && second == 0xED {
                    0x963F
                } else if current == 0xB5 && second == 0xC7 {
                    0x9648
                } else if current == 0xCB && second == 0xE3 {
                    0x5C3C
                } else {
                    0xFFFD
                };
                proof {
                    assert(unicode == spec_gbk_unicode(current, second));
                }
                if unicode <= 0x7F {
                    utf8_buffer[utf8_index] = unicode as u8;
                    proof {
                        assert(utf8_buffer@.take(utf8_index + 1) =~= pre_acc + spec_utf8_encode(
                            unicode,
                        ));
                    }
                    utf8_index = utf8_index + 1;
                } else if unicode <= 0x7FF {
                    utf8_buffer[utf8_index] = 0xC0u8 | ((unicode >> 6) as u8);
                    utf8_buffer[utf8_index + 1] = 0x80u8 | ((#[verifier::truncate] (unicode
                        as u8)) & 0x3F);
                    proof {
                        assert(utf8_buffer@.take(utf8_index + 2) =~= pre_acc + spec_utf8_encode(
                            unicode,
                        ));
                    }
                    utf8_index = utf8_index + 2;
                } else {
                    utf8_buffer[utf8_index] = 0xE0u8 | ((unicode >> 12) as u8);
                    utf8_buffer[utf8_index + 1] = 0x80u8 | ((#[verifier::truncate] ((unicode
                        >> 6) as u8)) & 0x3F);
                    utf8_buffer[utf8_index + 2] = 0x80u8 | ((#[verifier::truncate] (unicode
                        as u8)) & 0x3F);
                    proof {
                        assert(utf8_buffer@.take(utf8_index + 3) =~= pre_acc + spec_utf8_encode(
                            unicode,
                        ));
                    }
                    utf8_index = utf8_index + 3;
                }
                proof {
                    assert(pre_rest.skip(2) =~= gbk_bytes@.skip(gbk_index + 2));
                    assert(spec_gbk_to_utf8(pre_rest, cap as int, pre_acc) == spec_gbk_to_utf8(
                        pre_rest.skip(2),
                        cap as int,
                        pre_acc + spec_utf8_encode(spec_gbk_unicode(current, second)),
                    ));
                }
                gbk_index = gbk_index + 2;
            } else {
                proof {
                    assert(spec_gbk_to_utf8(pre_rest, cap as int, pre_acc)
                        == ConvOutcome::Invalid(pre_acc));
                    assert(utf8_buffer@ =~= utf8_buffer@.take(utf8_index as int) + old(
                        utf8_buffer,
                    )@.skip(utf8_index as int));
                }
                return Err(EncodingError::InvalidInput);
            }
        } else {
            proof {
                assert(spec_gbk_to_utf8(pre_rest, cap as int, pre_acc) == ConvOutcome::Invalid(
                    pre_acc,
                ));
                assert(utf8_buffer@ =~= utf8_buffer@.take(utf8_index as int) + old(
                    utf8_buffer,
                )@.skip(utf8_index as int));
            }
            return Err(EncodingError::InvalidInput);
        }
    }
    proof {
        assert(gbk_bytes@.skip(gbk_index as int) =~= Seq::<u8>::empty());
        assert(spec_gbk_to_utf8(
            gbk_bytes@.skip(gbk_index as int),
            cap as int,
            utf8_buffer@.take(utf8_index as int),
        ) == ConvOutcome::Converted(utf8_buffer@.take(utf8_index as int)));
        assert(utf8_buffer@ =~= utf8_buffer@.take(utf8_index as int) + old(utf8_buffer)@.skip(
            utf8_index as int,
        ));
    }
    Ok(utf8_index)
}


/// Converts UTF-8 bytes to GBK into `gbk_buffer`.
///
/// ASCII passes through; two- and three-byte UTF-8 characters are mapped by
/// the fixed table, everything unmapped becomes `?`.  On success the
/// converted bytes stand at the front of the buffer and the count is
/// returned; on a malformed input or a full buffer the already converted
/// prefix has been written and the matching error is returned.  The outcome
/// is exactly `spec_utf8_to_gbk` of the input and the buffer's length.
pub fn utf8_to_gbk(utf8_bytes: &[u8], gbk_buffer: &mut [u8]) -> (r: Result<usize, EncodingError>)
    ensures
        final(gbk_buffer)@.len() == old(gbk_buffer)@.len(),
        (match spec_utf8_to_gbk(utf8_bytes@, old(gbk_buffer)@.len() as int, Seq::<u8>::empty()) {
            ConvOutcome::Converted(out) => r == Ok::<usize, EncodingError>(out.len() as usize)
                && final(gbk_buffer)@ == out + old(gbk_buffer)@.skip(out.len() as int),
            ConvOutcome::NoSpace(out) => r == Err::<usize, EncodingError>(
                EncodingError::NotEnoughSpace,
            ) && final(gbk_buffer)@ == out + old(gbk_buffer)@.skip(out.len() as int),
            ConvOutcome::Invalid(out) => r == Err::<usize, EncodingError>(
                EncodingError::InvalidInput,
            ) && final(gbk_buffer)@ == out + old(gbk_buffer)@.skip(out.len() as int),
        }),
{
    let cap: usize = gbk_buffer.len();
    let n: usize = utf8_bytes.len();
    let mut utf8_index: usize = 0;
    let mut gbk_index: usize = 0;
    proof {
        assert(utf8_bytes@.skip(0) =~= utf8_bytes@);
        assert(gbk_buffer@.take(0) =~= Seq::<u8>::empty());
    }
    while utf8_index < n
        invariant
            utf8_index <= n,
            gbk_index <= cap,
            n == utf8_bytes@.len(),
            cap == old(gbk_buffer)@.len(),
            gbk_buffer@.len() == cap,
            forall|j: int| gbk_index <= j < cap ==> gbk_buffer@[j] == old(gbk_buffer)@[j],
            spec_utf8_to_gbk(utf8_bytes@, cap as int, Seq::<u8>::empty()) == spec_utf8_to_gbk(
                utf8_bytes@.skip(utf8_index as int),
                cap as int,
                gbk_buffer@.take(gbk_index as int),
            ),
        decreases n - utf8_index,
    {
        let ghost pre_rest = utf8_bytes@.skip(utf8_index as int);
        let ghost pre_acc = gbk_buffer@.take(gbk_index as int);
        proof {
            assert(pre_rest.len() == n - utf8_index);
            assert(pre_rest[0] == utf8_bytes@[utf8_index as int]);
        }
        // The fixed two-byte margin: a GBK character needs at most two bytes.
        if cap < 2 || gbk_index >= cap - 2 {
            proof {
                assert(pre_acc.len() + 2 >= cap as int);
                assert(spec_utf8_to_gbk(pre_rest, cap as int, pre_acc)
                    == ConvOutcome::NoSpace(pre_acc));
                assert(gbk_buffer@ =~= gbk_buffer@.take(gbk_index as int) + old(gbk_buffer)@.skip(
                    gbk_index as int,
                ));
            }
            return Err(EncodingError::NotEnoughSpace);
        }
        let first = utf8_bytes[utf8_index];
        if first <= 0x7F {
            gbk_buffer[gbk_index] = first;
            proof {
                assert(pre_rest.skip(1) =~= utf8_bytes@.skip(utf8_index + 1));
                assert(gbk_buffer@.take(gbk_index + 1) =~= pre_acc.push(first));
                assert(spec_utf8_to_gbk(pre_rest, cap as int, pre_acc) == spec_utf8_to_gbk(
                    pre_rest.skip(1),
                    cap as int,
                    pre_acc.push(first),
                ));
            }
            gbk_index = gbk_index + 1;
            utf8_index = utf8_index + 1;
        } else if (first & 0xE0) == 0xC0 && utf8_index + 1 < n {
            let second = utf8_bytes[utf8_index + 1];
            proof {
                assert(pre_rest[1] == second);
            }
            if (second & 0xC0) != 0x80 {
                proof {
                    assert(spec_utf8_to_gbk(pre_rest, cap as int, pre_acc)
                        == ConvOutcome::Invalid(pre_acc));
                    assert(gbk_buffer@ =~= gbk_buffer@.take(gbk_index as int) + old(
                        gbk_buffer,
                    )@.skip(gbk_index as int));
                }
                return Err(EncodingError::InvalidInput);
            }
            let unicode: u32 = (((first & 0x1F) as u32) << 6) | ((second & 0x3F) as u32);
            if unicode == 0x4E2D {
                gbk_buffer[gbk_index] = 0xB1;
                gbk_buffer[gbk_index + 1] = 0xE3;
                proof {
                    assert(gbk_buffer@.take(gbk_index + 2) =~= pre_acc + spec_gbk_encode_2byte(
                        unicode,
                    ));
                }
                gbk_index = gbk_index + 2;
            } else if unicode == 0x6587 {
                gbk_buffer[gbk_index] = 0xCE;
                gbk_buffer[gbk_index + 1] = 0xC2;
                proof {
                    assert(gbk_buffer@.take(gbk_index + 2) =~= pre_acc + spec_gbk_encode_2byte(
                        unicode,
                    ));
                }
                gbk_index = gbk_index + 2;
            } else {
                gbk_buffer[gbk_index] = 0x3F;
                proof {
                    assert(gbk_buffer@.take(gbk_index + 1) =~= pre_acc + spec_gbk_encode_2byte(
                        unicode,
                    ));
                }
                gbk_index = gbk_index + 1;
            }
            proof {
                assert(pre_rest.skip(2) =~= utf8_bytes@.skip(utf8_index + 2));
                assert(spec_utf8_to_gbk(pre_rest, cap as int, pre_acc) == spec_utf8_to_gbk(
                    pre_rest.skip(2),
                    cap as int,
                    pre_acc + spec_gbk_encode_2byte(unicode),
                ));
            }
            utf8_index = utf8_index + 2;
        } else if (first & 0xF0) == 0xE0 && n - utf8_index > 2 {
            let second = utf8_bytes[utf8_index + 1];
            let third = utf8_bytes[utf8_index + 2];
            proof {
                assert(pre_rest[1] == second);
                assert(pre_rest[2] == third);
            }
            if (second & 0xC0) != 0x80 || (third & 0xC0) != 0x80 {
                proof {
                    assert(spec_utf8_to_gbk(pre_rest, cap as int, pre_acc)
                        == ConvOutcome::Invalid(pre_acc));
                    assert(gbk_buffer@ =~= gbk_buffer@.take(gbk_index as int) + old(
                        gbk_buffer,
                    )@.skip(gbk_index as int));
                }
                return Err(EncodingError::InvalidInput);
            }
            let unicode: u32 = (((first & 0x0F) as u32) << 12) | (((second & 0x3F) as u32) << 6)
                | ((third & 0x3F) as u32);
            if unicode == 0x7F51 {
                gbk_buffer[gbk_index] = 0xD7;
                gbk_buffer[gbk_index + 1] = 0xD6;
                proof {
                    assert(gbk_buffer@.take(gbk_index + 2) =~= pre_acc + spec_gbk_encode_3byte(
                        unicode,
                    ));
                }
                gbk_index = gbk_index + 2;
            } else if unicode == 0x963F {
                gbk_buffer[gbk_index] = 0xC2;
                gbk_buffer[gbk_index + 1] = 0xED;
                proof {
                    assert(gbk_buffer@.take(gbk_index + 2) =~= pre_acc + spec_gbk_encode_3byte(
                        unicode,
                    ));
                }
                gbk_index = gbk_index + 2;
            } else if unicode == 0x9648 {
                gbk_buffer[gbk_index] = 0xB5;
                gbk_buffer[gbk_index + 1] = 0xC7;
                proof {
                    assert(gbk_buffer@.take(gbk_index + 2) =~= pre_acc + spec_gbk_encode_3byte(
                        unicode,
                    ));
                }
                gbk_index = gbk_index + 2;
            } else if unicode == 0x5C3C {
                gbk_buffer[gbk_index] = 0xCB;
                gbk_buffer[gbk_index + 1] = 0xE3;
                proof {
                    assert(gbk_buffer@.take(gbk_index + 2) =~= pre_acc + spec_gbk_encode_3byte(
                        unicode,
                    ));
                }
                gbk_index = gbk_index + 2;
            } else {
                gbk_buffer[gbk_index] = 0x3F;
                proof {
                    assert(gbk_buffer@.take(gbk_index + 1) =~= pre_acc + spec_gbk_encode_3byte(
                        unicode,
                    ));
                }
                gbk_index = gbk_index + 1;
            }
            proof {
                assert(pre_rest.skip(3) =~= utf8_bytes@.skip(utf8_index + 3));
                assert(spec_utf8_to_gbk(pre_rest, cap as int, pre_acc) == spec_utf8_to_gbk(
                    pre_rest.skip(3),
                    cap as int,
                    pre_acc + spec_gbk_encode_3byte(unicode),
                ));
            }
            utf8_index = utf8_index + 3;
        } else {
            proof {
                assert(spec_utf8_to_gbk(pre_rest, cap as int, pre_acc) == ConvOutcome::Invalid(
                    pre_acc,
                ));
                assert(gbk_buffer@ =~= gbk_buffer@.take(gbk_index as int) + old(gbk_buffer)@.skip(
                    gbk_index as int,
                ));
            }
            return Err(EncodingError::InvalidInput);
        }
    }
    proof {
        assert(utf8_bytes@.skip(utf8_index as int) =~= Seq::<u8>::empty());
        assert(spec_utf8_to_gbk(
            utf8_bytes@.skip(utf8_index as int),
            cap as int,
            gbk_buffer@.take(gbk_index as int),
        ) == ConvOutcome::Converted(gbk_buffer@.take(gbk_index as int)));
        assert(gbk_buffer@ =~= gbk_buffer@.take(gbk_index as int) + old(gbk_buffer)@.skip(
            gbk_index as int,
        ));
    }
    Ok(gbk_index)
}

} // verus!
