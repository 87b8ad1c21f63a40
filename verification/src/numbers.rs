//! Numeric conversions for the loader.
//!
//! JSON number tokens are kept as raw byte strings by the document parser.
//! Indices are decoded from all-digit tokens by verified code; general
//! numbers go through tinyjson's number parsing (a trusted wrapper) and are
//! narrowed to single precision, whose bit pattern is what the renderer
//! stores.  Small all-digit tokens are narrowed by verified code, exactly.

use vstd::prelude::*;

use crate::LoadError;

verus! {

/// The bit pattern of the 32-bit float 1.0.
pub const F32_ONE_BITS: u32 = 0x3F80_0000;

pub open spec fn is_digit(b: u8) -> bool {
    48 <= b <= 57
}

/// An all-digit token (at least one digit).
pub open spec fn is_digits(t: Seq<u8>) -> bool {
    t.len() >= 1 && forall|i: int| 0 <= i < t.len() ==> is_digit(#[trigger] t[i])
}

/// The decimal value of an all-digit token.
pub open spec fn digits_value(t: Seq<u8>) -> nat
    decreases t.len(),
{
    if t.len() == 0 {
        0
    } else {
        (digits_value(t.drop_last()) * 10 + (t.last() - 48)) as nat
    }
}

pub open spec fn pow10(e: nat) -> nat
    decreases e,
{
    if e == 0 {
        1
    } else {
        10 * pow10((e - 1) as nat)
    }
}

/// Decodes an unsigned decimal integer token.  Succeeds exactly on all-digit
/// tokens of at most 19 digits (every such value fits in 64 bits).
pub fn parse_digits_u64(token: &[u8]) -> (r: Result<u64, LoadError>)
    ensures
        r is Ok <==> is_digits(token@) && token@.len() <= 19,
        r is Ok ==> r->Ok_0 == digits_value(token@),
        r is Err ==> r->Err_0 == LoadError::BadNumber,
{
    if token.len() == 0 || token.len() > 19 {
        return Err(LoadError::BadNumber);
    }
    let mut value: u64 = 0;
    let mut i: usize = 0;
    while i < token.len()
        invariant
            0 <= i <= token@.len(),
            1 <= token@.len() <= 19,
            forall|j: int| 0 <= j < i ==> is_digit(#[trigger] token@[j]),
            value == digits_value(token@.subrange(0, i as int)),
            value < pow10(i as nat),
        decreases token@.len() - i,
    {
        let b: u8 = token[i];
        if b < 48 || b > 57 {
            return Err(LoadError::BadNumber);
        }
        proof {
            assert(token@.subrange(0, i + 1).drop_last() =~= token@.subrange(0, i as int));
            assert(pow10((i + 1) as nat) == 10 * pow10(i as nat));
            lemma_pow10_le_u64_max((i + 1) as nat);
        }
        value = value * 10 + ((b - 48) as u64);
        i = i + 1;
    }
    proof {
        assert(token@.subrange(0, token@.len() as int) =~= token@);
    }
    Ok(value)
}

proof fn lemma_pow10_le_u64_max(e: nat)
    requires
        e <= 19,
    ensures
        pow10(e) <= 0x8AC7_2304_89E8_0000,
{
    reveal_with_fuel(pow10, 20);
}

/// A binary64 bit pattern, as tinyjson's number parsing yields it for the
/// given token.  The value is a function of the token alone.
pub uninterp spec fn f64_bits_of(token: Seq<u8>) -> u64;

/// The binary32 bit pattern nearest (ties to even) to the binary64 bit
/// pattern given, as the hardware narrowing conversion yields it.
pub uninterp spec fn f32_of_f64_bits(bits: u64) -> u32;

/// Relies on tinyjson's number parsing (`JsonValue::from_str` on a lone
/// number literal, which defers to `str::parse::<f64>`): the parsed value
/// depends on the token text alone.  The leading byte must be a digit or a
/// minus sign, which keeps tinyjson on its non-recursive number path; an
/// arbitrary byte string could drive its recursive-descent parser
/// arbitrarily deep.
#[verifier::external_body]
fn json_number_f64_bits(token: &[u8]) -> (r: Option<u64>)
    requires
        token@.len() >= 1,
        is_digit(token@[0]) || token@[0] == 45,
    ensures
        r is Some ==> r->0 == f64_bits_of(token@),
{
    let text = match core::str::from_utf8(token) {
        Ok(t) => t,
        Err(_) => return None,
    };
    match text.parse::<tinyjson::JsonValue>() {
        Ok(tinyjson::JsonValue::Number(n)) => Some(n.to_bits()),
        _ => None,
    }
}

/// Relies on glam's `DVec4::as_vec4` (a per-lane double-to-single cast): the
/// narrowed value depends on the input bits alone.
#[verifier::external_body]
fn narrow_f64_bits(bits: u64) -> (r: u32)
    ensures
        r == f32_of_f64_bits(bits),
{
    let wide = glam::DVec4::splat(bytemuck::cast(bits));
    let lanes: [u32; 4] = bytemuck::cast(wide.as_vec4());
    lanes[0]
}

/// Repeated doubling, used to reason about mantissa normalization.
spec fn shl1(e: nat) -> nat
    decreases e,
{
    if e == 0 {
        1
    } else {
        2 * shl1((e - 1) as nat)
    }
}

proof fn lemma_shl1_mono(e1: nat, e2: nat)
    requires
        e1 <= e2,
    ensures
        shl1(e1) <= shl1(e2),
    decreases e2,
{
    if e1 < e2 {
        lemma_shl1_mono(e1, (e2 - 1) as nat);
    }
}

/// The binary32 bit pattern of a mantissa-exponent pair, normalizing the
/// mantissa upward into `[2^23, 2^24)`.
pub open spec fn norm_f32_bits(man: int, exp: int) -> int
    decreases 0x1000000 - man,
        when 0 < man < 0x1000000
{
    if man < 0x800000 {
        norm_f32_bits(2 * man, exp - 1)
    } else {
        exp * 0x800000 + (man - 0x800000)
    }
}

/// The exact binary32 bit pattern of a small nonnegative integer.
pub open spec fn small_int_f32_bits(n: nat) -> int {
    if n == 0 {
        0
    } else {
        norm_f32_bits(n as int, 150)
    }
}

/// Converts an integer below `2^24` to the bit pattern of the binary32 float
/// with exactly that value.
pub fn int_to_f32_bits(n: u32) -> (r: u32)
    requires
        n < 0x1000000,
    ensures
        r == small_int_f32_bits(n as nat),
{
    if n == 0 {
        return 0;
    }
    let mut man: u32 = n;
    let mut dbl: u32 = 0;
    while man < 0x800000
        invariant
            0 < man < 0x1000000,
            dbl <= 24,
            man >= shl1(dbl as nat),
            norm_f32_bits(n as int, 150) == norm_f32_bits(man as int, 150 - dbl),
        decreases 0x1000000 - man,
    {
        proof {
            if dbl >= 24 {
                lemma_shl1_mono(24, dbl as nat);
                reveal_with_fuel(shl1, 25);
                assert(false);
            }
        }
        man = man * 2;
        dbl = dbl + 1;
    }
    proof {
        if dbl >= 24 {
            lemma_shl1_mono(24, dbl as nat);
            reveal_with_fuel(shl1, 25);
            assert(false);
        }
    }
    (150 - dbl) * 0x800000 + (man - 0x800000)
}

/// Whether a number token takes the verified narrowing path: an all-digit
/// token of at most eight digits whose value is below `2^24`.
pub open spec fn is_small_int_token(t: Seq<u8>) -> bool {
    is_digits(t) && t.len() <= 8 && digits_value(t) < 0x1000000
}

/// The binary32 bit pattern denoted by a number token: small integer tokens
/// convert exactly; everything else parses as binary64 and narrows.
pub open spec fn token_f32_bits(t: Seq<u8>) -> int {
    if is_small_int_token(t) {
        small_int_f32_bits(digits_value(t))
    } else {
        f32_of_f64_bits(f64_bits_of(t)) as int
    }
}

/// Converts a JSON number token to the binary32 bit pattern it denotes.
/// Small integer tokens always succeed; other tokens succeed whenever
/// tinyjson accepts them, which it does for every token the document parser
/// yields in practice.
pub fn token_to_f32_bits(token: &[u8]) -> (r: Result<u32, LoadError>)
    ensures
        r is Ok ==> r->Ok_0 == token_f32_bits(token@),
        is_small_int_token(token@) ==> r is Ok,
        r is Err ==> r->Err_0 == LoadError::BadNumber,
{
    if token.len() >= 1 && token.len() <= 8 {
        let mut all_digits = true;
        let mut i: usize = 0;
        while i < token.len()
            invariant
                0 <= i <= token@.len(),
                all_digits <==> forall|j: int| 0 <= j < i ==> is_digit(#[trigger] token@[j]),
            decreases token@.len() - i,
        {
            let b: u8 = token[i];
            if b < 48 || b > 57 {
                all_digits = false;
            }
            i = i + 1;
        }
        if all_digits {
            match parse_digits_u64(token) {
                Ok(value) => {
                    if value < 0x1000000 {
                        return Ok(int_to_f32_bits(value as u32));
                    }
                },
                Err(_) => {},
            }
        }
    }
    if token.len() == 0 {
        return Err(LoadError::BadNumber);
    }
    let first: u8 = token[0];
    if !(48 <= first && first <= 57) && first != 45 {
        return Err(LoadError::BadNumber);
    }
    match json_number_f64_bits(token) {
        Some(bits) => Ok(narrow_f64_bits(bits)),
        None => Err(LoadError::BadNumber),
    }
}

} // verus!
