//! 4x4 transform matrices, stored as the bit patterns of their 16
//! single-precision elements in column-major order.
//!
//! The renderer never computes with the element values itself: composition,
//! determinants and scale/rotation/translation composition are glam's work,
//! reached through trusted wrappers whose results are named functions of the
//! element bits.  Everything else — equality, serialization, the winding
//! decision on a determinant's bit pattern — is verified code.

use vstd::prelude::*;

use crate::commands::Winding;
use crate::numbers::F32_ONE_BITS;

verus! {

/// A 4x4 single-precision matrix as 16 element bit patterns, column-major.
#[derive(Clone, Copy, Debug)]
pub struct Mat {
    pub bits: [u32; 16],
}

impl Mat {
    pub open spec fn view_bits(self) -> Seq<u32> {
        self.bits@
    }

    /// The identity matrix's element bits: 1.0 on the diagonal, 0.0 off it.
    pub open spec fn identity_bits() -> Seq<u32> {
        Seq::new(16, |i: int| if i % 5 == 0 { F32_ONE_BITS } else { 0u32 })
    }

    pub fn identity() -> (r: Mat)
        ensures
            r.view_bits() == Mat::identity_bits(),
    {
        let r = Mat {
            bits: [
                F32_ONE_BITS, 0, 0, 0,
                0, F32_ONE_BITS, 0, 0,
                0, 0, F32_ONE_BITS, 0,
                0, 0, 0, F32_ONE_BITS,
            ],
        };
        proof {
            assert(r.view_bits() =~= Mat::identity_bits());
        }
        r
    }

    pub fn from_bits(bits: [u32; 16]) -> (r: Mat)
        ensures
            r.view_bits() == bits@,
    {
        Mat { bits }
    }

    /// Whether this matrix equals the other, element bit for element bit.
    pub fn bits_eq(&self, other: &Mat) -> (r: bool)
        ensures
            r <==> self.view_bits() == other.view_bits(),
    {
        let mut i: usize = 0;
        while i < 16
            invariant
                0 <= i <= 16,
                forall|j: int| 0 <= j < i ==> self.bits@[j] == other.bits@[j],
            decreases 16 - i,
        {
            if self.bits[i] != other.bits[i] {
                return false;
            }
            i = i + 1;
        }
        proof {
            assert(self.view_bits() =~= other.view_bits());
        }
        true
    }
}

/// The element bits of the product of two matrices, as glam's `Mat4`
/// multiplication yields them.  A function of the element bits alone.
pub uninterp spec fn mat_mul_of(a: Seq<u32>, b: Seq<u32>) -> Seq<u32>;

/// The bit pattern of a matrix's determinant, as glam's
/// `Mat4::determinant` yields it.  A function of the element bits alone.
pub uninterp spec fn mat_det_of(m: Seq<u32>) -> u32;

/// The element bits of the matrix composed as scale, then rotation, then
/// translation, as glam's `Mat4::from_scale_rotation_translation` yields
/// them.  A function of the component bits alone.
pub uninterp spec fn mat_trs_of(scale: Seq<u32>, rotation: Seq<u32>, translation: Seq<u32>) -> Seq<
    u32,
>;

/// Relies on glam's `Mat4` multiplication operator.
#[verifier::external_body]
pub(crate) fn mat_mul(a: &Mat, b: &Mat) -> (r: Mat)
    ensures
        r.view_bits() == mat_mul_of(a.view_bits(), b.view_bits()),
{
    let ma: glam::Mat4 = bytemuck::cast(a.bits);
    let mb: glam::Mat4 = bytemuck::cast(b.bits);
    Mat { bits: bytemuck::cast(ma * mb) }
}

/// Relies on glam's `Mat4::determinant`.
#[verifier::external_body]
pub(crate) fn mat_det_bits(m: &Mat) -> (r: u32)
    ensures
        r == mat_det_of(m.view_bits()),
{
    let mm: glam::Mat4 = bytemuck::cast(m.bits);
    mm.determinant().to_bits()
}

/// Relies on glam's `Mat4::from_scale_rotation_translation`.
#[verifier::external_body]
pub(crate) fn mat_from_trs(scale: &[u32; 3], rotation: &[u32; 4], translation: &[u32; 3]) -> (r: Mat)
    ensures
        r.view_bits() == mat_trs_of(scale@, rotation@, translation@),
{
    let s: glam::Vec3 = bytemuck::cast(*scale);
    let q: glam::Quat = bytemuck::cast(*rotation);
    let t: glam::Vec3 = bytemuck::cast(*translation);
    Mat { bits: bytemuck::cast(glam::Mat4::from_scale_rotation_translation(s, q, t)) }
}

/// Whether a binary32 bit pattern encodes a value strictly greater than
/// zero: positive sign, and neither a zero nor a NaN.  (All exponent bits
/// set with a nonzero mantissa is a NaN; positive infinity compares greater
/// than zero.)
pub open spec fn f32_bits_positive(bits: u32) -> bool {
    1 <= bits <= 0x7F80_0000
}

/// The winding order a traversal submits under a transform: counter-clockwise
/// when the transform's determinant is positive, clockwise otherwise.
pub open spec fn winding_of_det(det_bits: u32) -> Winding {
    if f32_bits_positive(det_bits) {
        Winding::CounterClockwise
    } else {
        Winding::Clockwise
    }
}

/// Decides the winding order from a determinant bit pattern.
pub fn winding_from_det_bits(det_bits: u32) -> (r: Winding)
    ensures
        r == winding_of_det(det_bits),
{
    if 1 <= det_bits && det_bits <= 0x7F80_0000 {
        Winding::CounterClockwise
    } else {
        Winding::Clockwise
    }
}

/// The four little-endian bytes of a 32-bit value.
pub open spec fn u32_le_bytes(x: u32) -> Seq<u8> {
    seq![
        (x % 256) as u8,
        ((x / 256) % 256) as u8,
        ((x / 65536) % 256) as u8,
        ((x / 16777216) % 256) as u8,
    ]
}

/// Appends the four little-endian bytes of a 32-bit value.
pub fn push_u32_le(out: &mut Vec<u8>, x: u32)
    ensures
        final(out)@ == old(out)@ + u32_le_bytes(x),
{
    out.push((x % 256) as u8);
    out.push(((x / 256) % 256) as u8);
    out.push(((x / 65536) % 256) as u8);
    out.push(((x / 16777216) % 256) as u8);
    proof {
        assert(out@ =~= old(out)@ + u32_le_bytes(x));
    }
}

/// The byte image of a matrix: its element bits, each as four little-endian
/// bytes, in column-major element order.
pub open spec fn mat_bytes(bits: Seq<u32>) -> Seq<u8>
    decreases bits.len(),
{
    if bits.len() == 0 {
        Seq::empty()
    } else {
        mat_bytes(bits.drop_last()) + u32_le_bytes(bits.last())
    }
}

/// Appends the 64-byte image of a matrix to a byte vector.
pub fn push_mat_bytes(out: &mut Vec<u8>, m: &Mat)
    ensures
        final(out)@ == old(out)@ + mat_bytes(m.view_bits()),
{
    let mut i: usize = 0;
    while i < 16
        invariant
            0 <= i <= 16,
            out@ == old(out)@ + mat_bytes(m.bits@.subrange(0, i as int)),
        decreases 16 - i,
    {
        let x: u32 = m.bits[i];
        proof {
            assert(m.bits@.subrange(0, i + 1).drop_last() =~= m.bits@.subrange(0, i as int));
        }
        out.push((x % 256) as u8);
        out.push(((x / 256) % 256) as u8);
        out.push(((x / 65536) % 256) as u8);
        out.push(((x / 16777216) % 256) as u8);
        i = i + 1;
        proof {
            assert(out@ =~= old(out)@ + mat_bytes(m.bits@.subrange(0, i as int)));
        }
    }
    proof {
        assert(m.bits@.subrange(0, 16) =~= m.view_bits());
    }
}

} // verus!
