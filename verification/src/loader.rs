//! The scene asset loader: JSON document plus named binary resources in,
//! an immutable [`Gltf`] out.
//!
//! Every step is a potential fatal parse error; the loader returns the
//! error instead of a partial scene.  Helper functions carry the exact
//! contracts the loader's guarantees rest on: integer and number decoding,
//! node transform resolution, accessor unpacking, color-data role
//! assignment, and material factor packing.

use vstd::prelude::*;

use crate::commands::{GlCmd, GlCtx};
use crate::gltf::Gltf;
use crate::json::{spec_get, Json, Jv};
use crate::mat::{mat_from_trs, mat_trs_of, Mat};
use crate::numbers::{
    digits_value, is_digits, is_small_int_token, parse_digits_u64, token_f32_bits,
    token_to_f32_bits, F32_ONE_BITS,
};
use crate::LoadError;

verus! {

/// The integer a JSON value denotes for table indices and sizes: a number
/// whose token is all digits, of a value that fits the machine.
pub open spec fn spec_usize_of(v: Jv) -> Option<int> {
    match v {
        Jv::Num(t) => if is_digits(t) && t.len() <= 19 && digits_value(t) <= usize::MAX {
            Some(digits_value(t) as int)
        } else {
            None
        },
        _ => None,
    }
}

/// Decodes a table index or size.  Succeeds exactly on all-digit number
/// tokens whose value fits the machine.
pub fn take_usize(v: &Json) -> (r: Result<usize, LoadError>)
    ensures
        r is Ok <==> spec_usize_of(v.v()) is Some,
        r is Ok ==> Some(r->Ok_0 as int) == spec_usize_of(v.v()),
        r is Err ==> (r->Err_0 == LoadError::BadNumber || r->Err_0 == LoadError::Structure),
{
    match v {
        Json::Num(token) => {
            match parse_digits_u64(token.as_slice()) {
                Ok(value) => {
                    if value <= usize::MAX as u64 {
                        Ok(value as usize)
                    } else {
                        Err(LoadError::BadNumber)
                    }
                },
                Err(e) => Err(e),
            }
        },
        _ => Err(LoadError::Structure),
    }
}

/// The number token held by a JSON value (empty for other kinds).
pub open spec fn spec_token_of(v: Jv) -> Seq<u8> {
    match v {
        Jv::Num(t) => t,
        _ => Seq::empty(),
    }
}

/// Decodes a number into the bit pattern of its single-precision value.
pub fn take_f32_bits(v: &Json) -> (r: Result<u32, LoadError>)
    ensures
        r is Ok ==> v.v() is Num && r->Ok_0 == token_f32_bits(spec_token_of(v.v())),
        v.v() is Num && is_small_int_token(spec_token_of(v.v())) ==> r is Ok,
        r is Err ==> (r->Err_0 == LoadError::BadNumber || r->Err_0 == LoadError::Structure),
{
    match v {
        Json::Num(token) => token_to_f32_bits(token.as_slice()),
        _ => Err(LoadError::Structure),
    }
}

/// The element bits of a sixteen-number matrix member.
pub open spec fn spec_matrix_bits(vals: Seq<Jv>) -> Seq<u32> {
    Seq::new(16, |i: int| token_f32_bits(spec_token_of(vals[i])) as u32)
}

/// Whether every element is a number with a small all-digit token (the
/// exactly-converted path).
pub open spec fn all_small_int_nums(vals: Seq<Jv>) -> bool {
    forall|i: int|
        0 <= i < vals.len() ==> (#[trigger] vals[i]) is Num && is_small_int_token(
            spec_token_of(vals[i]),
        )
}

/// The component bits of a fixed-arity number array member, with a default
/// when the member is absent.
pub open spec fn spec_components_bits(v: Jv, key: Seq<u8>, arity: int, dflt: Seq<u32>) -> Seq<
    u32,
> {
    match spec_get(v, key) {
        Some(Jv::Arr(vals)) => Seq::new(
            arity as nat,
            |i: int| token_f32_bits(spec_token_of(vals[i])) as u32,
        ),
        _ => dflt,
    }
}

pub open spec fn key_matrix() -> Seq<u8> {
    seq![109u8, 97u8, 116u8, 114u8, 105u8, 120u8]
}

pub open spec fn key_translation() -> Seq<u8> {
    seq![116u8, 114u8, 97u8, 110u8, 115u8, 108u8, 97u8, 116u8, 105u8, 111u8, 110u8]
}

pub open spec fn key_rotation() -> Seq<u8> {
    seq![114u8, 111u8, 116u8, 97u8, 116u8, 105u8, 111u8, 110u8]
}

pub open spec fn key_scale() -> Seq<u8> {
    seq![115u8, 99u8, 97u8, 108u8, 101u8]
}

/// Zero bits for a translation, identity quaternion bits, unit scale bits.
pub open spec fn default_translation_bits() -> Seq<u32> {
    seq![0u32, 0u32, 0u32]
}

pub open spec fn default_rotation_bits() -> Seq<u32> {
    seq![0u32, 0u32, 0u32, F32_ONE_BITS]
}

pub open spec fn default_scale_bits() -> Seq<u32> {
    seq![F32_ONE_BITS, F32_ONE_BITS, F32_ONE_BITS]
}

/// Reads a fixed-arity array of numbers into element bits.
fn take_number_array(v: &Json, arity: usize) -> (r: Result<Vec<u32>, LoadError>)
    ensures
        r is Ok ==> (v.v() matches Jv::Arr(vals) && vals.len() == arity && r->Ok_0@.len()
            == arity && forall|i: int|
            0 <= i < arity ==> r->Ok_0@[i] == token_f32_bits(spec_token_of(vals[i])) as u32),
        (v.v() matches Jv::Arr(vals) && vals.len() == arity && all_small_int_nums(vals)) ==> r
            is Ok,
        r is Err ==> (r->Err_0 == LoadError::BadNumber || r->Err_0 == LoadError::Structure),
{
    match v {
        Json::Arr(items) => {
            proof {
                crate::json::lemma_jv_seq(items@);
            }
            if items.len() != arity {
                return Err(LoadError::Structure);
            }
            let mut bits: Vec<u32> = Vec::new();
            let mut i: usize = 0;
            while i < arity
                invariant
                    0 <= i <= arity,
                    arity == items@.len(),
                    bits@.len() == i,
                    v.v() matches Jv::Arr(vals) && vals.len() == arity && vals
                        == crate::json::jv_seq(items@),
                    forall|k: int|
                        0 <= k < items@.len() ==> crate::json::jv_seq(items@)[k] == (
                        #[trigger] items@[k]).v(),
                    forall|k: int|
                        0 <= k < i ==> bits@[k] == token_f32_bits(
                            spec_token_of(crate::json::jv_seq(items@)[k]),
                        ) as u32,
                decreases arity - i,
            {
                match take_f32_bits(&items[i]) {
                    Ok(b) => {
                        bits.push(b);
                    },
                    Err(e) => {
                        return Err(e);
                    },
                }
                i = i + 1;
            }
            Ok(bits)
        },
        _ => Err(LoadError::Structure),
    }
}

/// A node's local transform.  An explicit sixteen-element column-major
/// matrix member is taken verbatim; otherwise the transform composes scale,
/// rotation and translation, each independently optional; with none of the
/// four members present the transform is the identity.
pub fn node_transform(node: &Json) -> (r: Result<Mat, LoadError>)
    ensures
        spec_get(node.v(), key_matrix()) matches Some(m) ==> (m matches Jv::Arr(vals) ==> (
        vals.len() == 16 && r is Ok ==> r->Ok_0.view_bits() == spec_matrix_bits(vals))),
        spec_get(node.v(), key_matrix()) matches Some(m) ==> (m matches Jv::Arr(vals) ==> (
        vals.len() == 16 && all_small_int_nums(vals) ==> r is Ok)),
        (spec_get(node.v(), key_matrix()) is None && spec_get(node.v(), key_translation())
            is None && spec_get(node.v(), key_rotation()) is None && spec_get(
            node.v(),
            key_scale(),
        ) is None) ==> (r is Ok && r->Ok_0.view_bits() == Mat::identity_bits()),
        (spec_get(node.v(), key_matrix()) is None && r is Ok && !(spec_get(
            node.v(),
            key_translation(),
        ) is None && spec_get(node.v(), key_rotation()) is None && spec_get(
            node.v(),
            key_scale(),
        ) is None)) ==> r->Ok_0.view_bits() == mat_trs_of(
            spec_components_bits(node.v(), key_scale(), 3, default_scale_bits()),
            spec_components_bits(node.v(), key_rotation(), 4, default_rotation_bits()),
            spec_components_bits(node.v(), key_translation(), 3, default_translation_bits()),
        ),
        r is Err ==> (r->Err_0 == LoadError::BadNumber || r->Err_0 == LoadError::Structure),
{
    let key_m: [u8; 6] = [109, 97, 116, 114, 105, 120];
    let matrix_member = node.get(vstd::array::array_as_slice(&key_m));
    match matrix_member {
        Some(m) => {
            proof {
                assert(key_m@ =~= key_matrix());
            }
            let bits = match take_number_array(m, 16) {
                Ok(b) => b,
                Err(e) => {
                    return Err(e);
                },
            };
            let arr: [u32; 16] = [
                bits[0], bits[1], bits[2], bits[3], bits[4], bits[5], bits[6], bits[7], bits[8],
                bits[9], bits[10], bits[11], bits[12], bits[13], bits[14], bits[15],
            ];
            let r = Mat::from_bits(arr);
            proof {
                match m.v() {
                    Jv::Arr(vals) => {
                        if vals.len() == 16 {
                            assert(r.view_bits() =~= spec_matrix_bits(vals));
                        }
                    },
                    _ => {},
                }
            }
            Ok(r)
        },
        None => {
            let key_t: [u8; 11] = [116, 114, 97, 110, 115, 108, 97, 116, 105, 111, 110];
            let key_r: [u8; 8] = [114, 111, 116, 97, 116, 105, 111, 110];
            let key_s: [u8; 5] = [115, 99, 97, 108, 101];
            proof {
                assert(key_m@ =~= key_matrix());
                assert(key_t@ =~= key_translation());
                assert(key_r@ =~= key_rotation());
                assert(key_s@ =~= key_scale());
            }
            let translation_member = node.get(vstd::array::array_as_slice(&key_t));
            let rotation_member = node.get(vstd::array::array_as_slice(&key_r));
            let scale_member = node.get(vstd::array::array_as_slice(&key_s));
            if translation_member.is_none() && rotation_member.is_none()
                && scale_member.is_none() {
                return Ok(Mat::identity());
            }
            let translation: [u32; 3] = match translation_member {
                Some(t) => {
                    let bits = match take_number_array(t, 3) {
                        Ok(b) => b,
                        Err(e) => {
                            return Err(e);
                        },
                    };
                    [bits[0], bits[1], bits[2]]
                },
                None => [0, 0, 0],
            };
            let rotation: [u32; 4] = match rotation_member {
                Some(q) => {
                    let bits = match take_number_array(q, 4) {
                        Ok(b) => b,
                        Err(e) => {
                            return Err(e);
                        },
                    };
                    [bits[0], bits[1], bits[2], bits[3]]
                },
                None => [0, 0, 0, F32_ONE_BITS],
            };
            let scale: [u32; 3] = match scale_member {
                Some(sc) => {
                    let bits = match take_number_array(sc, 3) {
                        Ok(b) => b,
                        Err(e) => {
                            return Err(e);
                        },
                    };
                    [bits[0], bits[1], bits[2]]
                },
                None => [F32_ONE_BITS, F32_ONE_BITS, F32_ONE_BITS],
            };
            proof {
                assert(scale@ =~= spec_components_bits(
                    node.v(),
                    key_scale(),
                    3,
                    default_scale_bits(),
                ));
                assert(rotation@ =~= spec_components_bits(
                    node.v(),
                    key_rotation(),
                    4,
                    default_rotation_bits(),
                ));
                assert(translation@ =~= spec_components_bits(
                    node.v(),
                    key_translation(),
                    3,
                    default_translation_bits(),
                ));
            }
            Ok(mat_from_trs(&scale, &rotation, &translation))
        },
    }
}


/// Transform composition: a node whose `matrix` member spells out the
/// identity (ones on the diagonal, zeros elsewhere, as integer tokens)
/// resolves to exactly the identity element bits — the same local
/// transform as a node with no transform members at all (see
/// [`node_transform`]'s contract for the latter).
pub proof fn lemma_identity_matrix_node(vals: Seq<Jv>)
    requires
        vals.len() == 16,
        forall|i: int|
            0 <= i < 16 ==> (#[trigger] vals[i]) == Jv::Num(
                if i % 5 == 0 {
                    seq![49u8]
                } else {
                    seq![48u8]
                },
            ),
    ensures
        spec_matrix_bits(vals) == Mat::identity_bits(),
{
    assert(digits_value(Seq::<u8>::empty()) == 0);
    assert(seq![49u8].drop_last() =~= Seq::<u8>::empty());
    assert(seq![48u8].drop_last() =~= Seq::<u8>::empty());
    assert(digits_value(seq![49u8]) == 1);
    assert(digits_value(seq![48u8]) == 0);
    assert(is_small_int_token(seq![49u8]));
    assert(is_small_int_token(seq![48u8]));
    assert(crate::numbers::small_int_f32_bits(1) == F32_ONE_BITS as int) by {
        reveal_with_fuel(crate::numbers::norm_f32_bits, 30);
    }
    assert(crate::numbers::small_int_f32_bits(0) == 0);
    assert(token_f32_bits(seq![49u8]) == F32_ONE_BITS as int);
    assert(token_f32_bits(seq![48u8]) == 0);
    assert forall|i: int| 0 <= i < 16 implies spec_matrix_bits(vals)[i] == Mat::identity_bits()[
        i
    ] by {
        if i % 5 == 0 {
            assert(spec_token_of(vals[i]) == seq![49u8]);
        } else {
            assert(spec_token_of(vals[i]) == seq![48u8]);
        }
    }
    assert(spec_matrix_bits(vals) =~= Mat::identity_bits());
}


/// Marks an image as color data (`expected` true) or linear data; one
/// image claimed in both roles is a fatal conflict, since the two need
/// different internal texture formats.
pub fn set_srgb_status(is_srgb: &mut Vec<Option<bool>>, index: usize, expected: bool) -> (r:
    Result<(), LoadError>)
    ensures
        r is Ok <==> (index < old(is_srgb)@.len() && old(is_srgb)@[index as int] != Some(
            !expected,
        )),
        r is Ok ==> final(is_srgb)@ == old(is_srgb)@.update(index as int, Some(expected)),
        r is Err ==> final(is_srgb)@ == old(is_srgb)@,
        r is Err && index < old(is_srgb)@.len() ==> r->Err_0 == LoadError::SrgbConflict,
        r is Err && index >= old(is_srgb)@.len() ==> r->Err_0 == LoadError::IndexOutOfBounds,
{
    if index >= is_srgb.len() {
        return Err(LoadError::IndexOutOfBounds);
    }
    let current: Option<bool> = is_srgb[index];
    match current {
        Some(claimed) => {
            if claimed != expected {
                return Err(LoadError::SrgbConflict);
            }
        },
        None => {},
    }
    let ghost before = is_srgb@;
    proof {
        vstd::seq_lib::lemma_update_is_remove_insert(before, index as int, Some(expected));
    }
    let _ = is_srgb.remove(index);
    is_srgb.insert(index, Some(expected));
    proof {
        assert(is_srgb@ =~= before.update(index as int, Some(expected)));
    }
    Ok(())
}

/// The material factor block, each element as its single-precision bit
/// pattern: the base color, the four scalar factors, the emissive color.
pub struct UniformBlockMaterial {
    pub base_color_factor: [u32; 4],
    pub metallic_factor: u32,
    pub roughness_factor: u32,
    pub normal_scale: u32,
    pub occlusion_strength: u32,
    pub emissive_factor: [u32; 4],
}

/// The 48-byte packed image of a material factor block, little-endian
/// words in declaration order.
pub open spec fn material_block_bytes(m: UniformBlockMaterial) -> Seq<u8> {
    crate::mat::u32_le_bytes(m.base_color_factor@[0]) + crate::mat::u32_le_bytes(
        m.base_color_factor@[1],
    ) + crate::mat::u32_le_bytes(m.base_color_factor@[2]) + crate::mat::u32_le_bytes(
        m.base_color_factor@[3],
    ) + crate::mat::u32_le_bytes(m.metallic_factor) + crate::mat::u32_le_bytes(m.roughness_factor)
        + crate::mat::u32_le_bytes(m.normal_scale) + crate::mat::u32_le_bytes(
        m.occlusion_strength,
    ) + crate::mat::u32_le_bytes(m.emissive_factor@[0]) + crate::mat::u32_le_bytes(
        m.emissive_factor@[1],
    ) + crate::mat::u32_le_bytes(m.emissive_factor@[2]) + crate::mat::u32_le_bytes(
        m.emissive_factor@[3],
    )
}

/// Packs a material factor block for upload.
pub fn pack_material(m: &UniformBlockMaterial) -> (r: Vec<u8>)
    ensures
        r@ == material_block_bytes(*m),
        r@.len() == 48,
{
    let mut out: Vec<u8> = Vec::new();
    crate::mat::push_u32_le(&mut out, m.base_color_factor[0]);
    crate::mat::push_u32_le(&mut out, m.base_color_factor[1]);
    crate::mat::push_u32_le(&mut out, m.base_color_factor[2]);
    crate::mat::push_u32_le(&mut out, m.base_color_factor[3]);
    crate::mat::push_u32_le(&mut out, m.metallic_factor);
    crate::mat::push_u32_le(&mut out, m.roughness_factor);
    crate::mat::push_u32_le(&mut out, m.normal_scale);
    crate::mat::push_u32_le(&mut out, m.occlusion_strength);
    crate::mat::push_u32_le(&mut out, m.emissive_factor[0]);
    crate::mat::push_u32_le(&mut out, m.emissive_factor[1]);
    crate::mat::push_u32_le(&mut out, m.emissive_factor[2]);
    crate::mat::push_u32_le(&mut out, m.emissive_factor[3]);
    proof {
        assert(out@ =~= material_block_bytes(*m));
    }
    out
}

/// The attribute-slot default marker of a primitive: when no `COLOR_0`
/// attribute is bound, the color attribute's location is recorded so the
/// batcher can set its constant value to opaque white (1, 1, 1, 1) at draw
/// time; with a bound `COLOR_0` no default-color override applies.
pub fn primitive_color_flag(attributes: &Json) -> (r: Option<u32>)
    ensures
        spec_get(attributes.v(), key_color0()) is Some ==> r is None,
        spec_get(attributes.v(), key_color0()) is None ==> r == Some(
            crate::gltf::ATTR_LOC_COLOR_0,
        ),
{
    let key: [u8; 7] = [67, 79, 76, 79, 82, 95, 48];
    proof {
        assert(key@ =~= key_color0());
    }
    match attributes.get(vstd::array::array_as_slice(&key)) {
        Some(_) => None,
        None => Some(crate::gltf::ATTR_LOC_COLOR_0),
    }
}

pub open spec fn key_color0() -> Seq<u8> {
    seq![67u8, 79u8, 76u8, 79u8, 82u8, 95u8, 48u8]
}


pub open spec fn key_scenes() -> Seq<u8> {
    seq![115u8, 99u8, 101u8, 110u8, 101u8, 115u8]
}

pub open spec fn key_scene() -> Seq<u8> {
    seq![115u8, 99u8, 101u8, 110u8, 101u8]
}

pub open spec fn key_nodes() -> Seq<u8> {
    seq![110u8, 111u8, 100u8, 101u8, 115u8]
}

pub open spec fn key_meshes() -> Seq<u8> {
    seq![109u8, 101u8, 115u8, 104u8, 101u8, 115u8]
}

pub open spec fn key_materials() -> Seq<u8> {
    seq![109u8, 97u8, 116u8, 101u8, 114u8, 105u8, 97u8, 108u8, 115u8]
}

/// The number of elements of an array member (meaningless otherwise).
pub open spec fn spec_member_len(v: Jv, key: Seq<u8>) -> Option<int> {
    match spec_get(v, key) {
        Some(Jv::Arr(items)) => Some(items.len() as int),
        _ => None,
    }
}

pub open spec fn key_buffer_view() -> Seq<u8> {
    seq![98u8, 117u8, 102u8, 102u8, 101u8, 114u8, 86u8, 105u8, 101u8, 119u8]
}

pub open spec fn key_byte_offset() -> Seq<u8> {
    seq![98u8, 121u8, 116u8, 101u8, 79u8, 102u8, 102u8, 115u8, 101u8, 116u8]
}

pub open spec fn key_byte_stride() -> Seq<u8> {
    seq![98u8, 121u8, 116u8, 101u8, 83u8, 116u8, 114u8, 105u8, 100u8, 101u8]
}

pub open spec fn key_buffer() -> Seq<u8> {
    seq![98u8, 117u8, 102u8, 102u8, 101u8, 114u8]
}

pub open spec fn key_count() -> Seq<u8> {
    seq![99u8, 111u8, 117u8, 110u8, 116u8]
}

pub open spec fn key_type() -> Seq<u8> {
    seq![116u8, 121u8, 112u8, 101u8]
}

pub open spec fn key_component_type() -> Seq<u8> {
    seq![99u8, 111u8, 109u8, 112u8, 111u8, 110u8, 101u8, 110u8, 116u8, 84u8, 121u8, 112u8,
        101u8]
}

pub open spec fn key_normalized() -> Seq<u8> {
    seq![110u8, 111u8, 114u8, 109u8, 97u8, 108u8, 105u8, 122u8, 101u8, 100u8]
}

/// An optional integer member with a default.
pub open spec fn spec_opt_usize(v: Jv, key: Seq<u8>, dflt: int) -> Option<int> {
    match spec_get(v, key) {
        Some(x) => spec_usize_of(x),
        None => Some(dflt),
    }
}

/// The component count of an accessor `type` name.
pub open spec fn spec_type_size(t: Jv) -> Option<u32> {
    match t {
        Jv::Str(name) => if name == seq![83u8, 67u8, 65u8, 76u8, 65u8, 82u8] {
            Some(1u32)
        } else if name == seq![86u8, 69u8, 67u8, 50u8] {
            Some(2u32)
        } else if name == seq![86u8, 69u8, 67u8, 51u8] {
            Some(3u32)
        } else if name == seq![86u8, 69u8, 67u8, 52u8] {
            Some(4u32)
        } else {
            None
        },
        _ => None,
    }
}

/// A resolved accessor: where its data lives and how to read it.
#[derive(Clone, Copy, PartialEq, Eq, Structural, Debug)]
pub struct AccessorInfo {
    pub buffer: usize,
    pub byte_offset: usize,
    pub count: usize,
    pub size: u32,
    pub component_type: u32,
    pub normalized: bool,
}

/// What resolving an accessor yields: the owning buffer, the accessor's
/// and its buffer view's byte offsets composed, the element count, the
/// component count, the component type, and the normalized flag.
/// Interleaved data (a view with a `byteStride`) is unsupported.
pub open spec fn spec_accessor(accessors: Seq<Jv>, views: Seq<Jv>, idx: int) -> Option<
    AccessorInfo,
> {
    if !(0 <= idx < accessors.len()) {
        None
    } else {
        let acc = accessors[idx];
        match spec_get(acc, key_buffer_view()) {
            None => None,
            Some(bvv) => match spec_usize_of(bvv) {
                None => None,
                Some(vi) => if !(0 <= vi < views.len()) {
                    None
                } else {
                    let view = views[vi];
                    if spec_get(view, key_byte_stride()) is Some {
                        None
                    } else {
                        match spec_get(view, key_buffer()) {
                            None => None,
                            Some(bufv) => match spec_usize_of(bufv) {
                                None => None,
                                Some(buffer) => match (
                                    spec_opt_usize(acc, key_byte_offset(), 0),
                                    spec_opt_usize(view, key_byte_offset(), 0),
                                ) {
                                    (Some(ao), Some(vo)) => if ao + vo > usize::MAX {
                                        None
                                    } else {
                                        match spec_get(acc, key_count()) {
                                            None => None,
                                            Some(cv) => match spec_usize_of(cv) {
                                                None => None,
                                                Some(count) => match spec_get(acc, key_type()) {
                                                    None => None,
                                                    Some(tv) => match spec_type_size(tv) {
                                                        None => None,
                                                        Some(size) => match spec_get(
                                                            acc,
                                                            key_component_type(),
                                                        ) {
                                                            None => None,
                                                            Some(ctv) => match spec_usize_of(
                                                                ctv,
                                                            ) {
                                                                None => None,
                                                                Some(ct) => if ct > u32::MAX {
                                                                    None
                                                                } else {
                                                                    match spec_get(
                                                                        acc,
                                                                        key_normalized(),
                                                                    ) {
                                                                        None => Some(
                                                                            AccessorInfo {
                                                                                buffer: buffer as usize,
                                                                                byte_offset: (ao
                                                                                    + vo) as usize,
                                                                                count: count as usize,
                                                                                size,
                                                                                component_type: ct as u32,
                                                                                normalized: false,
                                                                            },
                                                                        ),
                                                                        Some(Jv::Bool(b)) => Some(
                                                                            AccessorInfo {
                                                                                buffer: buffer as usize,
                                                                                byte_offset: (ao
                                                                                    + vo) as usize,
                                                                                count: count as usize,
                                                                                size,
                                                                                component_type: ct as u32,
                                                                                normalized: b,
                                                                            },
                                                                        ),
                                                                        Some(_) => None,
                                                                    }
                                                                },
                                                            },
                                                        },
                                                    },
                                                },
                                            },
                                        }
                                    },
                                    _ => None,
                                },
                            },
                        }
                    }
                },
            },
        }
    }
}

/// Resolves one accessor through its buffer view.
#[verifier::rlimit(100)]
pub fn unpack_accessor(accessors: &Vec<Json>, buffer_views: &Vec<Json>, accessor: usize) -> (r:
    Result<AccessorInfo, LoadError>)
    ensures
        r is Ok <==> spec_accessor(
            crate::json::jv_seq(accessors@),
            crate::json::jv_seq(buffer_views@),
            accessor as int,
        ) is Some,
        r is Ok ==> Some(r->Ok_0) == spec_accessor(
            crate::json::jv_seq(accessors@),
            crate::json::jv_seq(buffer_views@),
            accessor as int,
        ),
        r is Err ==> (r->Err_0 == LoadError::Structure || r->Err_0 == LoadError::BadNumber
            || r->Err_0 == LoadError::IndexOutOfBounds || r->Err_0
            == LoadError::InterleavedStride || r->Err_0 == LoadError::UnsupportedAccessorType),
{
    proof {
        crate::json::lemma_jv_seq(accessors@);
        crate::json::lemma_jv_seq(buffer_views@);
    }
    if accessor >= accessors.len() {
        return Err(LoadError::IndexOutOfBounds);
    }
    let acc: &Json = &accessors[accessor];
    let key_bv: [u8; 10] = [98, 117, 102, 102, 101, 114, 86, 105, 101, 119];
    let key_bo: [u8; 10] = [98, 121, 116, 101, 79, 102, 102, 115, 101, 116];
    let key_bs: [u8; 10] = [98, 121, 116, 101, 83, 116, 114, 105, 100, 101];
    let key_buf: [u8; 6] = [98, 117, 102, 102, 101, 114];
    let key_cnt: [u8; 5] = [99, 111, 117, 110, 116];
    let key_ty: [u8; 4] = [116, 121, 112, 101];
    let key_ct: [u8; 13] = [99, 111, 109, 112, 111, 110, 101, 110, 116, 84, 121, 112, 101];
    let key_norm: [u8; 10] = [110, 111, 114, 109, 97, 108, 105, 122, 101, 100];
    proof {
        assert(key_bv@ =~= key_buffer_view());
        assert(key_bo@ =~= key_byte_offset());
        assert(key_bs@ =~= key_byte_stride());
        assert(key_buf@ =~= key_buffer());
        assert(key_cnt@ =~= key_count());
        assert(key_ty@ =~= key_type());
        assert(key_ct@ =~= key_component_type());
        assert(key_norm@ =~= key_normalized());
    }
    let bvv: &Json = match acc.get(vstd::array::array_as_slice(&key_bv)) {
        Some(x) => x,
        None => {
            return Err(LoadError::Structure);
        },
    };
    let view_index: usize = match take_usize(bvv) {
        Ok(v) => v,
        Err(e) => {
            return Err(e);
        },
    };
    if view_index >= buffer_views.len() {
        return Err(LoadError::IndexOutOfBounds);
    }
    let view: &Json = &buffer_views[view_index];
    if view.get(vstd::array::array_as_slice(&key_bs)).is_some() {
        return Err(LoadError::InterleavedStride);
    }
    let bufv: &Json = match view.get(vstd::array::array_as_slice(&key_buf)) {
        Some(x) => x,
        None => {
            return Err(LoadError::Structure);
        },
    };
    let buffer: usize = match take_usize(bufv) {
        Ok(v) => v,
        Err(e) => {
            return Err(e);
        },
    };
    let accessor_offset: usize = match acc.get(vstd::array::array_as_slice(&key_bo)) {
        Some(x) => match take_usize(x) {
            Ok(v) => v,
            Err(e) => {
                return Err(e);
            },
        },
        None => 0,
    };
    let view_offset: usize = match view.get(vstd::array::array_as_slice(&key_bo)) {
        Some(x) => match take_usize(x) {
            Ok(v) => v,
            Err(e) => {
                return Err(e);
            },
        },
        None => 0,
    };
    if accessor_offset > usize::MAX - view_offset {
        return Err(LoadError::BadNumber);
    }
    let byte_offset: usize = accessor_offset + view_offset;
    let count: usize = match acc.get(vstd::array::array_as_slice(&key_cnt)) {
        Some(x) => match take_usize(x) {
            Ok(v) => v,
            Err(e) => {
                return Err(e);
            },
        },
        None => {
            return Err(LoadError::Structure);
        },
    };
    let size: u32 = match acc.get(vstd::array::array_as_slice(&key_ty)) {
        Some(x) => match type_size(x) {
            Ok(v) => v,
            Err(e) => {
                return Err(e);
            },
        },
        None => {
            return Err(LoadError::Structure);
        },
    };
    let component_type: u32 = match acc.get(vstd::array::array_as_slice(&key_ct)) {
        Some(x) => {
            let v: usize = match take_usize(x) {
                Ok(v) => v,
                Err(e) => {
                    return Err(e);
                },
            };
            if v > u32::MAX as usize {
                return Err(LoadError::BadNumber);
            }
            v as u32
        },
        None => {
            return Err(LoadError::Structure);
        },
    };
    let normalized: bool = match acc.get(vstd::array::array_as_slice(&key_norm)) {
        Some(x) => match x {
            Json::Bool(b) => *b,
            _ => {
                return Err(LoadError::Structure);
            },
        },
        None => false,
    };
    Ok(AccessorInfo { buffer, byte_offset, count, size, component_type, normalized })
}

/// The component count of an accessor `type` member.
fn type_size(v: &Json) -> (r: Result<u32, LoadError>)
    ensures
        r is Ok <==> spec_type_size(v.v()) is Some,
        r is Ok ==> Some(r->Ok_0) == spec_type_size(v.v()),
        r is Err ==> (r->Err_0 == LoadError::UnsupportedAccessorType || r->Err_0
            == LoadError::Structure),
{
    let scalar: [u8; 6] = [83, 67, 65, 76, 65, 82];
    let vec2: [u8; 4] = [86, 69, 67, 50];
    let vec3: [u8; 4] = [86, 69, 67, 51];
    let vec4: [u8; 4] = [86, 69, 67, 52];
    match v {
        Json::Str(name) => {
            if crate::json::bytes_eq_pub(name, vstd::array::array_as_slice(&scalar)) {
                Ok(1)
            } else if crate::json::bytes_eq_pub(name, vstd::array::array_as_slice(&vec2)) {
                Ok(2)
            } else if crate::json::bytes_eq_pub(name, vstd::array::array_as_slice(&vec3)) {
                Ok(3)
            } else if crate::json::bytes_eq_pub(name, vstd::array::array_as_slice(&vec4)) {
                Ok(4)
            } else {
                Err(LoadError::UnsupportedAccessorType)
            }
        },
        _ => Err(LoadError::Structure),
    }
}


/// Whether every index in the list is below the bound.
fn check_indices(v: &Vec<usize>, bound: usize) -> (r: bool)
    ensures
        r <==> forall|k: int| 0 <= k < v@.len() ==> (#[trigger] v@[k]) < bound,
{
    let mut i: usize = 0;
    while i < v.len()
        invariant
            0 <= i <= v@.len(),
            forall|k: int| 0 <= k < i ==> (#[trigger] v@[k]) < bound,
        decreases v@.len() - i,
    {
        if v[i] >= bound {
            return false;
        }
        i = i + 1;
    }
    true
}

/// Whether every listed child sits exactly one level below the parent.
fn check_child_levels(children: &Vec<usize>, levels: &Vec<usize>, parent_level: usize) -> (r:
    bool)
    requires
        forall|k: int| 0 <= k < children@.len() ==> (#[trigger] children@[k]) < levels@.len(),
    ensures
        r <==> forall|k: int|
            0 <= k < children@.len() ==> levels@[(#[trigger] children@[k]) as int]
                == parent_level + 1,
{
    let mut i: usize = 0;
    while i < children.len()
        invariant
            0 <= i <= children@.len(),
            forall|k: int| 0 <= k < children@.len() ==> (#[trigger] children@[k]) < levels@.len(),
            forall|k: int|
                0 <= k < i ==> levels@[(#[trigger] children@[k]) as int] == parent_level + 1,
        decreases children@.len() - i,
    {
        let c: usize = children[i];
        if parent_level >= usize::MAX || levels[c] != parent_level + 1 {
            return false;
        }
        i = i + 1;
    }
    true
}

/// Checks every index-validity and forest condition the traversal relies
/// on: it accepts exactly the well-formed assets.
pub fn validate_gltf(g: &Gltf) -> (r: Result<(), LoadError>)
    ensures
        r is Ok <==> g.wf(),
        r is Err ==> (r->Err_0 == LoadError::IndexOutOfBounds || r->Err_0
            == LoadError::NotATree),
{
    if g.scene >= g.scenes.len() {
        return Err(LoadError::IndexOutOfBounds);
    }
    let node_count: usize = g.nodes.len();
    let mut i: usize = 0;
    while i < g.scenes.len()
        invariant
            0 <= i <= g.scenes@.len(),
            node_count == g.nodes@.len(),
            forall|s: int, k: int|
                0 <= s < i && 0 <= k < (#[trigger] g.scenes@[s]).node_indices@.len() ==> (
                #[trigger] g.scenes@[s].node_indices@[k]) < g.nodes@.len(),
        decreases g.scenes@.len() - i,
    {
        if !check_indices(&g.scenes[i].node_indices, node_count) {
            return Err(LoadError::IndexOutOfBounds);
        }
        i = i + 1;
    }
    if g.node_levels.len() != node_count {
        return Err(LoadError::NotATree);
    }
    let mut n: usize = 0;
    while n < g.nodes.len()
        invariant
            0 <= n <= g.nodes@.len(),
            node_count == g.nodes@.len(),
            g.node_levels@.len() == g.nodes@.len(),
            forall|m: int, k: int|
                0 <= m < n && 0 <= k < (#[trigger] g.nodes@[m]).child_node_indices@.len() ==> (
                #[trigger] g.nodes@[m].child_node_indices@[k]) < g.nodes@.len(),
            forall|m: int|
                0 <= m < n && (#[trigger] g.nodes@[m]).mesh_index is Some ==> g.nodes@[
                    m
                ].mesh_index->0 < g.meshes@.len(),
            forall|m: int, k: int|
                0 <= m < n && 0 <= k < (#[trigger] g.nodes@[m]).child_node_indices@.len()
                    ==> g.node_levels@[(#[trigger] g.nodes@[m].child_node_indices@[k]) as int]
                    == g.node_levels@[m] + 1,
            forall|m: int| 0 <= m < n ==> (#[trigger] g.node_levels@[m]) < g.nodes@.len(),
        decreases g.nodes@.len() - n,
    {
        if !check_indices(&g.nodes[n].child_node_indices, node_count) {
            return Err(LoadError::IndexOutOfBounds);
        }
        match g.nodes[n].mesh_index {
            Some(m) => {
                if m >= g.meshes.len() {
                    return Err(LoadError::IndexOutOfBounds);
                }
            },
            None => {},
        }
        if g.node_levels[n] >= node_count {
            return Err(LoadError::NotATree);
        }
        if !check_child_levels(&g.nodes[n].child_node_indices, &g.node_levels, g.node_levels[n])
        {
            return Err(LoadError::NotATree);
        }
        n = n + 1;
    }
    let mut m: usize = 0;
    while m < g.meshes.len()
        invariant
            0 <= m <= g.meshes@.len(),
            forall|s: int, k: int|
                0 <= s < m && 0 <= k < (#[trigger] g.meshes@[s]).primitive_indices@.len() ==> (
                #[trigger] g.meshes@[s].primitive_indices@[k]) < g.primitives@.len(),
        decreases g.meshes@.len() - m,
    {
        if !check_indices(&g.meshes[m].primitive_indices, g.primitives.len()) {
            return Err(LoadError::IndexOutOfBounds);
        }
        m = m + 1;
    }
    let mut p: usize = 0;
    while p < g.primitives.len()
        invariant
            0 <= p <= g.primitives@.len(),
            forall|k: int|
                0 <= k < p ==> (#[trigger] g.primitives@[k]).material_index < g.materials@.len(),
        decreases g.primitives@.len() - p,
    {
        if g.primitives[p].material_index >= g.materials.len() {
            return Err(LoadError::IndexOutOfBounds);
        }
        p = p + 1;
    }
    Ok(())
}


pub open spec fn key_children() -> Seq<u8> {
    seq![99u8, 104u8, 105u8, 108u8, 100u8, 114u8, 101u8, 110u8]
}

pub open spec fn key_mesh() -> Seq<u8> {
    seq![109u8, 101u8, 115u8, 104u8]
}

pub open spec fn key_buffers() -> Seq<u8> {
    seq![98u8, 117u8, 102u8, 102u8, 101u8, 114u8, 115u8]
}

pub open spec fn key_uri() -> Seq<u8> {
    seq![117u8, 114u8, 105u8]
}

pub open spec fn key_byte_length() -> Seq<u8> {
    seq![98u8, 121u8, 116u8, 101u8, 76u8, 101u8, 110u8, 103u8, 116u8, 104u8]
}

pub open spec fn key_accessors() -> Seq<u8> {
    seq![97u8, 99u8, 99u8, 101u8, 115u8, 115u8, 111u8, 114u8, 115u8]
}

pub open spec fn key_buffer_views() -> Seq<u8> {
    seq![98u8, 117u8, 102u8, 102u8, 101u8, 114u8, 86u8, 105u8, 101u8, 119u8, 115u8]
}

pub open spec fn key_primitives() -> Seq<u8> {
    seq![112u8, 114u8, 105u8, 109u8, 105u8, 116u8, 105u8, 118u8, 101u8, 115u8]
}

pub open spec fn key_material() -> Seq<u8> {
    seq![109u8, 97u8, 116u8, 101u8, 114u8, 105u8, 97u8, 108u8]
}

pub open spec fn key_mode() -> Seq<u8> {
    seq![109u8, 111u8, 100u8, 101u8]
}

pub open spec fn key_attributes() -> Seq<u8> {
    seq![97u8, 116u8, 116u8, 114u8, 105u8, 98u8, 117u8, 116u8, 101u8, 115u8]
}

pub open spec fn key_indices() -> Seq<u8> {
    seq![105u8, 110u8, 100u8, 105u8, 99u8, 101u8, 115u8]
}

/// How a loaded node's local transform relates to its document object:
/// exactly the guarantees of [`node_transform`], as one predicate.
pub open spec fn node_transform_matches(nv: Jv, bits: Seq<u32>) -> bool {
    &&& (spec_get(nv, key_matrix()) matches Some(m) ==> (m matches Jv::Arr(vals) ==> (
    vals.len() == 16 ==> bits == spec_matrix_bits(vals))))
    &&& (spec_get(nv, key_matrix()) is None && spec_get(nv, key_translation()) is None
        && spec_get(nv, key_rotation()) is None && spec_get(nv, key_scale()) is None ==> bits
        == Mat::identity_bits())
    &&& (spec_get(nv, key_matrix()) is None && !(spec_get(nv, key_translation()) is None
        && spec_get(nv, key_rotation()) is None && spec_get(nv, key_scale()) is None) ==> bits
        == mat_trs_of(
        spec_components_bits(nv, key_scale(), 3, default_scale_bits()),
        spec_components_bits(nv, key_rotation(), 4, default_rotation_bits()),
        spec_components_bits(nv, key_translation(), 3, default_translation_bits()),
    ))
}

/// How a loaded node relates to its document object: the transform as
/// above, the child indices verbatim (empty when absent), and the mesh
/// index present exactly when the member is.
pub open spec fn node_matches(nv: Jv, node: crate::gltf::Node) -> bool {
    &&& node_transform_matches(nv, node.transform.view_bits())
    &&& (match spec_get(nv, key_children()) {
        Some(cv) => cv matches Jv::Arr(items) && usizes_match(items, node.child_node_indices@),
        None => node.child_node_indices@.len() == 0,
    })
    &&& (match spec_get(nv, key_mesh()) {
        Some(mv) => node.mesh_index matches Some(m) && Some(m as int) == spec_usize_of(mv),
        None => node.mesh_index is None,
    })
}

/// How a loaded scene relates to its document object: the root node
/// indices verbatim.
pub open spec fn scene_matches(sv: Jv, sc: crate::gltf::Scene) -> bool {
    match spec_get(sv, key_nodes()) {
        Some(nv) => nv matches Jv::Arr(items) && usizes_match(items, sc.node_indices@),
        None => false,
    }
}

/// How a resolved buffer entry relates to the resource table: some
/// resource carries the entry's name (the implicit first buffer of a
/// combined-binary asset resolves to the empty name), and the declared
/// byte length equals that resource's.
pub open spec fn buffer_matches(bv: Jv, b: int, resources: Seq<(Vec<u8>, Vec<u8>)>) -> bool {
    exists|ri: int|
        #![trigger resources[ri]]
        {
            &&& 0 <= ri < resources.len()
            &&& (match spec_get(bv, key_uri()) {
                Some(u) => u matches Jv::Str(name) && resources[ri].0@ == name,
                None => b == 0 && resources[ri].0@ == Seq::<u8>::empty(),
            })
            &&& (match spec_get(bv, key_byte_length()) {
                Some(x) => spec_usize_of(x) == Some(resources[ri].1@.len() as int),
                None => false,
            })
        }
}

/// How a loaded primitive relates to its document object: material index
/// and topology mode (defaulting to triangles) verbatim, the default-color
/// marker recorded exactly when the attributes lack `COLOR_0`, the index
/// count and element type taken from the resolved index accessor, and the
/// winding initialized counter-clockwise (traversal recomputes it).
pub open spec fn primitive_matches(
    pv: Jv,
    prim: crate::gltf::Primitive,
    accessors: Seq<Jv>,
    views: Seq<Jv>,
) -> bool {
    &&& (match spec_get(pv, key_material()) {
        Some(x) => Some(prim.material_index as int) == spec_usize_of(x),
        None => false,
    })
    &&& (match spec_get(pv, key_mode()) {
        Some(x) => Some(prim.draw_call.mode as int) == spec_usize_of(x),
        None => prim.draw_call.mode == GL_TRIANGLES,
    })
    &&& (match spec_get(pv, key_attributes()) {
        Some(av) => prim.draw_call.disabled_all_ones_vertex_attribute == (
        if spec_get(av, key_color0()) is Some {
            None
        } else {
            Some(crate::gltf::ATTR_LOC_COLOR_0)
        }),
        None => false,
    })
    &&& (match spec_get(pv, key_indices()) {
        Some(x) => match spec_usize_of(x) {
            Some(acc) => spec_accessor(accessors, views, acc) matches Some(ia)
                && prim.draw_call.index_count == ia.count && prim.draw_call.index_type
                == ia.component_type,
            None => false,
        },
        None => false,
    })
    &&& prim.draw_call.front_face == crate::commands::Winding::CounterClockwise
}

/// How a loaded mesh relates to its document object: one primitive-table
/// entry per document primitive, each matching its object.
pub open spec fn mesh_prims_match(
    mv: Jv,
    mesh: crate::gltf::Mesh,
    prims: Seq<crate::gltf::Primitive>,
    accessors: Seq<Jv>,
    views: Seq<Jv>,
) -> bool {
    match spec_get(mv, key_primitives()) {
        Some(pm) => pm matches Jv::Arr(ps) && mesh.primitive_indices@.len() == ps.len() && (
        forall|k: int|
            0 <= k < ps.len() ==> (#[trigger] mesh.primitive_indices@[k]) < prims.len()
                && primitive_matches(
                ps[k],
                prims[mesh.primitive_indices@[k] as int],
                accessors,
                views,
            )),
        None => false,
    }
}

pub open spec fn key_index() -> Seq<u8> {
    seq![105u8, 110u8, 100u8, 101u8, 120u8]
}

pub open spec fn key_source() -> Seq<u8> {
    seq![115u8, 111u8, 117u8, 114u8, 99u8, 101u8]
}

pub open spec fn key_pbr() -> Seq<u8> {
    seq![112u8, 98u8, 114u8, 77u8, 101u8, 116u8, 97u8, 108u8, 108u8, 105u8, 99u8, 82u8, 111u8,
        117u8, 103u8, 104u8, 110u8, 101u8, 115u8, 115u8]
}

pub open spec fn key_base_color_texture() -> Seq<u8> {
    seq![98u8, 97u8, 115u8, 101u8, 67u8, 111u8, 108u8, 111u8, 114u8, 84u8, 101u8, 120u8, 116u8,
        117u8, 114u8, 101u8]
}

pub open spec fn key_mr_texture() -> Seq<u8> {
    seq![109u8, 101u8, 116u8, 97u8, 108u8, 108u8, 105u8, 99u8, 82u8, 111u8, 117u8, 103u8,
        104u8, 110u8, 101u8, 115u8, 115u8, 84u8, 101u8, 120u8, 116u8, 117u8, 114u8, 101u8]
}

pub open spec fn key_normal_texture() -> Seq<u8> {
    seq![110u8, 111u8, 114u8, 109u8, 97u8, 108u8, 84u8, 101u8, 120u8, 116u8, 117u8, 114u8,
        101u8]
}

pub open spec fn key_occlusion_texture() -> Seq<u8> {
    seq![111u8, 99u8, 99u8, 108u8, 117u8, 115u8, 105u8, 111u8, 110u8, 84u8, 101u8, 120u8,
        116u8, 117u8, 114u8, 101u8]
}

pub open spec fn key_emissive_texture() -> Seq<u8> {
    seq![101u8, 109u8, 105u8, 115u8, 115u8, 105u8, 118u8, 101u8, 84u8, 101u8, 120u8, 116u8,
        117u8, 114u8, 101u8]
}

pub open spec fn key_textures() -> Seq<u8> {
    seq![116u8, 101u8, 120u8, 116u8, 117u8, 114u8, 101u8, 115u8]
}

pub open spec fn key_images() -> Seq<u8> {
    seq![105u8, 109u8, 97u8, 103u8, 101u8, 115u8]
}

/// The image a texture reference resolves to, through its texture's
/// `source`: the outer `Some` means the chain is well-formed, the inner
/// `Some` that the member is present at all.
pub open spec fn spec_role_image(owner: Jv, key: Seq<u8>, textures: Seq<Jv>, image_count: int) -> Option<
    Option<int>,
> {
    match spec_get(owner, key) {
        None => Some(None),
        Some(info) => match spec_get(info, key_index()) {
            None => None,
            Some(x) => match spec_usize_of(x) {
                None => None,
                Some(ti) => if !(0 <= ti < textures.len()) {
                    None
                } else {
                    match spec_get(textures[ti], key_source()) {
                        None => None,
                        Some(sx) => match spec_usize_of(sx) {
                            None => None,
                            Some(src) => if src >= image_count {
                                None
                            } else {
                                Some(Some(src))
                            },
                        },
                    }
                },
            },
        },
    }
}

/// A material's five texture roles, in the order the loader claims them:
/// base color, metallic-roughness, normal, occlusion, emissive.
pub open spec fn spec_role_claim(mv: Jv, role: int, textures: Seq<Jv>, image_count: int) -> Option<
    Option<int>,
> {
    if role == 0 || role == 1 {
        match spec_get(mv, key_pbr()) {
            Some(p) => spec_role_image(
                p,
                if role == 0 {
                    key_base_color_texture()
                } else {
                    key_mr_texture()
                },
                textures,
                image_count,
            ),
            None => Some(None),
        }
    } else if role == 2 {
        spec_role_image(mv, key_normal_texture(), textures, image_count)
    } else if role == 3 {
        spec_role_image(mv, key_occlusion_texture(), textures, image_count)
    } else {
        spec_role_image(mv, key_emissive_texture(), textures, image_count)
    }
}

/// Whether a role binds an image as gamma-encoded color data (base color
/// and emissive) rather than linear data.
pub open spec fn role_is_srgb(role: int) -> bool {
    role == 0 || role == 4
}

/// Whether material `m`'s role binds exactly the image `img`.
pub open spec fn claims_image(
    materials: Seq<Jv>,
    m: int,
    role: int,
    textures: Seq<Jv>,
    image_count: int,
    img: int,
) -> bool {
    spec_role_claim(materials[m], role, textures, image_count) == Some(Option::Some(img))
}

/// No image is referenced both as color data and as linear data across all
/// materials and roles.
pub open spec fn srgb_roles_consistent(
    materials: Seq<Jv>,
    textures: Seq<Jv>,
    image_count: int,
) -> bool {
    forall|m1: int, r1: int, m2: int, r2: int, img: int|
        0 <= m1 < materials.len() && 0 <= r1 < 5 && 0 <= m2 < materials.len() && 0 <= r2 < 5
            && #[trigger] claims_image(materials, m1, r1, textures, image_count, img)
            && #[trigger] claims_image(materials, m2, r2, textures, image_count, img)
            ==> role_is_srgb(r1) == role_is_srgb(r2)
}

/// GL enumerant values shared with the asset format.
pub const GL_UNSIGNED_BYTE: u32 = 5121;

pub const GL_UNSIGNED_SHORT: u32 = 5123;

pub const GL_UNSIGNED_INT: u32 = 5125;

pub const GL_RGB: u32 = 6407;

pub const GL_RGBA: u32 = 6408;

pub const GL_SRGB8: u32 = 35905;

pub const GL_SRGB8_ALPHA8: u32 = 35907;

pub const GL_LINEAR: u32 = 9729;

pub const GL_LINEAR_MIPMAP_LINEAR: u32 = 9987;

pub const GL_REPEAT: u32 = 10497;

pub const GL_TEXTURE_MAG_FILTER: u32 = 10240;

pub const GL_TEXTURE_MIN_FILTER: u32 = 10241;

pub const GL_TEXTURE_WRAP_S: u32 = 10242;

pub const GL_TEXTURE_WRAP_T: u32 = 10243;

/// The triangle-list primitive topology, the default `mode`.
pub const GL_TRIANGLES: u32 = 4;

fn copy_bytes(v: &[u8]) -> (r: Vec<u8>)
    ensures
        r@ == v@,
{
    let mut out: Vec<u8> = Vec::new();
    let mut i: usize = 0;
    while i < v.len()
        invariant
            0 <= i <= v@.len(),
            out@ == v@.subrange(0, i as int),
        decreases v@.len() - i,
    {
        out.push(v[i]);
        i = i + 1;
        proof {
            assert(out@ =~= v@.subrange(0, i as int));
        }
    }
    proof {
        assert(out@ =~= v@);
    }
    out
}

fn copy_byte_range(v: &Vec<u8>, start: usize, len: usize) -> (r: Result<Vec<u8>, LoadError>)
    ensures
        r is Ok ==> start + len <= v@.len() && r->Ok_0@ == v@.subrange(
            start as int,
            start + len,
        ),
        start + len <= v@.len() ==> r is Ok,
        r is Err ==> r->Err_0 == LoadError::IndexOutOfBounds,
{
    if start > v.len() || len > v.len() - start {
        return Err(LoadError::IndexOutOfBounds);
    }
    let mut out: Vec<u8> = Vec::new();
    let mut i: usize = 0;
    while i < len
        invariant
            0 <= i <= len,
            start + len <= v@.len(),
            v@.len() <= usize::MAX,
            out@ == v@.subrange(start as int, start + i),
        decreases len - i,
    {
        out.push(v[start + i]);
        i = i + 1;
        proof {
            assert(out@ =~= v@.subrange(start as int, start + i));
        }
    }
    Ok(out)
}

/// The index of the named resource, the last match winning.
fn find_resource(resources: &Vec<(Vec<u8>, Vec<u8>)>, name: &[u8]) -> (r: Option<usize>)
    ensures
        r matches Some(i) ==> i < resources@.len() && resources@[i as int].0@ == name@,
{
    let mut found: Option<usize> = None;
    let mut i: usize = 0;
    while i < resources.len()
        invariant
            0 <= i <= resources@.len(),
            found matches Some(k) ==> k < resources@.len() && resources@[k as int].0@ == name@,
        decreases resources@.len() - i,
    {
        if crate::json::bytes_eq_pub(&resources[i].0, name) {
            found = Some(i);
        }
        i = i + 1;
    }
    found
}

/// Resolves one texture reference of a material to driver objects: the
/// referenced texture's image and sampler, the sampler defaulting to the
/// extra default sampler at the end of the table.  Only texture coordinate
/// set 0 is supported.
fn unpack_texture_info(
    texture_info: &Json,
    textures: &Vec<Json>,
    gl_textures: &Vec<u64>,
    gl_samplers: &Vec<u64>,
) -> (r: Result<(u64, u64), LoadError>)
    requires
        gl_samplers@.len() >= 1,
    ensures
        r is Err ==> (r->Err_0 == LoadError::BadNumber || r->Err_0 == LoadError::Structure
            || r->Err_0 == LoadError::IndexOutOfBounds || r->Err_0
            == LoadError::UnsupportedTexCoord),
{
    let key_texcoord: [u8; 8] = [116, 101, 120, 67, 111, 111, 114, 100];
    let key_index: [u8; 5] = [105, 110, 100, 101, 120];
    let key_sampler: [u8; 7] = [115, 97, 109, 112, 108, 101, 114];
    let key_source: [u8; 6] = [115, 111, 117, 114, 99, 101];
    match texture_info.get(vstd::array::array_as_slice(&key_texcoord)) {
        Some(tc) => {
            let set: usize = match take_usize(tc) {
                Ok(v) => v,
                Err(e) => {
                    return Err(e);
                },
            };
            if set != 0 {
                return Err(LoadError::UnsupportedTexCoord);
            }
        },
        None => {},
    }
    let texture_index: usize = match texture_info.get(vstd::array::array_as_slice(&key_index)) {
        Some(x) => match take_usize(x) {
            Ok(v) => v,
            Err(e) => {
                return Err(e);
            },
        },
        None => {
            return Err(LoadError::Structure);
        },
    };
    if texture_index >= textures.len() {
        return Err(LoadError::IndexOutOfBounds);
    }
    let texture: &Json = &textures[texture_index];
    let sampler: usize = match texture.get(vstd::array::array_as_slice(&key_sampler)) {
        Some(x) => match take_usize(x) {
            Ok(v) => v,
            Err(e) => {
                return Err(e);
            },
        },
        None => gl_samplers.len() - 1,
    };
    if sampler >= gl_samplers.len() {
        return Err(LoadError::IndexOutOfBounds);
    }
    let source: usize = match texture.get(vstd::array::array_as_slice(&key_source)) {
        Some(x) => match take_usize(x) {
            Ok(v) => v,
            Err(e) => {
                return Err(e);
            },
        },
        None => {
            return Err(LoadError::Structure);
        },
    };
    if source >= gl_textures.len() {
        return Err(LoadError::IndexOutOfBounds);
    }
    Ok((gl_textures[source], gl_samplers[sampler]))
}

/// The image a material texture reference (by role) points at, if the
/// member is present: `textures[member.index].source`.
fn role_image(
    material_or_pbr: &Json,
    key: &[u8],
    textures: &Vec<Json>,
    image_count: usize,
) -> (r: Result<Option<usize>, LoadError>)
    ensures
        r is Err ==> (r->Err_0 == LoadError::BadNumber || r->Err_0 == LoadError::Structure
            || r->Err_0 == LoadError::IndexOutOfBounds),
        r is Ok <==> spec_role_image(
            material_or_pbr.v(),
            key@,
            crate::json::jv_seq(textures@),
            image_count as int,
        ) is Some,
        r matches Ok(o) ==> (spec_role_image(
            material_or_pbr.v(),
            key@,
            crate::json::jv_seq(textures@),
            image_count as int,
        ) matches Some(so) && (match o {
            Some(i) => so == Some(i as int) && i < image_count,
            None => so is None,
        })),
{
    proof {
        crate::json::lemma_jv_seq(textures@);
    }
    let key_index_arr: [u8; 5] = [105, 110, 100, 101, 120];
    let key_source_arr: [u8; 6] = [115, 111, 117, 114, 99, 101];
    proof {
        assert(key_index_arr@ =~= key_index());
        assert(key_source_arr@ =~= key_source());
    }
    match material_or_pbr.get(key) {
        Some(info) => {
            let texture_index: usize = match info.get(
                vstd::array::array_as_slice(&key_index_arr),
            ) {
                Some(x) => match take_usize(x) {
                    Ok(v) => v,
                    Err(e) => {
                        return Err(e);
                    },
                },
                None => {
                    return Err(LoadError::Structure);
                },
            };
            if texture_index >= textures.len() {
                return Err(LoadError::IndexOutOfBounds);
            }
            let source: usize = match textures[texture_index].get(
                vstd::array::array_as_slice(&key_source_arr),
            ) {
                Some(x) => match take_usize(x) {
                    Ok(v) => v,
                    Err(e) => {
                        return Err(e);
                    },
                },
                None => {
                    return Err(LoadError::Structure);
                },
            };
            if source >= image_count {
                return Err(LoadError::IndexOutOfBounds);
            }
            Ok(Some(source))
        },
        None => Ok(None),
    }
}

fn floor_log2(x: u32) -> (r: u32)
    requires
        x >= 1,
    ensures
        r <= 31,
{
    let mut v: u32 = x;
    let mut count: u32 = 0;
    while v >= 2
        invariant
            1 <= v <= x,
            count <= 31,
        decreases v,
    {
        v = v / 2;
        if count < 31 {
            count = count + 1;
        }
    }
    count
}


/// Decodes, classifies and uploads one image with a full mipmap chain,
/// repeatedly halving with a box or bicubic filter (the higher-quality one
/// for gamma-encoded color data).  Dimensions are tracked by this code;
/// every byte length the image crate hands back is checked.
fn upload_image_mips(
    ctx: &mut GlCtx,
    decoded: image::DynamicImage,
    texture: u64,
    srgb: bool,
) -> (r: Result<(), LoadError>)
    ensures
        r is Err ==> r->Err_0 == LoadError::UnsupportedImage,
{
    let format = crate::images::image_format(&decoded);
    let fmt: u32;
    let ctype: u32;
    let bpp: u32;
    match format {
        crate::images::PixelFormat::Rgb8 => {
            fmt = GL_RGB;
            ctype = GL_UNSIGNED_BYTE;
            bpp = 3;
        },
        crate::images::PixelFormat::Rgba8 => {
            fmt = GL_RGBA;
            ctype = GL_UNSIGNED_BYTE;
            bpp = 4;
        },
        crate::images::PixelFormat::Rgb16 => {
            fmt = GL_RGB;
            ctype = GL_UNSIGNED_SHORT;
            bpp = 6;
        },
        crate::images::PixelFormat::Rgba16 => {
            fmt = GL_RGBA;
            ctype = GL_UNSIGNED_SHORT;
            bpp = 8;
        },
        crate::images::PixelFormat::Unsupported => {
            return Err(LoadError::UnsupportedImage);
        },
    }
    let internal_format: u32 = if srgb {
        if fmt == GL_RGBA {
            GL_SRGB8_ALPHA8
        } else {
            GL_SRGB8
        }
    } else {
        fmt
    };
    let mut image = decoded;
    let mut width: u32 = crate::images::image_width(&image);
    let mut height: u32 = crate::images::image_height(&image);
    if width == 0 || height == 0 || width > 0xFFFF || height > 0xFFFF {
        return Err(LoadError::UnsupportedImage);
    }
    let bytes_per_pixel: u64 = bpp as u64;
    ctx.push_cmd(GlCmd::BindTexture { texture });
    let smaller: u32 = if width < height {
        width
    } else {
        height
    };
    let mip_levels: u32 = floor_log2(smaller) + 1;
    let mut level: u32 = 0;
    while level < mip_levels
        invariant
            mip_levels <= 32,
            bytes_per_pixel <= 8,
            width <= 0xFFFF,
            height <= 0xFFFF,
        decreases mip_levels - level,
    {
        let data: Vec<u8> = crate::images::image_bytes(&image);
        let w64: u64 = width as u64;
        let h64: u64 = height as u64;
        proof {
            assert(w64 * h64 <= 0xFFFFu64 * 0xFFFFu64) by (nonlinear_arith)
                requires
                    w64 <= 0xFFFFu64,
                    h64 <= 0xFFFFu64,
            ;
        }
        let wh: u64 = w64 * h64;
        proof {
            assert(wh * bytes_per_pixel <= 0xFFFE_0001u64 * 8u64) by (nonlinear_arith)
                requires
                    wh <= 0xFFFE_0001u64,
                    bytes_per_pixel <= 8u64,
            ;
        }
        let expected: u64 = wh * bytes_per_pixel;
        if expected != data.len() as u64 {
            return Err(LoadError::UnsupportedImage);
        }
        ctx.push_cmd(GlCmd::TexImage2D {
            level,
            internal_format,
            width,
            height,
            format: fmt,
            component_type: ctype,
            data,
        });
        if level + 1 < mip_levels {
            let next_w: u32 = width / 2;
            let next_h: u32 = height / 2;
            image = crate::images::image_resize(&image, next_w, next_h, srgb);
            width = next_w;
            height = next_h;
        }
        level = level + 1;
    }
    Ok(())
}

/// Computes one level per node by chasing parent links; a chain that does
/// not reach a root within the node count is a cycle.  The result is only
/// a candidate witness: `validate_gltf` checks it.
fn build_node_levels(nodes: &Vec<crate::gltf::Node>) -> (r: Result<Vec<usize>, LoadError>)
    ensures
        r is Err ==> r->Err_0 == LoadError::NotATree,
{
    let n: usize = nodes.len();
    let mut parents: Vec<Option<usize>> = Vec::new();
    let mut i: usize = 0;
    while i < n
        invariant
            parents@.len() == i,
            0 <= i <= n,
        decreases n - i,
    {
        parents.push(None);
        i = i + 1;
    }
    let mut p: usize = 0;
    while p < n
        invariant
            parents@.len() == n,
            n == nodes@.len(),
            0 <= p <= n,
        decreases n - p,
    {
        let child_count: usize = nodes[p].child_node_indices.len();
        let mut c: usize = 0;
        while c < child_count
            invariant
                parents@.len() == n,
                n == nodes@.len(),
                0 <= p < n,
                child_count == nodes@[p as int].child_node_indices@.len(),
                0 <= c <= child_count,
            decreases child_count - c,
        {
            let child: usize = nodes[p].child_node_indices[c];
            if child < n {
                let ghost before = parents@;
                proof {
                    vstd::seq_lib::lemma_update_is_remove_insert(
                        before,
                        child as int,
                        Some(p),
                    );
                }
                let _ = parents.remove(child);
                parents.insert(child, Some(p));
                proof {
                    assert(parents@ =~= before.update(child as int, Some(p)));
                }
            }
            c = c + 1;
        }
        p = p + 1;
    }
    let mut levels: Vec<usize> = Vec::new();
    let mut x: usize = 0;
    while x < n
        invariant
            parents@.len() == n,
            levels@.len() == x,
            0 <= x <= n,
        decreases n - x,
    {
        let mut cur: usize = x;
        let mut depth: usize = 0;
        let mut fuel: usize = n;
        while fuel > 0
            invariant
                parents@.len() == n,
                cur < n,
                depth <= n,
                fuel <= n,
            decreases fuel,
        {
            match parents[cur] {
                Some(parent) => {
                    if parent >= n {
                        return Err(LoadError::NotATree);
                    }
                    cur = parent;
                    if depth < n {
                        depth = depth + 1;
                    }
                },
                None => {
                    fuel = 1;
                },
            }
            fuel = fuel - 1;
        }
        match parents[cur] {
            Some(_) => {
                return Err(LoadError::NotATree);
            },
            None => {},
        }
        levels.push(depth);
        x = x + 1;
    }
    Ok(levels)
}


/// Element-for-element agreement of decoded indices with their document
/// array.
pub open spec fn usizes_match(items: Seq<Jv>, out: Seq<usize>) -> bool {
    out.len() == items.len() && forall|k: int|
        0 <= k < items.len() ==> Some((#[trigger] out[k]) as int) == spec_usize_of(items[k])
}

/// Every role claim of every material before position `(upto_m, upto_r)`
/// (materials before `upto_m` fully, material `upto_m` up to role `upto_r`)
/// is recorded in the cells with its color-versus-linear value.
pub open spec fn claims_recorded(
    mats: Seq<Jv>,
    txs: Seq<Jv>,
    n: int,
    cells: Seq<Option<bool>>,
    upto_m: int,
    upto_r: int,
) -> bool {
    forall|m: int, r: int, img: int|
        ((0 <= m < upto_m && 0 <= r < 5) || (m == upto_m && 0 <= r < upto_r))
            && #[trigger] claims_image(mats, m, r, txs, n, img) ==> 0 <= img < n && cells[img]
            == Some(role_is_srgb(r))
}

/// Recording one more role claim preserves every earlier claim: a
/// successful recording either touches no cell (no reference) or sets the
/// claimed image's cell to a value every earlier claim on it agrees with.
proof fn lemma_claim_step(
    mats: Seq<Jv>,
    txs: Seq<Jv>,
    n: int,
    old_cells: Seq<Option<bool>>,
    new_cells: Seq<Option<bool>>,
    m: int,
    role: int,
)
    requires
        0 <= role < 5,
        old_cells.len() == n,
        claims_recorded(mats, txs, n, old_cells, m, role),
        match spec_role_claim(mats[m], role, txs, n) {
            Some(outcome) => match outcome {
                Some(img) => 0 <= img < n && old_cells[img] != Some(!role_is_srgb(role))
                    && new_cells == old_cells.update(img, Some(role_is_srgb(role))),
                None => new_cells == old_cells,
            },
            None => false,
        },
    ensures
        claims_recorded(mats, txs, n, new_cells, m, role + 1),
        new_cells.len() == n,
{
    assert forall|m2: int, r2: int, img: int|
        ((0 <= m2 < m && 0 <= r2 < 5) || (m2 == m && 0 <= r2 < role + 1))
            && #[trigger] claims_image(mats, m2, r2, txs, n, img) implies 0 <= img < n
        && new_cells[img] == Some(role_is_srgb(r2)) by {
        if m2 == m && r2 == role {
            assert(spec_role_claim(mats[m], role, txs, n) == Some(Option::Some(img)));
        } else {
            assert(claims_image(mats, m2, r2, txs, n, img));
            assert(0 <= img < n && old_cells[img] == Some(role_is_srgb(r2)));
            match spec_role_claim(mats[m], role, txs, n) {
                Some(outcome) => match outcome {
                    Some(img0) => {
                        if img == img0 {
                            assert(old_cells[img] != Some(!role_is_srgb(role)));
                            assert(role_is_srgb(r2) == role_is_srgb(role));
                        }
                    },
                    None => {},
                },
                None => {},
            }
        }
    }
}

/// Resolves one texture role of a material and records the referenced
/// image's color-versus-linear use, failing on a conflict.
fn claim_role(
    is_srgb: &mut Vec<Option<bool>>,
    owner: &Json,
    key: &[u8],
    textures_json: &Vec<Json>,
    image_count: usize,
    srgb: bool,
) -> (r: Result<(), LoadError>)
    requires
        old(is_srgb)@.len() == image_count,
    ensures
        final(is_srgb)@.len() == image_count,
        r is Err ==> final(is_srgb)@ == old(is_srgb)@,
        r is Err ==> (r->Err_0 == LoadError::BadNumber || r->Err_0 == LoadError::Structure
            || r->Err_0 == LoadError::IndexOutOfBounds || r->Err_0 == LoadError::SrgbConflict),
        r is Ok ==> (spec_role_image(
            owner.v(),
            key@,
            crate::json::jv_seq(textures_json@),
            image_count as int,
        ) matches Some(outcome) && (match outcome {
            Some(img) => 0 <= img < image_count && old(is_srgb)@[img as int] != Some(!srgb)
                && final(is_srgb)@ == old(is_srgb)@.update(img, Some(srgb)),
            None => final(is_srgb)@ == old(is_srgb)@,
        })),
{
    match role_image(owner, key, textures_json, image_count) {
        Ok(Some(image)) => set_srgb_status(is_srgb, image, srgb),
        Ok(None) => Ok(()),
        Err(e) => Err(e),
    }
}

/// Decides each image's color-versus-linear role from the slots its
/// materials bind it to: color data for base color and emissive, linear
/// for metallic-roughness, normal and occlusion.  One image claimed in
/// both roles is ambiguous and fatal; on success no such conflict exists
/// anywhere in the document.
#[verifier::loop_isolation(false)]
fn assign_srgb_roles(
    materials_json: &Vec<Json>,
    textures_json: &Vec<Json>,
    image_count: usize,
) -> (r: Result<Vec<Option<bool>>, LoadError>)
    ensures
        r matches Ok(v) ==> v@.len() == image_count,
        r matches Ok(v) ==> srgb_roles_consistent(
            crate::json::jv_seq(materials_json@),
            crate::json::jv_seq(textures_json@),
            image_count as int,
        ),
        r is Err ==> (r->Err_0 == LoadError::BadNumber || r->Err_0 == LoadError::Structure
            || r->Err_0 == LoadError::IndexOutOfBounds || r->Err_0 == LoadError::SrgbConflict),
{
    proof {
        crate::json::lemma_jv_seq(materials_json@);
    }
    let ghost mats = crate::json::jv_seq(materials_json@);
    let ghost txs = crate::json::jv_seq(textures_json@);
    let ghost n = image_count as int;
    let key_pbr_arr: [u8; 20] = [
        112, 98, 114, 77, 101, 116, 97, 108, 108, 105, 99, 82, 111, 117, 103, 104, 110, 101,
        115, 115,
    ];
    let key_bct_arr: [u8; 16] = [
        98, 97, 115, 101, 67, 111, 108, 111, 114, 84, 101, 120, 116, 117, 114, 101,
    ];
    let key_mrt_arr: [u8; 24] = [
        109, 101, 116, 97, 108, 108, 105, 99, 82, 111, 117, 103, 104, 110, 101, 115, 115, 84,
        101, 120, 116, 117, 114, 101,
    ];
    let key_nt_arr: [u8; 13] = [110, 111, 114, 109, 97, 108, 84, 101, 120, 116, 117, 114, 101];
    let key_ot_arr: [u8; 16] = [
        111, 99, 99, 108, 117, 115, 105, 111, 110, 84, 101, 120, 116, 117, 114, 101,
    ];
    let key_et_arr: [u8; 15] = [
        101, 109, 105, 115, 115, 105, 118, 101, 84, 101, 120, 116, 117, 114, 101,
    ];
    proof {
        assert(key_pbr_arr@ =~= key_pbr());
        assert(key_bct_arr@ =~= key_base_color_texture());
        assert(key_mrt_arr@ =~= key_mr_texture());
        assert(key_nt_arr@ =~= key_normal_texture());
        assert(key_ot_arr@ =~= key_occlusion_texture());
        assert(key_et_arr@ =~= key_emissive_texture());
    }
    let mut is_srgb: Vec<Option<bool>> = Vec::new();
    let mut ii: usize = 0;
    while ii < image_count
        invariant
            is_srgb@.len() == ii,
            0 <= ii <= image_count,
        decreases image_count - ii,
    {
        is_srgb.push(None);
        ii = ii + 1;
    }
    let mut mati: usize = 0;
    while mati < materials_json.len()
        invariant
            0 <= mati <= materials_json@.len(),
            is_srgb@.len() == image_count,
            claims_recorded(mats, txs, n, is_srgb@, mati as int, 0),
        decreases materials_json@.len() - mati,
    {
        let material: &Json = &materials_json[mati];
        let ghost mv = mats[mati as int];
        let ghost cells0 = is_srgb@;
        match material.get(vstd::array::array_as_slice(&key_pbr_arr)) {
            Some(pbr) => {
                let ghost before = is_srgb@;
                match claim_role(
                    &mut is_srgb,
                    pbr,
                    vstd::array::array_as_slice(&key_bct_arr),
                    textures_json,
                    image_count,
                    true,
                ) {
                    Ok(_) => {},
                    Err(e) => {
                        return Err(e);
                    },
                }
                proof {
                    assert(spec_role_claim(mv, 0, txs, n) == spec_role_image(
                        pbr.v(),
                        key_base_color_texture(),
                        txs,
                        n,
                    ));
                    lemma_claim_step(mats, txs, n, before, is_srgb@, mati as int, 0);
                }
                let ghost before1 = is_srgb@;
                match claim_role(
                    &mut is_srgb,
                    pbr,
                    vstd::array::array_as_slice(&key_mrt_arr),
                    textures_json,
                    image_count,
                    false,
                ) {
                    Ok(_) => {},
                    Err(e) => {
                        return Err(e);
                    },
                }
                proof {
                    assert(spec_role_claim(mv, 1, txs, n) == spec_role_image(
                        pbr.v(),
                        key_mr_texture(),
                        txs,
                        n,
                    ));
                    lemma_claim_step(mats, txs, n, before1, is_srgb@, mati as int, 1);
                }
            },
            None => {
                proof {
                    assert(spec_role_claim(mv, 0, txs, n) == Some(Option::<int>::None));
                    lemma_claim_step(mats, txs, n, is_srgb@, is_srgb@, mati as int, 0);
                    assert(spec_role_claim(mv, 1, txs, n) == Some(Option::<int>::None));
                    lemma_claim_step(mats, txs, n, is_srgb@, is_srgb@, mati as int, 1);
                }
            },
        }
        let ghost before2 = is_srgb@;
        match claim_role(
            &mut is_srgb,
            material,
            vstd::array::array_as_slice(&key_nt_arr),
            textures_json,
            image_count,
            false,
        ) {
            Ok(_) => {},
            Err(e) => {
                return Err(e);
            },
        }
        proof {
            lemma_claim_step(mats, txs, n, before2, is_srgb@, mati as int, 2);
        }
        let ghost before3 = is_srgb@;
        match claim_role(
            &mut is_srgb,
            material,
            vstd::array::array_as_slice(&key_ot_arr),
            textures_json,
            image_count,
            false,
        ) {
            Ok(_) => {},
            Err(e) => {
                return Err(e);
            },
        }
        proof {
            lemma_claim_step(mats, txs, n, before3, is_srgb@, mati as int, 3);
        }
        let ghost before4 = is_srgb@;
        match claim_role(
            &mut is_srgb,
            material,
            vstd::array::array_as_slice(&key_et_arr),
            textures_json,
            image_count,
            true,
        ) {
            Ok(_) => {},
            Err(e) => {
                return Err(e);
            },
        }
        proof {
            lemma_claim_step(mats, txs, n, before4, is_srgb@, mati as int, 4);
            assert(claims_recorded(mats, txs, n, is_srgb@, mati as int, 5));
            assert(claims_recorded(mats, txs, n, is_srgb@, mati + 1, 0));
        }
        mati = mati + 1;
    }
    proof {
        assert forall|m1: int, r1: int, m2: int, r2: int, img: int|
            0 <= m1 < mats.len() && 0 <= r1 < 5 && 0 <= m2 < mats.len() && 0 <= r2 < 5
                && #[trigger] claims_image(mats, m1, r1, txs, n, img) && #[trigger] claims_image(
                mats,
                m2,
                r2,
                txs,
                n,
                img,
            ) implies role_is_srgb(r1) == role_is_srgb(r2) by {
            assert(is_srgb@[img] == Some(role_is_srgb(r1)));
            assert(is_srgb@[img] == Some(role_is_srgb(r2)));
        }
        assert(srgb_roles_consistent(mats, txs, n));
    }
    Ok(is_srgb)
}

/// Reads an array of integers.
fn take_usize_array(v: &Json) -> (r: Result<Vec<usize>, LoadError>)
    ensures
        r is Ok ==> (v.v() matches Jv::Arr(items) && usizes_match(items, r->Ok_0@)),
        r is Err ==> (r->Err_0 == LoadError::BadNumber || r->Err_0 == LoadError::Structure),
{
    match v {
        Json::Arr(items) => {
            proof {
                crate::json::lemma_jv_seq(items@);
            }
            let mut out: Vec<usize> = Vec::new();
            let mut i: usize = 0;
            while i < items.len()
                invariant
                    0 <= i <= items@.len(),
                    out@.len() == i,
                    v.v() matches Jv::Arr(vals) && vals == crate::json::jv_seq(items@),
                    forall|k: int|
                        0 <= k < items@.len() ==> crate::json::jv_seq(items@)[k] == (
                        #[trigger] items@[k]).v(),
                    forall|k: int|
                        0 <= k < i ==> Some((#[trigger] out@[k]) as int) == spec_usize_of(
                            crate::json::jv_seq(items@)[k],
                        ),
                decreases items@.len() - i,
            {
                match take_usize(&items[i]) {
                    Ok(value) => {
                        out.push(value);
                    },
                    Err(e) => {
                        return Err(e);
                    },
                }
                i = i + 1;
            }
            Ok(out)
        },
        _ => Err(LoadError::Structure),
    }
}

/// Decodes and uploads every image that some material references, with
/// the color-versus-linear role the reference assignment decided.
fn decode_and_upload_images(
    ctx: &mut GlCtx,
    images_json: &Vec<Json>,
    is_srgb: &Vec<Option<bool>>,
    gl_textures: &Vec<u64>,
    buffer_data: &Vec<Vec<u8>>,
    resources: &Vec<(Vec<u8>, Vec<u8>)>,
) -> (r: Result<(), LoadError>)
    requires
        is_srgb@.len() == images_json@.len(),
        gl_textures@.len() >= images_json@.len(),
    ensures
        r is Err ==> (r->Err_0 == LoadError::BadNumber || r->Err_0 == LoadError::Structure
            || r->Err_0 == LoadError::IndexOutOfBounds || r->Err_0
            == LoadError::InterleavedStride || r->Err_0 == LoadError::UnresolvedImage
            || r->Err_0 == LoadError::UnsupportedImage),
{
    let image_count: usize = images_json.len();
    let key_uri_arr: [u8; 3] = [117, 114, 105];
    let key_bs: [u8; 10] = [98, 121, 116, 101, 83, 116, 114, 105, 100, 101];
    let key_bo: [u8; 10] = [98, 121, 116, 101, 79, 102, 102, 115, 101, 116];
    let key_buf: [u8; 6] = [98, 117, 102, 102, 101, 114];
    let key_blen_arr: [u8; 10] = [98, 121, 116, 101, 76, 101, 110, 103, 116, 104];
    let key_buffer_view_member: [u8; 10] = [98, 117, 102, 102, 101, 114, 86, 105, 101, 119];
    let mut img_i: usize = 0;
    while img_i < image_count
        invariant
            0 <= img_i <= image_count,
            image_count == images_json@.len(),
            is_srgb@.len() == image_count,
            gl_textures@.len() >= image_count,
        decreases image_count - img_i,
    {
        let srgb: bool = match is_srgb[img_i] {
            Some(v) => v,
            None => {
                // Not referenced by any material: skip the decode entirely.
                img_i = img_i + 1;
                continue;
            },
        };
        let image_json: &Json = &images_json[img_i];
        let encoded: Vec<u8> = match image_json.get(vstd::array::array_as_slice(&key_uri_arr)) {
            Some(u) => match u {
                Json::Str(name) => match find_resource(resources, name.as_slice()) {
                    Some(ri) => copy_bytes(resources[ri].1.as_slice()),
                    None => {
                        return Err(LoadError::UnresolvedImage);
                    },
                },
                _ => {
                    return Err(LoadError::Structure);
                },
            },
            None => {
                let view: &Json = match image_json.get(
                    vstd::array::array_as_slice(&key_buffer_view_member),
                ) {
                    Some(v) => v,
                    None => {
                        return Err(LoadError::Structure);
                    },
                };
                if view.get(vstd::array::array_as_slice(&key_bs)).is_some() {
                    return Err(LoadError::InterleavedStride);
                }
                let vbuffer: usize = match view.get(vstd::array::array_as_slice(&key_buf)) {
                    Some(x) => match take_usize(x) {
                        Ok(v) => v,
                        Err(e) => {
                            return Err(e);
                        },
                    },
                    None => {
                        return Err(LoadError::Structure);
                    },
                };
                let voffset: usize = match view.get(vstd::array::array_as_slice(&key_bo)) {
                    Some(x) => match take_usize(x) {
                        Ok(v) => v,
                        Err(e) => {
                            return Err(e);
                        },
                    },
                    None => 0,
                };
                let vlength: usize = match view.get(
                    vstd::array::array_as_slice(&key_blen_arr),
                ) {
                    Some(x) => match take_usize(x) {
                        Ok(v) => v,
                        Err(e) => {
                            return Err(e);
                        },
                    },
                    None => {
                        return Err(LoadError::Structure);
                    },
                };
                if vbuffer >= buffer_data.len() {
                    return Err(LoadError::IndexOutOfBounds);
                }
                if voffset > usize::MAX - vlength {
                    return Err(LoadError::BadNumber);
                }
                match copy_byte_range(&buffer_data[vbuffer], voffset, vlength) {
                    Ok(v) => v,
                    Err(e) => {
                        return Err(e);
                    },
                }
            },
        };
        let decoded: image::DynamicImage = match crate::images::decode_image(encoded.as_slice())
        {
            Some(img) => img,
            None => {
                return Err(LoadError::UnsupportedImage);
            },
        };
        match upload_image_mips(ctx, decoded, gl_textures[img_i], srgb) {
            Ok(_) => {},
            Err(e) => {
                return Err(e);
            },
        }
        img_i = img_i + 1;
    }
    Ok(())
}

/// Builds one sampler object per declared sampler plus the default
/// sampler (linear filtering, mipmapped minification, repeat wrap), which
/// sits at the end of the returned table.
fn build_samplers(ctx: &mut GlCtx, doc: &Json) -> (r: Result<Vec<u64>, LoadError>)
    ensures
        r matches Ok(v) ==> v@.len() >= 1,
        r is Err ==> (r->Err_0 == LoadError::BadNumber || r->Err_0 == LoadError::Structure),
{
    // Samplers: one per declared sampler plus a default (linear filtering,
    // mipmapped minification, repeat wrap); a material's texture defaults
    // to the extra sampler when it names none.
    let key_samplers: [u8; 8] = [115, 97, 109, 112, 108, 101, 114, 115];
    let key_mag_filter: [u8; 9] = [109, 97, 103, 70, 105, 108, 116, 101, 114];
    let key_min_filter: [u8; 9] = [109, 105, 110, 70, 105, 108, 116, 101, 114];
    let key_wrap_s: [u8; 5] = [119, 114, 97, 112, 83];
    let key_wrap_t: [u8; 5] = [119, 114, 97, 112, 84];
    let empty_samplers: Vec<Json> = Vec::new();
    let samplers_json: &Vec<Json> = match doc.get(vstd::array::array_as_slice(&key_samplers)) {
        Some(Json::Arr(items)) => items,
        Some(_) => {
            return Err(LoadError::Structure);
        },
        None => &empty_samplers,
    };
    if samplers_json.len() > usize::MAX - 1 {
        return Err(LoadError::BadNumber);
    }
    let mut gl_samplers: Vec<u64> = Vec::new();
    let mut smi: usize = 0;
    while smi < samplers_json.len() + 1
        invariant
            gl_samplers@.len() == smi,
            0 <= smi <= samplers_json@.len() + 1,
            samplers_json@.len() + 1 <= usize::MAX,
        decreases samplers_json@.len() + 1 - smi,
    {
        let sampler: u64 = ctx.gen_name();
        ctx.push_cmd(GlCmd::CreateSampler { sampler });
        gl_samplers.push(sampler);
        smi = smi + 1;
    }
    let default_sampler: u64 = gl_samplers[samplers_json.len()];
    ctx.push_cmd(GlCmd::SamplerParameter {
        sampler: default_sampler,
        parameter: GL_TEXTURE_MAG_FILTER,
        value: GL_LINEAR,
    });
    ctx.push_cmd(GlCmd::SamplerParameter {
        sampler: default_sampler,
        parameter: GL_TEXTURE_MIN_FILTER,
        value: GL_LINEAR_MIPMAP_LINEAR,
    });
    ctx.push_cmd(GlCmd::SamplerParameter {
        sampler: default_sampler,
        parameter: GL_TEXTURE_WRAP_S,
        value: GL_REPEAT,
    });
    ctx.push_cmd(GlCmd::SamplerParameter {
        sampler: default_sampler,
        parameter: GL_TEXTURE_WRAP_T,
        value: GL_REPEAT,
    });
    let mut sj: usize = 0;
    while sj < samplers_json.len()
        invariant
            0 <= sj <= samplers_json@.len(),
            gl_samplers@.len() == samplers_json@.len() + 1,
        decreases samplers_json@.len() - sj,
    {
        let sampler_json: &Json = &samplers_json[sj];
        let sampler: u64 = gl_samplers[sj];
        let mag: u32 = match opt_u32_member(
            sampler_json,
            vstd::array::array_as_slice(&key_mag_filter),
            GL_LINEAR,
        ) {
            Ok(v) => v,
            Err(e) => {
                return Err(e);
            },
        };
        let min: u32 = match opt_u32_member(
            sampler_json,
            vstd::array::array_as_slice(&key_min_filter),
            GL_LINEAR_MIPMAP_LINEAR,
        ) {
            Ok(v) => v,
            Err(e) => {
                return Err(e);
            },
        };
        let wrap_s: u32 = match opt_u32_member(
            sampler_json,
            vstd::array::array_as_slice(&key_wrap_s),
            GL_REPEAT,
        ) {
            Ok(v) => v,
            Err(e) => {
                return Err(e);
            },
        };
        let wrap_t: u32 = match opt_u32_member(
            sampler_json,
            vstd::array::array_as_slice(&key_wrap_t),
            GL_REPEAT,
        ) {
            Ok(v) => v,
            Err(e) => {
                return Err(e);
            },
        };
        ctx.push_cmd(GlCmd::SamplerParameter {
            sampler,
            parameter: GL_TEXTURE_MAG_FILTER,
            value: mag,
        });
        ctx.push_cmd(GlCmd::SamplerParameter {
            sampler,
            parameter: GL_TEXTURE_MIN_FILTER,
            value: min,
        });
        ctx.push_cmd(GlCmd::SamplerParameter {
            sampler,
            parameter: GL_TEXTURE_WRAP_S,
            value: wrap_s,
        });
        ctx.push_cmd(GlCmd::SamplerParameter {
            sampler,
            parameter: GL_TEXTURE_WRAP_T,
            value: wrap_t,
        });
        sj = sj + 1;
    }
    Ok(gl_samplers)
}

/// Loads a scene description: parses the document, uploads its buffers,
/// builds the scene/node/mesh/primitive tables and one vertex array per
/// primitive, copies all index data into one dedicated arena-backed
/// buffer, decides each image's color-versus-linear role, decodes and
/// uploads the used images with full mipmap chains, builds samplers, and
/// packs material factors into a shared uniform buffer.  Any malformed
/// input fails with a descriptive error and a well-formed asset is never
/// returned un-validated: on success the asset satisfies its invariant,
/// which the traversal relies on.
#[verifier::rlimit(100)]
#[verifier::loop_isolation(false)]
pub fn load_gltf(
    ctx: &mut GlCtx,
    document: &[u8],
    resources: &Vec<(Vec<u8>, Vec<u8>)>,
) -> (r: Result<Gltf, LoadError>)
    ensures
        r matches Ok(g) ==> g.wf(),
        crate::json::spec_parse_json(document@) is None <==> (r is Err && r->Err_0
            == LoadError::JsonSyntax),
        r matches Ok(g) ==> (crate::json::spec_parse_json(document@) matches Some(model) && {
            &&& spec_get(model, key_buffers()) matches Some(bm) && bm matches Jv::Arr(bs)
                && (forall|b: int|
                0 <= b < bs.len() ==> buffer_matches(#[trigger] bs[b], b, resources@))
            &&& spec_get(model, key_scenes()) matches Some(sm) && sm matches Jv::Arr(ss)
                && g.scenes@.len() == ss.len() && (forall|i: int|
                0 <= i < ss.len() ==> scene_matches(#[trigger] ss[i], g.scenes@[i]))
            &&& spec_get(model, key_nodes()) matches Some(nm) && nm matches Jv::Arr(ns)
                && g.nodes@.len() == ns.len() && (forall|i: int|
                0 <= i < ns.len() ==> node_matches(#[trigger] ns[i], g.nodes@[i]))
            &&& spec_get(model, key_accessors()) matches Some(am) && am matches Jv::Arr(accs)
                && spec_get(model, key_buffer_views()) matches Some(vm) && vm matches Jv::Arr(
                vws,
            ) && spec_get(model, key_meshes()) matches Some(mm) && mm matches Jv::Arr(ms)
                && g.meshes@.len() == ms.len() && (forall|m: int|
                0 <= m < ms.len() ==> mesh_prims_match(
                    #[trigger] ms[m],
                    g.meshes@[m],
                    g.primitives@,
                    accs,
                    vws,
                ))
            &&& (forall|p: int, q: int|
                0 <= p < g.primitives@.len() && 0 <= q < g.primitives@.len() ==> (
                #[trigger] g.primitives@[p]).draw_call.index_buffer == (
                #[trigger] g.primitives@[q]).draw_call.index_buffer)
            &&& (forall|k: int|
                0 <= k < g.materials@.len() ==> (#[trigger] g.materials@[k]).ubo_size == 48
                    && g.materials@[k].ubo_offset == 48 * k)
            &&& (forall|k: int, l: int|
                0 <= k < g.materials@.len() && 0 <= l < g.materials@.len() ==> (
                #[trigger] g.materials@[k]).ubo_buffer == (#[trigger] g.materials@[l]).ubo_buffer)
            &&& spec_get(model, key_materials()) matches Some(mam) && mam matches Jv::Arr(mas)
                && spec_get(model, key_textures()) matches Some(txm) && txm matches Jv::Arr(txs)
                && spec_get(model, key_images()) matches Some(imm) && imm matches Jv::Arr(ims)
                && srgb_roles_consistent(mas, txs, ims.len() as int)
        }),
        r matches Ok(g) ==> g.gl_vaos@.len() == g.primitives@.len(),
        r matches Ok(g) ==> forall|p: int|
            0 <= p < g.primitives@.len() ==> (#[trigger] g.primitives@[p]).draw_call.front_face
                == crate::commands::Winding::CounterClockwise,
        r matches Ok(g) ==> (crate::json::spec_parse_json(document@) matches Some(model) && {
            &&& Some(g.scenes@.len() as int) == spec_member_len(model, key_scenes())
            &&& Some(g.nodes@.len() as int) == spec_member_len(model, key_nodes())
            &&& Some(g.meshes@.len() as int) == spec_member_len(model, key_meshes())
            &&& Some(g.materials@.len() as int) == spec_member_len(model, key_materials())
            &&& match spec_get(model, key_scene()) {
                Some(sv) => Some(g.scene as int) == spec_usize_of(sv),
                None => false,
            }
        }),
{
    let doc: Json = match crate::json::parse_json(document) {
        Ok(d) => d,
        Err(e) => {
            return Err(e);
        },
    };
    let key_bufs_arr: [u8; 7] = [98, 117, 102, 102, 101, 114, 115];
    let key_uri_arr: [u8; 3] = [117, 114, 105];
    let key_blen_arr: [u8; 10] = [98, 121, 116, 101, 76, 101, 110, 103, 116, 104];
    let key_bs: [u8; 10] = [98, 121, 116, 101, 83, 116, 114, 105, 100, 101];
    let key_bo: [u8; 10] = [98, 121, 116, 101, 79, 102, 102, 115, 101, 116];
    let key_buf: [u8; 6] = [98, 117, 102, 102, 101, 114];

    // Buffers: resolve each one's bytes from the named resource (the
    // implicit first buffer of a combined-binary asset resolves to the
    // resource with the empty name), check the declared length, and upload.
    proof {
        assert(key_bufs_arr@ =~= key_buffers());
        assert(key_uri_arr@ =~= key_uri());
        assert(key_blen_arr@ =~= key_byte_length());
    }
    let buffers_json: &Vec<Json> = match doc.get(vstd::array::array_as_slice(&key_bufs_arr)) {
        Some(Json::Arr(items)) => items,
        _ => {
            return Err(LoadError::Structure);
        },
    };
    proof {
        crate::json::lemma_jv_seq(buffers_json@);
    }
    let ghost buffers_model = crate::json::jv_seq(buffers_json@);
    let mut buffer_handles: Vec<u64> = Vec::new();
    let mut buffer_data: Vec<Vec<u8>> = Vec::new();
    let mut bi: usize = 0;
    while bi < buffers_json.len()
        invariant
            0 <= bi <= buffers_json@.len(),
            buffer_data@.len() == buffer_handles@.len(),
            forall|b: int|
                0 <= b < bi ==> buffer_matches(#[trigger] buffers_model[b], b, resources@),
        decreases buffers_json@.len() - bi,
    {
        let buffer: &Json = &buffers_json[bi];
        let empty_name: [u8; 0] = [];
        let data_index: Option<usize> = match buffer.get(vstd::array::array_as_slice(&key_uri_arr)) {
            Some(u) => match u {
                Json::Str(name) => find_resource(resources, name.as_slice()),
                _ => {
                    return Err(LoadError::Structure);
                },
            },
            None => {
                if bi != 0 {
                    return Err(LoadError::Structure);
                }
                find_resource(resources, vstd::array::array_as_slice(&empty_name))
            },
        };
        let data_index: usize = match data_index {
            Some(i) => i,
            None => {
                return Err(LoadError::UnresolvedBuffer);
            },
        };
        let byte_length: usize = match buffer.get(vstd::array::array_as_slice(&key_blen_arr)) {
            Some(x) => match take_usize(x) {
                Ok(v) => v,
                Err(e) => {
                    return Err(e);
                },
            },
            None => {
                return Err(LoadError::Structure);
            },
        };
        let bytes: Vec<u8> = copy_bytes(resources[data_index].1.as_slice());
        if byte_length != bytes.len() {
            return Err(LoadError::BufferLengthMismatch);
        }
        let handle: u64 = ctx.gen_name();
        ctx.push_cmd(GlCmd::CreateBuffer { buffer: handle });
        ctx.push_cmd(GlCmd::BindBuffer {
            target: crate::commands::BufferTarget::Array,
            buffer: handle,
        });
        ctx.push_cmd(GlCmd::BufferData {
            target: crate::commands::BufferTarget::Array,
            size: byte_length,
            usage: crate::commands::BufferUsage::StaticRead,
        });
        ctx.push_cmd(GlCmd::BufferSubData {
            target: crate::commands::BufferTarget::Array,
            offset: 0,
            data: copy_bytes(bytes.as_slice()),
        });
        buffer_handles.push(handle);
        buffer_data.push(bytes);
        proof {
            let bv = buffers_model[bi as int];
            let ri = data_index as int;
            assert(0 <= ri < resources@.len());
            assert(resources@[ri].1@.len() == byte_length);
            assert(match spec_get(bv, key_uri()) {
                Some(u) => u matches Jv::Str(nm) && resources@[ri].0@ == nm,
                None => bi == 0 && resources@[ri].0@ == Seq::<u8>::empty(),
            });
            assert(match spec_get(bv, key_byte_length()) {
                Some(x) => spec_usize_of(x) == Some(resources@[ri].1@.len() as int),
                None => false,
            });
            assert(buffer_matches(bv, bi as int, resources@));
        }
        bi = bi + 1;
    }
    ctx.push_cmd(GlCmd::BindBuffer { target: crate::commands::BufferTarget::Array, buffer: 0 });

    // Scene and node tables.
    let key_sc: [u8; 6] = [115, 99, 101, 110, 101, 115];
    let key_s: [u8; 5] = [115, 99, 101, 110, 101];
    let key_n: [u8; 5] = [110, 111, 100, 101, 115];
    proof {
        assert(key_sc@ =~= key_scenes());
        assert(key_s@ =~= key_scene());
        assert(key_n@ =~= key_nodes());
    }
    let key_children: [u8; 8] = [99, 104, 105, 108, 100, 114, 101, 110];
    let key_mesh: [u8; 4] = [109, 101, 115, 104];
    let scenes_json: &Vec<Json> = match doc.get(vstd::array::array_as_slice(&key_sc)) {
        Some(Json::Arr(items)) => items,
        _ => {
            return Err(LoadError::Structure);
        },
    };
    let mut scenes: Vec<crate::gltf::Scene> = Vec::new();
    let mut si: usize = 0;
    proof {
        crate::json::lemma_jv_seq(scenes_json@);
    }
    let ghost scenes_model = crate::json::jv_seq(scenes_json@);
    while si < scenes_json.len()
        invariant
            0 <= si <= scenes_json@.len(),
            scenes@.len() == si,
            forall|k: int| 0 <= k < si ==> scene_matches(#[trigger] scenes_model[k], scenes@[k]),
        decreases scenes_json@.len() - si,
    {
        let node_indices: Vec<usize> = match scenes_json[si].get(
            vstd::array::array_as_slice(&key_n),
        ) {
            Some(x) => match take_usize_array(x) {
                Ok(v) => v,
                Err(e) => {
                    return Err(e);
                },
            },
            None => {
                return Err(LoadError::Structure);
            },
        };
        scenes.push(crate::gltf::Scene { node_indices });
        proof {
            assert(scene_matches(scenes_model[si as int], scenes@[si as int]));
        }
        si = si + 1;
    }
    let scene: usize = match doc.get(vstd::array::array_as_slice(&key_s)) {
        Some(x) => match take_usize(x) {
            Ok(v) => v,
            Err(e) => {
                return Err(e);
            },
        },
        None => {
            return Err(LoadError::Structure);
        },
    };
    let nodes_json: &Vec<Json> = match doc.get(vstd::array::array_as_slice(&key_n)) {
        Some(Json::Arr(items)) => items,
        _ => {
            return Err(LoadError::Structure);
        },
    };
    let mut nodes: Vec<crate::gltf::Node> = Vec::new();
    let mut ni: usize = 0;
    proof {
        crate::json::lemma_jv_seq(nodes_json@);
    }
    let ghost nodes_model = crate::json::jv_seq(nodes_json@);
    while ni < nodes_json.len()
        invariant
            0 <= ni <= nodes_json@.len(),
            nodes@.len() == ni,
            forall|k: int| 0 <= k < ni ==> node_matches(#[trigger] nodes_model[k], nodes@[k]),
        decreases nodes_json@.len() - ni,
    {
        let node: &Json = &nodes_json[ni];
        let child_node_indices: Vec<usize> = match node.get(
            vstd::array::array_as_slice(&key_children),
        ) {
            Some(x) => match take_usize_array(x) {
                Ok(v) => v,
                Err(e) => {
                    return Err(e);
                },
            },
            None => Vec::new(),
        };
        let mesh_index: Option<usize> = match node.get(vstd::array::array_as_slice(&key_mesh)) {
            Some(x) => match take_usize(x) {
                Ok(v) => Some(v),
                Err(e) => {
                    return Err(e);
                },
            },
            None => None,
        };
        let transform: Mat = match node_transform(node) {
            Ok(m) => m,
            Err(e) => {
                return Err(e);
            },
        };
        nodes.push(crate::gltf::Node { mesh_index, child_node_indices, transform });
        proof {
            assert(node_transform_matches(nodes_model[ni as int], transform.view_bits()));
            assert(node_matches(nodes_model[ni as int], nodes@[ni as int]));
        }
        ni = ni + 1;
    }

    // Meshes and primitives: one vertex array object per primitive,
    // configured once here; all index data is copied into one dedicated
    // index buffer arena regardless of source-buffer fragmentation.
    let key_accessors: [u8; 9] = [97, 99, 99, 101, 115, 115, 111, 114, 115];
    let key_buffer_views: [u8; 11] = [98, 117, 102, 102, 101, 114, 86, 105, 101, 119, 115];
    let key_meshes_arr: [u8; 6] = [109, 101, 115, 104, 101, 115];
    let key_primitives: [u8; 10] = [112, 114, 105, 109, 105, 116, 105, 118, 101, 115];
    let key_material: [u8; 8] = [109, 97, 116, 101, 114, 105, 97, 108];
    let key_mode: [u8; 4] = [109, 111, 100, 101];
    let key_attributes: [u8; 10] = [97, 116, 116, 114, 105, 98, 117, 116, 101, 115];
    let key_indices: [u8; 7] = [105, 110, 100, 105, 99, 101, 115];
    let name_position: [u8; 8] = [80, 79, 83, 73, 84, 73, 79, 78];
    let name_normal: [u8; 6] = [78, 79, 82, 77, 65, 76];
    let name_tangent: [u8; 7] = [84, 65, 78, 71, 69, 78, 84];
    let name_texcoord0: [u8; 10] = [84, 69, 88, 67, 79, 79, 82, 68, 95, 48];
    let name_texcoord1: [u8; 10] = [84, 69, 88, 67, 79, 79, 82, 68, 95, 49];
    let name_color0: [u8; 7] = [67, 79, 76, 79, 82, 95, 48];
    let accessors_json: &Vec<Json> = match doc.get(vstd::array::array_as_slice(&key_accessors)) {
        Some(Json::Arr(items)) => items,
        _ => {
            return Err(LoadError::Structure);
        },
    };
    let buffer_views_json: &Vec<Json> = match doc.get(
        vstd::array::array_as_slice(&key_buffer_views),
    ) {
        Some(Json::Arr(items)) => items,
        _ => {
            return Err(LoadError::Structure);
        },
    };
    let meshes_json: &Vec<Json> = match doc.get(vstd::array::array_as_slice(&key_meshes_arr)) {
        Some(Json::Arr(items)) => items,
        _ => {
            return Err(LoadError::Structure);
        },
    };
    let mut index_arena = crate::bumpalloc_buffer::BumpAllocatedBuffer::new(
        ctx,
        crate::commands::BufferTarget::ElementArray,
        crate::commands::BufferUsage::StaticDraw,
    );
    let ghost accs_model = crate::json::jv_seq(accessors_json@);
    let ghost views_model = crate::json::jv_seq(buffer_views_json@);
    let ghost meshes_model = crate::json::jv_seq(meshes_json@);
    let ghost index_arena_buffer = index_arena.buffer_spec();
    let mut gl_vaos: Vec<u64> = Vec::new();
    let mut meshes: Vec<crate::gltf::Mesh> = Vec::new();
    let mut primitives: Vec<crate::gltf::Primitive> = Vec::new();
    let mut mi: usize = 0;
    proof {
        crate::json::lemma_jv_seq(meshes_json@);
    }
    while mi < meshes_json.len()
        invariant
            0 <= mi <= meshes_json@.len(),
            meshes@.len() == mi,
            gl_vaos@.len() == primitives@.len(),
            forall|p: int|
                0 <= p < primitives@.len() ==> (#[trigger] primitives@[p]).draw_call.front_face
                    == crate::commands::Winding::CounterClockwise,
            forall|p: int|
                0 <= p < primitives@.len() ==> (#[trigger] primitives@[p]).draw_call.index_buffer
                    == index_arena_buffer,
            forall|m: int|
                0 <= m < mi ==> mesh_prims_match(
                    #[trigger] meshes_model[m],
                    meshes@[m],
                    primitives@,
                    accs_model,
                    views_model,
                ),
            index_arena.wf(),
            index_arena.buffer_spec() == index_arena_buffer,
        decreases meshes_json@.len() - mi,
    {
        let prims_json: &Vec<Json> = match meshes_json[mi].get(
            vstd::array::array_as_slice(&key_primitives),
        ) {
            Some(Json::Arr(items)) => items,
            _ => {
                return Err(LoadError::Structure);
            },
        };
        proof {
            crate::json::lemma_jv_seq(prims_json@);
        }
        let ghost prims_model = crate::json::jv_seq(prims_json@);
        let mut primitive_indices: Vec<usize> = Vec::new();
        let mut pi: usize = 0;
        while pi < prims_json.len()
            invariant
                0 <= pi <= prims_json@.len(),
                gl_vaos@.len() == primitives@.len(),
                forall|p: int|
                    0 <= p < primitives@.len() ==> (
                    #[trigger] primitives@[p]).draw_call.front_face
                        == crate::commands::Winding::CounterClockwise,
                forall|p: int|
                    0 <= p < primitives@.len() ==> (
                    #[trigger] primitives@[p]).draw_call.index_buffer == index_arena_buffer,
                forall|m: int|
                    0 <= m < mi ==> mesh_prims_match(
                        #[trigger] meshes_model[m],
                        meshes@[m],
                        primitives@,
                        accs_model,
                        views_model,
                    ),
                primitive_indices@.len() == pi,
                forall|k: int|
                    0 <= k < pi ==> (#[trigger] primitive_indices@[k]) < primitives@.len()
                        && primitive_matches(
                        prims_model[k],
                        primitives@[primitive_indices@[k] as int],
                        accs_model,
                        views_model,
                    ),
                index_arena.wf(),
                index_arena.buffer_spec() == index_arena_buffer,
            decreases prims_json@.len() - pi,
        {
            let prim: &Json = &prims_json[pi];
            let material_index: usize = match prim.get(
                vstd::array::array_as_slice(&key_material),
            ) {
                Some(x) => match take_usize(x) {
                    Ok(v) => v,
                    Err(e) => {
                        return Err(e);
                    },
                },
                None => {
                    return Err(LoadError::Structure);
                },
            };
            let mode_value: usize = match prim.get(vstd::array::array_as_slice(&key_mode)) {
                Some(x) => match take_usize(x) {
                    Ok(v) => v,
                    Err(e) => {
                        return Err(e);
                    },
                },
                None => GL_TRIANGLES as usize,
            };
            if mode_value > u32::MAX as usize {
                return Err(LoadError::BadNumber);
            }
            let mode: u32 = mode_value as u32;
            let vao: u64 = ctx.gen_name();
            gl_vaos.push(vao);
            ctx.push_cmd(GlCmd::CreateVertexArray { vao });
            ctx.push_cmd(GlCmd::BindVertexArray { vao });
            let attributes: &Json = match prim.get(vstd::array::array_as_slice(&key_attributes))
            {
                Some(x) => x,
                None => {
                    return Err(LoadError::Structure);
                },
            };
            match attributes {
                Json::Obj(pairs) => {
                    let mut ai: usize = 0;
                    while ai < pairs.len()
                        invariant
                            0 <= ai <= pairs@.len(),
                        decreases pairs@.len() - ai,
                    {
                        let attr_name: &Vec<u8> = &pairs[ai].0;
                        let location: u32 = if crate::json::bytes_eq_pub(
                            attr_name,
                            vstd::array::array_as_slice(&name_position),
                        ) {
                            crate::gltf::ATTR_LOC_POSITION
                        } else if crate::json::bytes_eq_pub(
                            attr_name,
                            vstd::array::array_as_slice(&name_normal),
                        ) {
                            crate::gltf::ATTR_LOC_NORMAL
                        } else if crate::json::bytes_eq_pub(
                            attr_name,
                            vstd::array::array_as_slice(&name_tangent),
                        ) {
                            crate::gltf::ATTR_LOC_TANGENT
                        } else if crate::json::bytes_eq_pub(
                            attr_name,
                            vstd::array::array_as_slice(&name_texcoord0),
                        ) {
                            crate::gltf::ATTR_LOC_TEXCOORD_0
                        } else if crate::json::bytes_eq_pub(
                            attr_name,
                            vstd::array::array_as_slice(&name_texcoord1),
                        ) {
                            crate::gltf::ATTR_LOC_TEXCOORD_1
                        } else if crate::json::bytes_eq_pub(
                            attr_name,
                            vstd::array::array_as_slice(&name_color0),
                        ) {
                            crate::gltf::ATTR_LOC_COLOR_0
                        } else {
                            return Err(LoadError::UnsupportedAttribute);
                        };
                        let accessor_index: usize = match take_usize(&pairs[ai].1) {
                            Ok(v) => v,
                            Err(e) => {
                                return Err(e);
                            },
                        };
                        let info: AccessorInfo = match unpack_accessor(
                            accessors_json,
                            buffer_views_json,
                            accessor_index,
                        ) {
                            Ok(v) => v,
                            Err(e) => {
                                return Err(e);
                            },
                        };
                        if info.buffer >= buffer_handles.len() {
                            return Err(LoadError::IndexOutOfBounds);
                        }
                        ctx.push_cmd(GlCmd::EnableVertexAttribArray { location });
                        ctx.push_cmd(GlCmd::BindBuffer {
                            target: crate::commands::BufferTarget::Array,
                            buffer: buffer_handles[info.buffer],
                        });
                        ctx.push_cmd(GlCmd::VertexAttribPointer {
                            location,
                            size: info.size,
                            component_type: info.component_type,
                            normalized: info.normalized,
                            stride: 0,
                            offset: info.byte_offset,
                        });
                        ai = ai + 1;
                    }
                },
                _ => {
                    return Err(LoadError::Structure);
                },
            }
            let disabled_all_ones_vertex_attribute: Option<u32> = primitive_color_flag(
                attributes,
            );
            let indices_accessor: usize = match prim.get(
                vstd::array::array_as_slice(&key_indices),
            ) {
                Some(x) => match take_usize(x) {
                    Ok(v) => v,
                    Err(e) => {
                        return Err(e);
                    },
                },
                None => {
                    return Err(LoadError::Structure);
                },
            };
            let ia: AccessorInfo = match unpack_accessor(
                accessors_json,
                buffer_views_json,
                indices_accessor,
            ) {
                Ok(v) => v,
                Err(e) => {
                    return Err(e);
                },
            };
            let type_byte_size: u64 = if ia.component_type == GL_UNSIGNED_BYTE {
                1
            } else if ia.component_type == GL_UNSIGNED_SHORT {
                2
            } else if ia.component_type == GL_UNSIGNED_INT {
                4
            } else {
                return Err(LoadError::UnsupportedIndexType);
            };
            if ia.count > 0x7FFF_FFFF {
                return Err(LoadError::BadNumber);
            }
            let count64: u64 = ia.count as u64;
            let size64: u64 = ia.size as u64;
            proof {
                assert(count64 * size64 * type_byte_size <= 0x7FFF_FFFFu64 * 4u64 * 4u64)
                    by (nonlinear_arith)
                    requires
                        count64 <= 0x7FFF_FFFFu64,
                        size64 <= 4u64,
                        type_byte_size <= 4u64,
                        count64 >= 0,
                        size64 >= 0,
                        type_byte_size >= 0,
                ;
            }
            let index_byte_length64: u64 = count64 * size64 * type_byte_size;
            if index_byte_length64 > usize::MAX as u64 {
                return Err(LoadError::BadNumber);
            }
            let index_byte_length: usize = index_byte_length64 as usize;
            if ia.buffer >= buffer_data.len() {
                return Err(LoadError::IndexOutOfBounds);
            }
            if ia.byte_offset > usize::MAX - index_byte_length {
                return Err(LoadError::BadNumber);
            }
            let index_bytes: Vec<u8> = match copy_byte_range(
                &buffer_data[ia.buffer],
                ia.byte_offset,
                index_byte_length,
            ) {
                Ok(v) => v,
                Err(e) => {
                    return Err(e);
                },
            };
            if index_arena.size() > usize::MAX - index_bytes.len() {
                return Err(LoadError::BadNumber);
            }
            let (index_buffer, index_byte_offset) = index_arena.allocate_buffer(
                ctx,
                index_bytes.as_slice(),
            );
            let draw_call = crate::draw_calls::DrawCall {
                vao,
                mode,
                index_buffer,
                index_type: ia.component_type,
                index_byte_offset,
                index_count: ia.count,
                disabled_all_ones_vertex_attribute,
                front_face: crate::commands::Winding::CounterClockwise,
            };
            primitive_indices.push(primitives.len());
            primitives.push(crate::gltf::Primitive { material_index, draw_call });
            proof {
                assert(primitive_matches(
                    prims_model[pi as int],
                    primitives@[primitive_indices@[pi as int] as int],
                    accs_model,
                    views_model,
                ));
            }
            pi = pi + 1;
        }
        meshes.push(crate::gltf::Mesh { primitive_indices });
        proof {
            assert(mesh_prims_match(
                meshes_model[mi as int],
                meshes@[mi as int],
                primitives@,
                accs_model,
                views_model,
            ));
        }
        mi = mi + 1;
    }

    // Color-versus-linear role assignment: the slot an image is bound to
    // decides whether it is decoded as gamma-encoded color data or linear
    // data; one image claimed in both roles is ambiguous and fatal.
    let key_materials_arr: [u8; 9] = [109, 97, 116, 101, 114, 105, 97, 108, 115];
    proof {
        assert(key_materials_arr@ =~= key_materials());
        assert(key_meshes_arr@ =~= key_meshes());
    }
    let key_textures_arr: [u8; 8] = [116, 101, 120, 116, 117, 114, 101, 115];
    let key_images_arr: [u8; 6] = [105, 109, 97, 103, 101, 115];
    proof {
        assert(key_textures_arr@ =~= key_textures());
        assert(key_images_arr@ =~= key_images());
    }
    let key_pbr: [u8; 20] = [
        112, 98, 114, 77, 101, 116, 97, 108, 108, 105, 99, 82, 111, 117, 103, 104, 110, 101,
        115, 115,
    ];
    let key_base_color_texture: [u8; 16] = [
        98, 97, 115, 101, 67, 111, 108, 111, 114, 84, 101, 120, 116, 117, 114, 101,
    ];
    let key_mr_texture: [u8; 24] = [
        109, 101, 116, 97, 108, 108, 105, 99, 82, 111, 117, 103, 104, 110, 101, 115, 115, 84,
        101, 120, 116, 117, 114, 101,
    ];
    let key_normal_texture: [u8; 13] = [110, 111, 114, 109, 97, 108, 84, 101, 120, 116, 117,
        114, 101];
    let key_occlusion_texture: [u8; 16] = [
        111, 99, 99, 108, 117, 115, 105, 111, 110, 84, 101, 120, 116, 117, 114, 101,
    ];
    let key_emissive_texture: [u8; 15] = [
        101, 109, 105, 115, 115, 105, 118, 101, 84, 101, 120, 116, 117, 114, 101,
    ];
    let materials_json: &Vec<Json> = match doc.get(
        vstd::array::array_as_slice(&key_materials_arr),
    ) {
        Some(Json::Arr(items)) => items,
        _ => {
            return Err(LoadError::Structure);
        },
    };
    let textures_json: &Vec<Json> = match doc.get(vstd::array::array_as_slice(&key_textures_arr)) {
        Some(Json::Arr(items)) => items,
        _ => {
            return Err(LoadError::Structure);
        },
    };
    let images_json: &Vec<Json> = match doc.get(vstd::array::array_as_slice(&key_images_arr)) {
        Some(Json::Arr(items)) => items,
        _ => {
            return Err(LoadError::Structure);
        },
    };
    proof {
        crate::json::lemma_jv_seq(textures_json@);
        crate::json::lemma_jv_seq(images_json@);
    }
    let image_count: usize = images_json.len();
    let is_srgb: Vec<Option<bool>> = match assign_srgb_roles(
        materials_json,
        textures_json,
        image_count,
    ) {
        Ok(v) => v,
        Err(e) => {
            return Err(e);
        },
    };

    // Textures: one per image plus fixed one-pixel fallbacks (white, blue
    // for a flat normal, black, and mid-gray), used when a material omits
    // an optional slot.
    if image_count > usize::MAX - 4 {
        return Err(LoadError::BadNumber);
    }
    let mut gl_textures: Vec<u64> = Vec::new();
    let mut ti: usize = 0;
    while ti < image_count + 4
        invariant
            gl_textures@.len() == ti,
            0 <= ti <= image_count + 4,
            image_count + 4 <= usize::MAX,
        decreases image_count + 4 - ti,
    {
        let t: u64 = ctx.gen_name();
        ctx.push_cmd(GlCmd::CreateTexture { texture: t });
        gl_textures.push(t);
        ti = ti + 1;
    }
    let white_tex: u64 = gl_textures[image_count + 3];
    let blue_tex: u64 = gl_textures[image_count + 2];
    let black_tex: u64 = gl_textures[image_count + 1];
    let gray_tex: u64 = gl_textures[image_count];
    push_pixel_tex(ctx, white_tex, 255, 255, 255);
    push_pixel_tex(ctx, blue_tex, 0, 0, 255);
    push_pixel_tex(ctx, black_tex, 0, 0, 0);
    push_pixel_tex(ctx, gray_tex, 128, 128, 128);
    match decode_and_upload_images(
        ctx,
        images_json,
        &is_srgb,
        &gl_textures,
        &buffer_data,
        resources,
    ) {
        Ok(_) => {},
        Err(e) => {
            return Err(e);
        },
    }

    let gl_samplers: Vec<u64> = match build_samplers(ctx, &doc) {
        Ok(v) => v,
        Err(e) => {
            return Err(e);
        },
    };
    let default_sampler: u64 = gl_samplers[gl_samplers.len() - 1];

    // Materials: up to five texture-unit bindings, each falling back to
    // its fixed-color default texture, plus the scalar and vector factors
    // packed into a private region of a shared uniform buffer.
    let key_base_color_factor: [u8; 15] = [
        98, 97, 115, 101, 67, 111, 108, 111, 114, 70, 97, 99, 116, 111, 114,
    ];
    let key_metallic_factor: [u8; 14] = [
        109, 101, 116, 97, 108, 108, 105, 99, 70, 97, 99, 116, 111, 114,
    ];
    let key_roughness_factor: [u8; 15] = [
        114, 111, 117, 103, 104, 110, 101, 115, 115, 70, 97, 99, 116, 111, 114,
    ];
    let key_scale_member: [u8; 5] = [115, 99, 97, 108, 101];
    let key_strength: [u8; 8] = [115, 116, 114, 101, 110, 103, 116, 104];
    let key_emissive_factor: [u8; 14] = [
        101, 109, 105, 115, 115, 105, 118, 101, 70, 97, 99, 116, 111, 114,
    ];
    let mut uniform_arena = crate::bumpalloc_buffer::BumpAllocatedBuffer::new(
        ctx,
        crate::commands::BufferTarget::Uniform,
        crate::commands::BufferUsage::StaticDraw,
    );
    let mut materials: Vec<crate::gltf::Material> = Vec::new();
    let mut mk: usize = 0;
    proof {
        crate::json::lemma_jv_seq(materials_json@);
    }
    let ghost uniform_arena_buffer = uniform_arena.buffer_spec();
    while mk < materials_json.len()
        invariant
            0 <= mk <= materials_json@.len(),
            materials@.len() == mk,
            uniform_arena.wf(),
            uniform_arena.buffer_spec() == uniform_arena_buffer,
            uniform_arena.offset_spec() == 48 * mk,
            forall|k: int|
                0 <= k < mk ==> (#[trigger] materials@[k]).ubo_size == 48 && materials@[
                    k
                ].ubo_offset == 48 * k && materials@[k].ubo_buffer == uniform_arena_buffer,
            gl_samplers@.len() >= 1,
            gl_textures@.len() == image_count + 4,
            image_count + 4 <= usize::MAX,
        decreases materials_json@.len() - mk,
    {
        let material_json: &Json = &materials_json[mk];
        let mut factors = UniformBlockMaterial {
            base_color_factor: [F32_ONE_BITS, F32_ONE_BITS, F32_ONE_BITS, F32_ONE_BITS],
            metallic_factor: F32_ONE_BITS,
            roughness_factor: F32_ONE_BITS,
            normal_scale: F32_ONE_BITS,
            occlusion_strength: F32_ONE_BITS,
            emissive_factor: [0, 0, 0, 0],
        };
        let mut base_color_binding: (u64, u64) = (white_tex, default_sampler);
        let mut mr_binding: (u64, u64) = (white_tex, default_sampler);
        let mut normal_binding: (u64, u64) = (blue_tex, default_sampler);
        let mut occlusion_binding: (u64, u64) = (white_tex, default_sampler);
        let mut emissive_binding: (u64, u64) = (black_tex, default_sampler);
        match material_json.get(vstd::array::array_as_slice(&key_pbr)) {
            Some(pbr) => {
                match pbr.get(vstd::array::array_as_slice(&key_base_color_texture)) {
                    Some(info) => {
                        match unpack_texture_info(info, textures_json, &gl_textures,
                            &gl_samplers) {
                            Ok(b) => {
                                base_color_binding = b;
                            },
                            Err(e) => {
                                return Err(e);
                            },
                        }
                    },
                    None => {},
                }
                match pbr.get(vstd::array::array_as_slice(&key_mr_texture)) {
                    Some(info) => {
                        match unpack_texture_info(info, textures_json, &gl_textures,
                            &gl_samplers) {
                            Ok(b) => {
                                mr_binding = b;
                            },
                            Err(e) => {
                                return Err(e);
                            },
                        }
                    },
                    None => {},
                }
                match pbr.get(vstd::array::array_as_slice(&key_base_color_factor)) {
                    Some(f) => {
                        match take_number_array(f, 4) {
                            Ok(bits) => {
                                factors.base_color_factor = [bits[0], bits[1], bits[2],
                                    bits[3]];
                            },
                            Err(e) => {
                                return Err(e);
                            },
                        }
                    },
                    None => {},
                }
                match pbr.get(vstd::array::array_as_slice(&key_metallic_factor)) {
                    Some(f) => {
                        match take_f32_bits(f) {
                            Ok(bits) => {
                                factors.metallic_factor = bits;
                            },
                            Err(e) => {
                                return Err(e);
                            },
                        }
                    },
                    None => {},
                }
                match pbr.get(vstd::array::array_as_slice(&key_roughness_factor)) {
                    Some(f) => {
                        match take_f32_bits(f) {
                            Ok(bits) => {
                                factors.roughness_factor = bits;
                            },
                            Err(e) => {
                                return Err(e);
                            },
                        }
                    },
                    None => {},
                }
            },
            None => {},
        }
        match material_json.get(vstd::array::array_as_slice(&key_normal_texture)) {
            Some(info) => {
                match unpack_texture_info(info, textures_json, &gl_textures, &gl_samplers) {
                    Ok(b) => {
                        normal_binding = b;
                    },
                    Err(e) => {
                        return Err(e);
                    },
                }
                match info.get(vstd::array::array_as_slice(&key_scale_member)) {
                    Some(f) => {
                        match take_f32_bits(f) {
                            Ok(bits) => {
                                factors.normal_scale = bits;
                            },
                            Err(e) => {
                                return Err(e);
                            },
                        }
                    },
                    None => {},
                }
            },
            None => {},
        }
        match material_json.get(vstd::array::array_as_slice(&key_occlusion_texture)) {
            Some(info) => {
                match unpack_texture_info(info, textures_json, &gl_textures, &gl_samplers) {
                    Ok(b) => {
                        occlusion_binding = b;
                    },
                    Err(e) => {
                        return Err(e);
                    },
                }
                match info.get(vstd::array::array_as_slice(&key_strength)) {
                    Some(f) => {
                        match take_f32_bits(f) {
                            Ok(bits) => {
                                factors.occlusion_strength = bits;
                            },
                            Err(e) => {
                                return Err(e);
                            },
                        }
                    },
                    None => {},
                }
            },
            None => {},
        }
        match material_json.get(vstd::array::array_as_slice(&key_emissive_texture)) {
            Some(info) => {
                match unpack_texture_info(info, textures_json, &gl_textures, &gl_samplers) {
                    Ok(b) => {
                        emissive_binding = b;
                    },
                    Err(e) => {
                        return Err(e);
                    },
                }
            },
            None => {},
        }
        match material_json.get(vstd::array::array_as_slice(&key_emissive_factor)) {
            Some(f) => {
                match take_number_array(f, 3) {
                    Ok(bits) => {
                        factors.emissive_factor = [bits[0], bits[1], bits[2], F32_ONE_BITS];
                    },
                    Err(e) => {
                        return Err(e);
                    },
                }
            },
            None => {},
        }
        let packed: Vec<u8> = pack_material(&factors);
        if uniform_arena.size() > usize::MAX - packed.len() {
            return Err(LoadError::BadNumber);
        }
        let (ubo_buffer, ubo_offset) = uniform_arena.allocate_buffer(ctx, packed.as_slice());
        let mut bindings: Vec<crate::gltf::TextureBinding> = Vec::new();
        bindings.push(crate::gltf::TextureBinding {
            unit: crate::gltf::TEX_UNIT_BASE_COLOR,
            texture: base_color_binding.0,
            sampler: base_color_binding.1,
        });
        bindings.push(crate::gltf::TextureBinding {
            unit: crate::gltf::TEX_UNIT_METALLIC_ROUGHNESS,
            texture: mr_binding.0,
            sampler: mr_binding.1,
        });
        bindings.push(crate::gltf::TextureBinding {
            unit: crate::gltf::TEX_UNIT_NORMAL,
            texture: normal_binding.0,
            sampler: normal_binding.1,
        });
        bindings.push(crate::gltf::TextureBinding {
            unit: crate::gltf::TEX_UNIT_OCCLUSION,
            texture: occlusion_binding.0,
            sampler: occlusion_binding.1,
        });
        bindings.push(crate::gltf::TextureBinding {
            unit: crate::gltf::TEX_UNIT_EMISSIVE,
            texture: emissive_binding.0,
            sampler: emissive_binding.1,
        });
        materials.push(crate::gltf::Material {
            bindings,
            ubo_buffer,
            ubo_offset,
            ubo_size: 48,
        });
        mk = mk + 1;
    }

    // Assemble, witness the forest, validate.
    let mut gl_buffers: Vec<u64> = buffer_handles;
    gl_buffers.push(index_arena.get_buffer());
    gl_buffers.push(uniform_arena.get_buffer());
    let node_levels: Vec<usize> = match build_node_levels(&nodes) {
        Ok(v) => v,
        Err(e) => {
            return Err(e);
        },
    };
    let loaded = Gltf {
        scene,
        scenes,
        nodes,
        meshes,
        materials,
        primitives,
        gl_vaos,
        gl_buffers,
        gl_textures,
        gl_samplers,
        node_levels,
    };
    match validate_gltf(&loaded) {
        Ok(_) => Ok(loaded),
        Err(e) => Err(e),
    }
}

/// Uploads a fixed one-by-one fallback texture of the given color.
fn push_pixel_tex(ctx: &mut GlCtx, texture: u64, red: u8, green: u8, blue: u8)
{
    ctx.push_cmd(GlCmd::BindTexture { texture });
    let mut pixels: Vec<u8> = Vec::new();
    pixels.push(red);
    pixels.push(green);
    pixels.push(blue);
    pixels.push(255);
    ctx.push_cmd(GlCmd::TexImage2D {
        level: 0,
        internal_format: GL_RGBA,
        width: 1,
        height: 1,
        format: GL_RGBA,
        component_type: GL_UNSIGNED_BYTE,
        data: pixels,
    });
}

/// An optional integer member that must fit the driver's 32-bit
/// enumerants, with a default.
fn opt_u32_member(v: &Json, key: &[u8], dflt: u32) -> (r: Result<u32, LoadError>)
    ensures
        r is Err ==> (r->Err_0 == LoadError::BadNumber || r->Err_0 == LoadError::Structure),
{
    match v.get(key) {
        Some(x) => {
            let value: usize = match take_usize(x) {
                Ok(value) => value,
                Err(e) => {
                    return Err(e);
                },
            };
            if value > u32::MAX as usize {
                return Err(LoadError::BadNumber);
            }
            Ok(value as u32)
        },
        None => Ok(dflt),
    }
}

} // verus!
