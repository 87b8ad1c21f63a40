//! The GPU-resource and draw-submission core of a small real-time renderer.
//!
//! The crate loads a glTF scene description (a JSON document plus named
//! binary resources) into driver-side objects, and batches the scene's
//! drawable instances into a minimal set of instanced draw submissions.
//! Driver work is recorded as data (see [`commands`]): the embedding program
//! replays the recorded command stream against the real graphics driver.

pub mod bumpalloc_buffer;
pub mod commands;
pub mod draw_calls;
pub mod gltf;
pub mod images;
pub mod json;
pub mod loader;
pub mod mat;
pub mod numbers;
pub mod program;
pub mod renderer;

use vstd::prelude::*;

verus! {

/// A fatal problem found while loading an asset.
#[derive(Clone, PartialEq, Eq, Structural, Debug)]
pub enum LoadError {
    /// The document is not well-formed JSON.
    JsonSyntax,
    /// A required key is missing or a value has the wrong JSON type.
    Structure,
    /// A buffer's `uri` names a resource that was not supplied.
    UnresolvedBuffer,
    /// A declared buffer byte length does not match the supplied bytes.
    BufferLengthMismatch,
    /// An index (node, mesh, accessor, ...) points outside its table.
    IndexOutOfBounds,
    /// A buffer view declares a `byteStride`, which is unsupported.
    InterleavedStride,
    /// A vertex attribute semantic this renderer does not know.
    UnsupportedAttribute,
    /// An accessor `type` other than SCALAR/VEC2/VEC3/VEC4.
    UnsupportedAccessorType,
    /// An index accessor component type other than the three unsigned ones.
    UnsupportedIndexType,
    /// One image is referenced both as color data and as linear data.
    SrgbConflict,
    /// An image's `uri` names a resource that was not supplied.
    UnresolvedImage,
    /// An image could not be decoded, or decoded to an unsupported format.
    UnsupportedImage,
    /// A number is out of range for its use, or not an integer where one is
    /// required.
    BadNumber,
    /// A texture reference uses a texture coordinate set other than 0.
    UnsupportedTexCoord,
    /// The node hierarchy is not a forest of trees.
    NotATree,
}

impl LoadError {
    /// A short human-readable description.
    pub fn message(&self) -> String {
        match self {
            LoadError::JsonSyntax => "the document is not well-formed JSON".to_string(),
            LoadError::Structure => "a required key is missing or has the wrong type".to_string(),
            LoadError::UnresolvedBuffer => "a buffer uri names an unknown resource".to_string(),
            LoadError::BufferLengthMismatch => "a buffer's declared length is wrong".to_string(),
            LoadError::IndexOutOfBounds => "an index points outside its table".to_string(),
            LoadError::InterleavedStride => "byteStride is not supported".to_string(),
            LoadError::UnsupportedAttribute => "unsupported attribute semantic".to_string(),
            LoadError::UnsupportedAccessorType => "unexpected accessor type".to_string(),
            LoadError::UnsupportedIndexType => "invalid index buffer type".to_string(),
            LoadError::SrgbConflict => "an image is used both as srgb and not".to_string(),
            LoadError::UnresolvedImage => "an image uri names an unknown resource".to_string(),
            LoadError::UnsupportedImage => "an image could not be decoded".to_string(),
            LoadError::BadNumber => "a number is out of range for its use".to_string(),
            LoadError::UnsupportedTexCoord => "only texture coordinate set 0 is supported"
                .to_string(),
            LoadError::NotATree => "the node hierarchy is not a tree".to_string(),
        }
    }
}

} // verus!
