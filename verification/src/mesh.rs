//! Plain-value model of an imported mesh document.
//!
//! A loaded model is held as the data the rendering logic actually reads: a
//! node graph with decomposed placements, per-mesh primitive records with
//! index metadata, the texture references of each material, and the raw
//! binary buffers. Scalars that the graphics backend consumes as floating
//! point are carried as their raw bit patterns.

use vstd::prelude::*;

verus! {

/// A three-component vector, each component the bit pattern of a 32-bit
/// floating-point number. The logic never does arithmetic on these; it hands
/// them through to the backend.
#[derive(Clone, Copy, PartialEq, Eq, Structural, Debug)]
pub struct Vec3Bits {
    pub x: u32,
    pub y: u32,
    pub z: u32,
}

/// How wide one vertex index of a primitive is. `Other` stands for an
/// accessor type that is not an unsigned index width at all; the renderer
/// rejects it like 8-bit indices.
#[derive(Clone, Copy, PartialEq, Eq, Structural, Debug)]
pub enum IndexKind {
    U8,
    U16,
    U32,
    Other,
}

/// One drawable primitive of a mesh: how many indices to draw, how wide they
/// are (`None` when the primitive has no index accessor), and the document
/// material it references, if any.
#[derive(Clone, Copy, PartialEq, Eq, Structural, Debug)]
pub struct MeshPrim {
    pub index_count: usize,
    pub indices: Option<IndexKind>,
    pub material: Option<usize>,
}

/// The primitives of one mesh of the document, in document order.
#[derive(Clone, Debug)]
pub struct MeshDef {
    pub primitives: Vec<MeshPrim>,
}

/// One node of the document's scene graph: its decomposed local placement and
/// the mesh it instantiates, if any.
#[derive(Clone, Copy, PartialEq, Eq, Structural, Debug)]
pub struct MeshNode {
    pub translation: Vec3Bits,
    pub scale: Vec3Bits,
    pub mesh: Option<usize>,
}

/// The texture references of one document material: URIs of its base-color
/// and normal images, where the document names them by URI.
#[derive(Clone, Debug)]
pub struct MaterialTexRefs {
    pub base_color: Option<String>,
    pub normal: Option<String>,
}

/// An imported mesh document, reduced to what the renderer and the asset
/// logic read. Never mutated once loaded into its registry slot.
#[derive(Clone, Debug)]
pub struct MeshDoc {
    pub nodes: Vec<MeshNode>,
    pub meshes: Vec<MeshDef>,
    pub materials: Vec<MaterialTexRefs>,
    pub buffers: Vec<Vec<u8>>,
}

impl MeshDoc {
    /// A document with nothing in it.
    pub fn empty() -> (d: MeshDoc)
        ensures
            d.nodes@.len() == 0,
            d.meshes@.len() == 0,
            d.materials@.len() == 0,
            d.buffers@.len() == 0,
    {
        MeshDoc { nodes: Vec::new(), meshes: Vec::new(), materials: Vec::new(), buffers: Vec::new() }
    }
}

} // verus!
