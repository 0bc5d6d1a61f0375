//! Importing a mesh document from fetched bytes.
//!
//! Parsing and reading the document is the gltf crate's work and stands
//! behind trusted declarations; everything it hands over is converted to the
//! plain values of [`crate::mesh`], and the logic over those values — above
//! all assembling and validating the binary buffers — is verified here. The
//! fetching of URI-addressed buffers is the host's: it happens between
//! [`parse_mesh_source`] and [`assemble_buffers`].

use vstd::prelude::*;

use crate::mesh::{IndexKind, MaterialTexRefs, MeshDef, MeshDoc, MeshNode, MeshPrim, Vec3Bits};

verus! {

#[verifier::external_type_specification]
#[verifier::external_body]
pub struct ExGltfDocument(gltf::Document);

#[verifier::external_type_specification]
#[verifier::external_body]
pub struct ExGltfError(gltf::Error);

/// Where one binary buffer of a document comes from: a URI the host must
/// fetch, or the binary chunk packed into the file itself.
pub enum BufSource {
    Uri(String),
    Bin,
}

/// One buffer the document declares: its source and the byte length the
/// document promises.
pub struct BufferSpec {
    pub source: BufSource,
    pub length: usize,
}

/// Relies on `gltf::Document::buffers`, `Buffer::source` and
/// `Buffer::length`: lists each buffer's source and declared length, in
/// buffer order.
#[verifier::external_body]
fn doc_buffer_specs(doc: &gltf::Document) -> Vec<BufferSpec> {
    doc.buffers().map(|b| BufferSpec {
        source: match b.source() {
            gltf::buffer::Source::Uri(u) => BufSource::Uri(u.to_owned()),
            gltf::buffer::Source::Bin => BufSource::Bin,
        },
        length: b.length(),
    }).collect()
}

/// Relies on `gltf::Document::materials`, the texture accessors of
/// `gltf::Material`, and the raw image records under
/// `gltf::Document::as_json`: for each material, in index order, the URI of
/// its base-color image and of its normal-map image. An image that names no
/// URI — including one backed by a buffer view, or one that names nothing at
/// all, which validation admits but whose high-level accessor would panic on
/// — reads as no reference.
#[verifier::external_body]
fn doc_material_refs(doc: &gltf::Document) -> Vec<MaterialTexRefs> {
    let uri_of = |t: Option<gltf::texture::Texture>| -> Option<String> {
        let tex = doc.as_json().textures.get(t?.index())?;
        doc.as_json().images.get(tex.source.value())?.uri.clone()
    };
    doc.materials().map(|m| MaterialTexRefs {
        base_color: uri_of(m.pbr_metallic_roughness().base_color_texture().map(|t| t.texture())),
        normal: uri_of(m.normal_texture().map(|t| t.texture())),
    }).collect()
}

/// Relies on `gltf::Document::nodes`, `Node::transform` (decomposed) and
/// `Node::mesh`: each node's local translation and scale as float bits, and
/// the index of the mesh it instantiates.
#[verifier::external_body]
fn doc_nodes(doc: &gltf::Document) -> Vec<MeshNode> {
    doc.nodes().map(|n| {
        let (t, _rotation, s) = n.transform().decomposed();
        MeshNode {
            translation: Vec3Bits { x: t[0].to_bits(), y: t[1].to_bits(), z: t[2].to_bits() },
            scale: Vec3Bits { x: s[0].to_bits(), y: s[1].to_bits(), z: s[2].to_bits() },
            mesh: n.mesh().map(|m| m.index()),
        }
    }).collect()
}

/// Relies on `gltf::Document::meshes`, `Mesh::primitives`,
/// `Primitive::indices`, `Accessor::count`, `Accessor::data_type` and
/// `Primitive::material`: each mesh's primitives with their index count,
/// index width and material index. Only the unsigned widths are told apart;
/// any other accessor type is recorded as an unclassified width, which the
/// renderer rejects like 8-bit indices.
#[verifier::external_body]
fn doc_mesh_defs(doc: &gltf::Document) -> Vec<MeshDef> {
    let prim = |p: gltf::Primitive| MeshPrim {
        index_count: p.indices().map(|a| a.count()).unwrap_or(0),
        indices: p.indices().map(|a| match a.data_type() {
            gltf::accessor::DataType::U8 => IndexKind::U8,
            gltf::accessor::DataType::U16 => IndexKind::U16,
            gltf::accessor::DataType::U32 => IndexKind::U32,
            _ => IndexKind::Other,
        }),
        material: p.material().index(),
    };
    doc.meshes().map(|m| MeshDef { primitives: m.primitives().map(prim).collect() }).collect()
}

/// Relies on the `Display` impl of `gltf::Error`: renders the parse error
/// for the caller of the load phase.
#[verifier::external_body]
fn gltf_error_message(e: &gltf::Error) -> String {
    format!("{}", e)
}

/// A parsed mesh source, before its binary buffers exist: the document
/// reduced to plain values, the buffers it asks for, and the packed binary
/// chunk if the file carried one.
pub struct ParsedMeshSource {
    pub nodes: Vec<MeshNode>,
    pub meshes: Vec<MeshDef>,
    pub materials: Vec<MaterialTexRefs>,
    pub buffer_specs: Vec<BufferSpec>,
    pub blob: Option<Vec<u8>>,
}

/// Whether the bytes begin with the binary container's magic tag.
pub open spec fn glb_magic(bytes: Seq<u8>) -> bool {
    bytes.len() >= 4 && bytes[0] == 0x67u8 && bytes[1] == 0x6cu8 && bytes[2] == 0x54u8 && bytes[3]
        == 0x46u8
}

/// The total length a binary container's header declares: the
/// little-endian word at byte offset 8.
pub open spec fn glb_declared_length(bytes: Seq<u8>) -> int {
    bytes[8] + 256 * bytes[9] + 65536 * bytes[10] + 16777216 * bytes[11]
}

/// A binary container whose header can be read declares a length of at
/// least the header's own twelve bytes. The parser subtracts the header
/// size from the declaration without checking, so a smaller declaration
/// must never reach it.
pub open spec fn glb_header_sound(bytes: Seq<u8>) -> bool {
    (glb_magic(bytes) && bytes.len() >= 12) ==> glb_declared_length(bytes) >= 12
}

/// Whether the leading bytes are safe to hand the parser.
fn glb_header_checked(bytes: &[u8]) -> (r: bool)
    ensures
        r == glb_header_sound(bytes@),
{
    if bytes.len() < 12 {
        return true;
    }
    let b0 = *vstd::slice::slice_index_get(bytes, 0);
    let b1 = *vstd::slice::slice_index_get(bytes, 1);
    let b2 = *vstd::slice::slice_index_get(bytes, 2);
    let b3 = *vstd::slice::slice_index_get(bytes, 3);
    if !(b0 == 0x67 && b1 == 0x6c && b2 == 0x54 && b3 == 0x46) {
        return true;
    }
    let l0 = *vstd::slice::slice_index_get(bytes, 8) as u32;
    let l1 = *vstd::slice::slice_index_get(bytes, 9) as u32;
    let l2 = *vstd::slice::slice_index_get(bytes, 10) as u32;
    let l3 = *vstd::slice::slice_index_get(bytes, 11) as u32;
    let declared: u32 = l0 + 256 * l1 + 65536 * l2 + 16777216 * l3;
    declared >= 12
}

/// Whether the bytes parse as a mesh document. The parse depends on the
/// bytes alone, so its outcome carries a name rather than a page of format
/// rules.
pub uninterp spec fn gltf_parses(bytes: Seq<u8>) -> bool;

/// What a successful parse reduces to, as plain values; a function of the
/// bytes alone.
pub uninterp spec fn gltf_parsed_of(bytes: Seq<u8>) -> ParsedMeshSource;

/// Relies on `gltf::Gltf::from_slice` (parse and validation) and on the
/// document readers named on the helpers above, which reduce the parsed
/// document to plain values in one step. The result depends on the bytes
/// alone, so it bears the two names. The header precondition excludes the
/// one input family on which the parser's length arithmetic underflows.
#[verifier::external_body]
fn parse_gltf_bytes(bytes: &[u8]) -> (r: Result<ParsedMeshSource, String>)
    requires
        glb_header_sound(bytes@),
    ensures
        r is Ok <==> gltf_parses(bytes@),
        r matches Ok(p) ==> p == gltf_parsed_of(bytes@),
{
    match gltf::Gltf::from_slice(bytes) {
        Ok(g) => Ok(ParsedMeshSource {
            nodes: doc_nodes(&g.document),
            meshes: doc_mesh_defs(&g.document),
            materials: doc_material_refs(&g.document),
            buffer_specs: doc_buffer_specs(&g.document),
            blob: g.blob,
        }),
        Err(e) => Err(gltf_error_message(&e)),
    }
}

/// Parses fetched bytes as a mesh document. A malformed payload — including
/// a binary container whose header declares an impossible length — is an
/// error value for the caller of the load phase, never a crash. Succeeds
/// exactly on the bytes the parser accepts, yielding their reduction to
/// plain values; the verified work on them — buffer assembly, texture
/// discovery, draw planning — is specified where it stands.
pub fn parse_mesh_source(bytes: &[u8]) -> (r: Result<ParsedMeshSource, String>)
    ensures
        r is Ok <==> (glb_header_sound(bytes@) && gltf_parses(bytes@)),
        r matches Ok(p) ==> p == gltf_parsed_of(bytes@),
{
    if !glb_header_checked(bytes) {
        return Err("binary header declares a length smaller than the header".to_owned());
    }
    parse_gltf_bytes(bytes)
}

/// Joins a parsed source with its assembled buffers into the document the
/// registry stores.
pub fn build_mesh_doc(parsed: ParsedMeshSource, buffers: Vec<Vec<u8>>) -> (d: MeshDoc)
    ensures
        d.nodes@ == parsed.nodes@,
        d.meshes@ == parsed.meshes@,
        d.materials@ == parsed.materials@,
        d.buffers@ == buffers@,
{
    MeshDoc {
        nodes: parsed.nodes,
        meshes: parsed.meshes,
        materials: parsed.materials,
        buffers,
    }
}

/// Assembling a buffer failed: a URI buffer the host fetched nothing for, a
/// binary-chunk buffer without (or after) the file's single chunk, or data
/// shorter than the declared length.
#[derive(Copy, Clone, PartialEq, Eq, Structural, Debug)]
pub enum BufferError {
    MissingFetch { buffer: usize },
    MissingBlob { buffer: usize },
    BufferLength { buffer: usize, expected: usize, actual: usize },
}

/// How many of the first `i` buffers are URI-sourced.
pub open spec fn uri_count_before(specs: Seq<BufferSpec>, i: int) -> int
    decreases i,
{
    if i <= 0 {
        0
    } else {
        uri_count_before(specs, i - 1) + (if specs[i - 1].source is Uri {
            1int
        } else {
            0int
        })
    }
}

/// How many of the first `i` buffers are chunk-sourced.
pub open spec fn bin_count_before(specs: Seq<BufferSpec>, i: int) -> int
    decreases i,
{
    if i <= 0 {
        0
    } else {
        bin_count_before(specs, i - 1) + (if specs[i - 1].source is Bin {
            1int
        } else {
            0int
        })
    }
}

/// The bytes buffer `i` receives: the next fetched payload for a URI
/// buffer, the file's chunk for the first chunk buffer; nothing when the
/// fetches ran out or the chunk is absent or already spent.
pub open spec fn raw_buffer_data(
    specs: Seq<BufferSpec>,
    fetched: Seq<Seq<u8>>,
    blob: Option<Seq<u8>>,
    i: int,
) -> Option<Seq<u8>> {
    match specs[i].source {
        BufSource::Uri(_) => if uri_count_before(specs, i) < fetched.len() {
            Some(fetched[uri_count_before(specs, i)])
        } else {
            None
        },
        BufSource::Bin => if bin_count_before(specs, i) == 0 && blob is Some {
            Some(blob->Some_0)
        } else {
            None
        },
    }
}

/// Buffer `i` has data, and at least as much as the document declared.
pub open spec fn buffer_ok(
    specs: Seq<BufferSpec>,
    fetched: Seq<Seq<u8>>,
    blob: Option<Seq<u8>>,
    i: int,
) -> bool {
    raw_buffer_data(specs, fetched, blob, i) matches Some(d) && d.len() >= specs[i].length
}

/// Every declared buffer has enough data.
pub open spec fn buffers_ok(
    specs: Seq<BufferSpec>,
    fetched: Seq<Seq<u8>>,
    blob: Option<Seq<u8>>,
) -> bool {
    forall|i: int| 0 <= i < specs.len() ==> #[trigger] buffer_ok(specs, fetched, blob, i)
}

/// How many zero bytes pad a length to the next multiple of four.
pub open spec fn pad_len(n: int) -> int {
    if n % 4 == 0 {
        0
    } else {
        4 - (n % 4)
    }
}

/// A buffer padded with zeros to a four-byte boundary.
pub open spec fn pad4(s: Seq<u8>) -> Seq<u8> {
    s + Seq::new(pad_len(s.len() as int) as nat, |k: int| 0u8)
}

/// The error names an actual failing buffer, of its kind.
pub open spec fn buffer_error_witness(
    specs: Seq<BufferSpec>,
    fetched: Seq<Seq<u8>>,
    blob: Option<Seq<u8>>,
    e: BufferError,
) -> bool {
    match e {
        BufferError::MissingFetch { buffer } => 0 <= buffer < specs.len() && specs[
            buffer as int].source is Uri && raw_buffer_data(specs, fetched, blob, buffer as int)
            is None,
        BufferError::MissingBlob { buffer } => 0 <= buffer < specs.len() && specs[
            buffer as int].source is Bin && raw_buffer_data(specs, fetched, blob, buffer as int)
            is None,
        BufferError::BufferLength { buffer, expected, actual } => 0 <= buffer < specs.len() && (
        raw_buffer_data(specs, fetched, blob, buffer as int) matches Some(d) && d.len() == actual
            && expected == specs[buffer as int].length && actual < expected),
    }
}

/// The view of the optional binary chunk.
pub open spec fn opt_bytes_view(b: Option<Vec<u8>>) -> Option<Seq<u8>> {
    match b {
        Some(v) => Some(v@),
        None => None,
    }
}

/// Pads bytes with zeros until their length is a multiple of four.
fn pad_to_four(data: &mut Vec<u8>)
    ensures
        final(data)@ == pad4(old(data)@),
{
    let ghost orig = data@;
    while data.len() % 4 != 0
        invariant
            orig.len() <= data@.len() <= orig.len() + pad_len(orig.len() as int),
            forall|j: int| 0 <= j < orig.len() ==> data@[j] == orig[j],
            forall|j: int| orig.len() <= j < data@.len() ==> data@[j] == 0u8,
        decreases orig.len() + pad_len(orig.len() as int) - data@.len(),
    {
        data.push(0u8);
    }
    proof {
        assert(data@.len() % 4 == 0);
        assert(data@.len() == orig.len() + pad_len(orig.len() as int));
        assert(data@ =~= pad4(orig));
    }
}

/// Checks and assembles the document's buffers from what the host fetched:
/// URI buffers take the fetched payloads in order, the first chunk buffer
/// takes the file's chunk, each must meet its declared length, and each is
/// padded with zeros to a four-byte boundary. Fails exactly when some
/// buffer has no data or too little, naming that buffer.
pub fn assemble_buffers(
    specs: &Vec<BufferSpec>,
    fetched: &Vec<Vec<u8>>,
    blob: Option<Vec<u8>>,
) -> (r: Result<Vec<Vec<u8>>, BufferError>)
    ensures
        r is Ok <==> buffers_ok(specs@, fetched.deep_view(), opt_bytes_view(blob)),
        r matches Ok(out) ==> out@.len() == specs@.len() && forall|i: int|
            0 <= i < specs@.len() ==> (#[trigger] out@[i])@ == pad4(
                raw_buffer_data(specs@, fetched.deep_view(), opt_bytes_view(blob), i)->Some_0,
            ),
        r matches Err(e) ==> buffer_error_witness(
            specs@,
            fetched.deep_view(),
            opt_bytes_view(blob),
            e,
        ),
{
    let ghost fv = fetched.deep_view();
    let ghost bv = opt_bytes_view(blob);
    let mut out: Vec<Vec<u8>> = Vec::new();
    let mut blob_local = blob;
    let mut ui: usize = 0;
    let count = specs.len();
    let mut i: usize = 0;
    while i < count
        invariant
            count == specs@.len(),
            i <= count,
            fv == fetched.deep_view(),
            bv == opt_bytes_view(blob),
            ui == uri_count_before(specs@, i as int),
            ui <= i,
            opt_bytes_view(blob_local) == if bin_count_before(specs@, i as int) == 0 {
                bv
            } else {
                Option::<Seq<u8>>::None
            },
            out@.len() == i,
            forall|j: int| 0 <= j < i ==> #[trigger] buffer_ok(specs@, fv, bv, j),
            forall|j: int|
                0 <= j < i ==> (#[trigger] out@[j])@ == pad4(
                    raw_buffer_data(specs@, fv, bv, j)->Some_0,
                ),
        decreases count - i,
    {
        let mut data: Vec<u8>;
        match &specs[i].source {
            BufSource::Uri(_) => {
                if ui < fetched.len() {
                    data = fetched[ui].clone();
                    proof {
                        assert(data@ == fv[ui as int]);
                    }
                    ui = ui + 1;
                } else {
                    proof {
                        assert(raw_buffer_data(specs@, fv, bv, i as int) is None);
                        assert(!buffer_ok(specs@, fv, bv, i as int));
                    }
                    return Err(BufferError::MissingFetch { buffer: i });
                }
            },
            BufSource::Bin => {
                match blob_local.take() {
                    Some(b) => {
                        data = b;
                        proof {
                            assert(bin_count_before(specs@, i as int) == 0);
                            assert(data@ == bv->Some_0);
                        }
                    },
                    None => {
                        proof {
                            assert(raw_buffer_data(specs@, fv, bv, i as int) is None);
                            assert(!buffer_ok(specs@, fv, bv, i as int));
                        }
                        return Err(BufferError::MissingBlob { buffer: i });
                    },
                }
            },
        }
        proof {
            assert(raw_buffer_data(specs@, fv, bv, i as int) == Some(data@));
        }
        if data.len() < specs[i].length {
            proof {
                assert(!buffer_ok(specs@, fv, bv, i as int));
            }
            return Err(
                BufferError::BufferLength {
                    buffer: i,
                    expected: specs[i].length,
                    actual: data.len(),
                },
            );
        }
        pad_to_four(&mut data);
        out.push(data);
        i = i + 1;
    }
    Ok(out)
}

} // verus!
