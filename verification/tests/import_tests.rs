//! Importing mesh documents: parsing through the real parser, and the
//! verified buffer assembly.

use water_engine::gltf_import::{
    assemble_buffers, parse_mesh_source, BufSource, BufferError, BufferSpec,
};

fn uri(u: &str, length: usize) -> BufferSpec {
    BufferSpec { source: BufSource::Uri(u.to_owned()), length }
}

fn bin(length: usize) -> BufferSpec {
    BufferSpec { source: BufSource::Bin, length }
}

#[test]
fn assemble_pads_and_orders_buffers() {
    let specs = vec![uri("a.bin", 4), bin(2)];
    let fetched = vec![vec![1u8, 2, 3, 4]];
    let blob = Some(vec![9u8, 9]);
    let out = assemble_buffers(&specs, &fetched, blob).expect("buffers");
    assert_eq!(out.len(), 2);
    assert_eq!(out[0], vec![1, 2, 3, 4]);
    // The chunk is padded with zeros to a four-byte boundary.
    assert_eq!(out[1], vec![9, 9, 0, 0]);
}

#[test]
fn assemble_rejects_short_data() {
    let specs = vec![uri("a.bin", 8)];
    let fetched = vec![vec![1u8, 2, 3, 4]];
    assert_eq!(
        assemble_buffers(&specs, &fetched, None),
        Err(BufferError::BufferLength { buffer: 0, expected: 8, actual: 4 })
    );
}

#[test]
fn assemble_needs_the_chunk_once() {
    let specs = vec![bin(1)];
    assert_eq!(
        assemble_buffers(&specs, &vec![], None),
        Err(BufferError::MissingBlob { buffer: 0 })
    );
    // A second chunk buffer finds the chunk already spent.
    let specs = vec![bin(1), bin(1)];
    assert_eq!(
        assemble_buffers(&specs, &vec![], Some(vec![5u8])),
        Err(BufferError::MissingBlob { buffer: 1 })
    );
}

#[test]
fn assemble_needs_a_fetch_per_uri() {
    let specs = vec![uri("a.bin", 1), uri("b.bin", 1)];
    let fetched = vec![vec![1u8]];
    assert_eq!(
        assemble_buffers(&specs, &fetched, None),
        Err(BufferError::MissingFetch { buffer: 1 })
    );
}

#[test]
fn parse_reads_nodes_and_buffer_specs() {
    let json = r#"{
        "asset": {"version": "2.0"},
        "nodes": [{"translation": [1.0, 2.0, 3.0], "scale": [2.0, 2.0, 2.0]}],
        "buffers": [{"byteLength": 4, "uri": "a.bin"}]
    }"#;
    let parsed = parse_mesh_source(json.as_bytes()).expect("valid document");
    assert_eq!(parsed.nodes.len(), 1);
    assert_eq!(f32::from_bits(parsed.nodes[0].translation.x), 1.0);
    assert_eq!(f32::from_bits(parsed.nodes[0].translation.y), 2.0);
    assert_eq!(f32::from_bits(parsed.nodes[0].translation.z), 3.0);
    assert_eq!(f32::from_bits(parsed.nodes[0].scale.x), 2.0);
    assert_eq!(parsed.nodes[0].mesh, None);
    assert_eq!(parsed.buffer_specs.len(), 1);
    match &parsed.buffer_specs[0].source {
        BufSource::Uri(u) => assert_eq!(u, "a.bin"),
        BufSource::Bin => panic!("expected a URI buffer"),
    }
    assert_eq!(parsed.buffer_specs[0].length, 4);
    assert!(parsed.blob.is_none());
    assert!(parsed.meshes.is_empty());
    assert!(parsed.materials.is_empty());
}

#[test]
fn parse_surfaces_malformed_payloads() {
    assert!(parse_mesh_source(b"not a mesh document").is_err());
}

#[test]
fn parse_rejects_binary_header_with_impossible_length() {
    // A binary container whose header declares a total length of 4 bytes:
    // less than the twelve header bytes it was read from. An error, not a
    // crash.
    let mut bytes: Vec<u8> = Vec::new();
    bytes.extend_from_slice(b"glTF");
    bytes.extend_from_slice(&2u32.to_le_bytes());
    bytes.extend_from_slice(&4u32.to_le_bytes());
    bytes.extend_from_slice(&[0u8; 8]);
    assert!(parse_mesh_source(&bytes).is_err());
}

#[test]
fn parse_tolerates_an_image_without_a_uri() {
    // Validation admits an image that names neither a URI nor a buffer
    // view; a material referencing it must read as having no texture URI,
    // not crash.
    let json = r#"{
        "asset": {"version": "2.0"},
        "images": [{}],
        "samplers": [{}],
        "textures": [{"sampler": 0, "source": 0}],
        "materials": [{
            "pbrMetallicRoughness": {"baseColorTexture": {"index": 0}},
            "normalTexture": {"index": 0}
        }]
    }"#;
    let parsed = parse_mesh_source(json.as_bytes()).expect("valid document");
    assert_eq!(parsed.materials.len(), 1);
    assert!(parsed.materials[0].base_color.is_none());
    assert!(parsed.materials[0].normal.is_none());
}

#[test]
fn parse_reads_material_texture_uris() {
    let json = r#"{
        "asset": {"version": "2.0"},
        "images": [{"uri": "deck.png"}, {"uri": "deck_normal.png"}],
        "samplers": [{}],
        "textures": [{"sampler": 0, "source": 0}, {"sampler": 0, "source": 1}],
        "materials": [{
            "pbrMetallicRoughness": {"baseColorTexture": {"index": 0}},
            "normalTexture": {"index": 1}
        }]
    }"#;
    let parsed = parse_mesh_source(json.as_bytes()).expect("valid document");
    assert_eq!(parsed.materials.len(), 1);
    assert_eq!(parsed.materials[0].base_color.as_deref(), Some("deck.png"));
    assert_eq!(parsed.materials[0].normal.as_deref(), Some("deck_normal.png"));
}
