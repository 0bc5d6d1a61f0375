//! The aggregate registry: the error-texture fallback, material loading,
//! and the discovery of textures inside loaded mesh documents.

use water_engine::assets::Assets;
use water_engine::material::{
    error_texture_pixels, Mat, Texture, Uniform, UniformBinding, MATERIAL_TEX_UNIT_BASE,
};
use water_engine::mesh::{MaterialTexRefs, MeshDoc};

fn error_tex() -> Texture {
    Texture { id: 77 }
}

fn assets_with_error_tex() -> Assets {
    let mut a = Assets::new();
    a.load(error_tex());
    a
}

#[test]
fn get_tex_falls_back_to_error_texture() {
    let mut a = assets_with_error_tex();
    let h = a.require_texture("hull.png".to_owned());
    // Not loaded yet: the error texture stands in.
    assert_eq!(a.get_tex(h), error_tex());
    assert_eq!(a.get_tex(12345), error_tex());
    a.register_tex("hull.png", Texture { id: 5 });
    assert_eq!(a.get_tex(h), Texture { id: 5 });
}

#[test]
fn bind_plan_falls_back_without_error() {
    let mut a = assets_with_error_tex();
    let loaded = a.require_texture("ok.png".to_owned());
    a.register_tex("ok.png", Texture { id: 9 });
    let dangling = a.require_texture("missing.png".to_owned());
    let mat = Mat::filled(vec![
        ("shine".to_owned(), Uniform::Float(0x3F000000)),
        ("mode".to_owned(), Uniform::Int(2)),
        ("albedo".to_owned(), Uniform::Tex(loaded)),
        ("detail".to_owned(), Uniform::Tex(dangling)),
    ]);
    let plan = mat.bind_plan(&a);
    assert_eq!(plan.len(), 4);
    match &plan[0] {
        UniformBinding::Float { name, bits } => {
            assert_eq!(name, "shine");
            assert_eq!(*bits, 0x3F000000);
        }
        other => panic!("unexpected binding {:?}", other),
    }
    match &plan[2] {
        UniformBinding::Tex { unit, texture, fallback, .. } => {
            assert_eq!(*unit, MATERIAL_TEX_UNIT_BASE);
            assert_eq!(*texture, Texture { id: 9 });
            assert!(!fallback);
        }
        other => panic!("unexpected binding {:?}", other),
    }
    match &plan[3] {
        UniformBinding::Tex { unit, texture, fallback, .. } => {
            // Units count up only over texture uniforms.
            assert_eq!(*unit, MATERIAL_TEX_UNIT_BASE + 1);
            assert_eq!(*texture, error_tex());
            assert!(fallback);
        }
        other => panic!("unexpected binding {:?}", other),
    }
}

#[test]
fn error_texture_is_a_two_by_two_checkerboard() {
    let px = error_texture_pixels();
    // Four RGBA texels: green, magenta, magenta, green.
    assert_eq!(px.len(), 16);
    assert_eq!(&px[0..4], &[0, 255, 0, 255]);
    assert_eq!(&px[4..8], &[255, 0, 255, 255]);
    assert_eq!(&px[8..12], &[255, 0, 255, 255]);
    assert_eq!(&px[12..16], &[0, 255, 0, 255]);
}

#[test]
fn load_material_grows_slots() {
    let mut a = Assets::new();
    a.load_material(2, Mat::new());
    assert!(a.get_material(2).is_some());
    assert!(a.get_material(0).is_none());
    assert!(a.get_material(1).is_none());
    assert!(a.get_material(3).is_none());
}

#[test]
fn insert_material_then_require_returns_its_handle() {
    let mut a = Assets::new();
    a.insert_material("gold".to_owned(), Mat::filled(vec![(
        "metallic".to_owned(),
        Uniform::Int(1),
    )]));
    let h = a.require_material("gold".to_owned());
    assert_eq!(h, 0);
    let m = a.get_material(h).expect("inserted material");
    assert_eq!(m.uniforms_list().len(), 1);
    assert_eq!(m.uniforms_list()[0].0, "metallic");
}

#[test]
fn mesh_discovered_textures_end_to_end() {
    // The scenario of a scene reload: a mesh and a texture are requested,
    // the mesh loads and brings texture references of its own, and after the
    // second texture sweep every primitive material resolves to real
    // textures.
    let mut a = assets_with_error_tex();
    let boat = a.require_gltf("boat.glb".to_owned());
    assert_eq!(boat, 0);
    let hull = a.require_texture("hull.png".to_owned());
    assert_eq!(hull, 0);

    let pending_meshes = a.consume_pending_meshes();
    assert_eq!(pending_meshes, vec!["boat.glb".to_owned()]);

    let mut doc = MeshDoc::empty();
    doc.materials.push(MaterialTexRefs {
        base_color: Some("deck.png".to_owned()),
        normal: Some("deck_normal.png".to_owned()),
    });
    a.load_gltf("boat.glb", doc);

    a.require_mesh_textures();

    let pending_textures = a.consume_pending_textures();
    assert_eq!(pending_textures, vec![
        "hull.png".to_owned(),
        "/assets/textures/deck.png".to_owned(),
        "/assets/textures/deck_normal.png".to_owned(),
    ]);
    a.register_tex("hull.png", Texture { id: 1 });
    a.register_tex("/assets/textures/deck.png", Texture { id: 2 });
    a.register_tex("/assets/textures/deck_normal.png", Texture { id: 3 });

    // The material the mesh's first primitive references resolves to the
    // deck textures, not the error texture.
    let mat = a.get_material(0).expect("material discovered from the mesh");
    let uniforms = mat.uniforms_list();
    assert_eq!(uniforms.len(), 2);
    assert_eq!(uniforms[0].0, "meshTexture");
    let color_handle = match uniforms[0].1 {
        Uniform::Tex(h) => h,
        other => panic!("unexpected uniform {:?}", other),
    };
    assert_eq!(uniforms[1].0, "meshNormal");
    let normal_handle = match uniforms[1].1 {
        Uniform::Tex(h) => h,
        other => panic!("unexpected uniform {:?}", other),
    };
    assert!(a.tex_resolves(color_handle));
    assert!(a.tex_resolves(normal_handle));
    assert_eq!(a.get_tex(color_handle), Texture { id: 2 });
    assert_eq!(a.get_tex(normal_handle), Texture { id: 3 });
}

#[test]
fn mesh_texture_discovery_skips_incomplete_materials() {
    let mut a = Assets::new();
    let h = a.require_gltf("tree.glb".to_owned());
    assert_eq!(h, 0);
    a.consume_pending_meshes();
    let mut doc = MeshDoc::empty();
    // Base color without a normal map: no texture pair, no material.
    doc.materials.push(MaterialTexRefs {
        base_color: Some("bark.png".to_owned()),
        normal: None,
    });
    a.load_gltf("tree.glb", doc);
    a.require_mesh_textures();
    assert!(a.consume_pending_textures().is_empty());
    assert!(a.get_material(0).is_none());
}
