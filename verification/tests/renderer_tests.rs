//! The orchestrator's plans: pass order and clip planes, the vertex-state
//! cache, program switching, and the per-mesh draw plan.

use water_engine::assets::Assets;
use water_engine::entity::{Entity, MeshEntity, RenderStage, WaterEntity};
use water_engine::material::Texture;
use water_engine::mesh::{IndexKind, MeshDef, MeshDoc, MeshNode, MeshPrim, Vec3Bits};
use water_engine::renderer::{
    albedo_bind_plan, clip_plane_components, entities_for_stage, mesh_draw_plan, plan_frame,
    reflection_framebuffer_spec, refraction_framebuffer_spec, water_bind_plan,
    water_tile_indices, AttachmentKind, BufferedMesh, CacheKey, ClipSpec, FramebufferKind,
    LocationCache, ProgramTracker, RenderError, ShaderKind, TextureUnit, VaoEntry,
    VertexStateCache, GL_UNSIGNED_INT, GL_UNSIGNED_SHORT, REFLECTION_TEXTURE_SIZE,
    REFRACTION_TEXTURE_SIZE,
};

fn v3(x: f32, y: f32, z: f32) -> Vec3Bits {
    Vec3Bits { x: x.to_bits(), y: y.to_bits(), z: z.to_bits() }
}

fn water(use_refraction: bool, use_reflection: bool) -> WaterEntity {
    WaterEntity {
        dudv: 0,
        normal: 1,
        reflectivity: 0.5f32.to_bits(),
        fresnel_strength: 0.5f32.to_bits(),
        wave_speed: 0.5f32.to_bits(),
        use_refraction,
        use_reflection,
    }
}

fn mesh_entity() -> MeshEntity {
    MeshEntity {
        mesh: 0,
        mat: 0,
        position: v3(0.0, 0.0, 0.0),
        scale: v3(1.0, 1.0, 1.0),
        rotation: v3(0.0, 0.0, 0.0),
        update: None,
    }
}

/// The GL convention: a vertex is discarded when its dot product with the
/// clip plane is negative.
fn plane_keeps(plane: [u32; 4], point: [f32; 3]) -> bool {
    let p: Vec<f32> = plane.iter().map(|b| f32::from_bits(*b)).collect();
    p[0] * point[0] + p[1] * point[1] + p[2] * point[2] + p[3] >= 0.0
}

#[test]
fn frame_plan_has_fixed_stage_order() {
    let w = water(true, true);
    let passes = plan_frame(Some(&w), 800, 600);
    assert_eq!(passes.len(), 4);
    assert_eq!(passes[0].stage, RenderStage::Reflection);
    assert_eq!(passes[0].target, FramebufferKind::Reflection);
    assert_eq!(passes[0].viewport_width, REFLECTION_TEXTURE_SIZE);
    assert!(passes[0].flip_camera_y);
    assert!(passes[0].clear);
    assert_eq!(passes[1].stage, RenderStage::Refraction);
    assert_eq!(passes[1].target, FramebufferKind::Refraction);
    assert_eq!(passes[1].viewport_width, REFRACTION_TEXTURE_SIZE);
    assert!(!passes[1].flip_camera_y);
    assert_eq!(passes[2].stage, RenderStage::Water);
    assert_eq!(passes[2].target, FramebufferKind::Default);
    assert_eq!(passes[2].viewport_width, 800);
    assert_eq!(passes[2].viewport_height, 600);
    assert_eq!(passes[3].stage, RenderStage::Opaques);
    assert_eq!(passes[3].clip, ClipSpec::Unclipped);
}

#[test]
fn frame_plan_respects_water_toggles() {
    let passes = plan_frame(Some(&water(true, false)), 640, 480);
    assert_eq!(passes.len(), 3);
    assert_eq!(passes[0].stage, RenderStage::Refraction);
    let passes = plan_frame(Some(&water(false, false)), 640, 480);
    assert_eq!(passes.len(), 2);
    assert_eq!(passes[0].stage, RenderStage::Water);
    let passes = plan_frame(None, 640, 480);
    assert_eq!(passes.len(), 1);
    assert_eq!(passes[0].stage, RenderStage::Opaques);
}

#[test]
fn clip_planes_split_the_scene_at_the_water_surface() {
    // A synthetic scene straddling the water plane at y = 0.
    let above = [0.0f32, 2.5, 0.0];
    let below = [0.0f32, -2.5, 0.0];

    let passes = plan_frame(Some(&water(true, true)), 800, 600);
    let reflection = clip_plane_components(&passes[0].clip);
    let refraction = clip_plane_components(&passes[1].clip);

    // The refraction capture keeps only what lies under the water.
    assert!(!plane_keeps(refraction, above));
    assert!(plane_keeps(refraction, below));
    // The reflection capture keeps only what lies over it.
    assert!(plane_keeps(reflection, above));
    assert!(!plane_keeps(reflection, below));
    // The opaques pass keeps everything.
    let unclipped = clip_plane_components(&passes[3].clip);
    assert!(plane_keeps(unclipped, above));
    assert!(plane_keeps(unclipped, below));
}

#[test]
fn clip_plane_components_follow_the_sign_convention() {
    let y = 1.5f32.to_bits();
    let below = clip_plane_components(&ClipSpec::KeepBelow { plane_y: y });
    assert_eq!(f32::from_bits(below[0]), 0.0);
    assert_eq!(f32::from_bits(below[1]), -1.0);
    assert_eq!(f32::from_bits(below[2]), 0.0);
    assert_eq!(f32::from_bits(below[3]), 1.5);
    let above = clip_plane_components(&ClipSpec::KeepAbove { plane_y: y });
    assert_eq!(f32::from_bits(above[1]), 1.0);
    assert_eq!(f32::from_bits(above[3]), -1.5);
}

#[test]
fn stage_filter_asks_should_render() {
    let entities = vec![
        Entity::Mesh(mesh_entity()),
        Entity::Water(water(true, true)),
        Entity::Mesh(mesh_entity()),
    ];
    assert_eq!(entities_for_stage(&entities, &RenderStage::Water), vec![1]);
    assert_eq!(entities_for_stage(&entities, &RenderStage::Opaques), vec![0, 2]);
    assert_eq!(entities_for_stage(&entities, &RenderStage::Refraction), vec![0, 2]);
    assert_eq!(entities_for_stage(&entities, &RenderStage::Reflection), vec![0, 2]);
}

#[test]
fn vertex_state_cache_uploads_once() {
    let mut cache = VertexStateCache::new();
    let key = CacheKey { entity: 3, mesh: 0, primitive: 1 };
    let mut uploads: usize = 0;

    // First frame: miss, upload, record.
    let entry = match cache.lookup(key) {
        Some(e) => e,
        None => {
            uploads += 1;
            let e = VaoEntry { vao: 42, buffered: BufferedMesh { tri_size: GL_UNSIGNED_SHORT } };
            cache.insert(key, e);
            e
        }
    };
    // Second frame, same key: hit, reuse, no upload.
    let reused = match cache.lookup(key) {
        Some(e) => e,
        None => {
            uploads += 1;
            let e = VaoEntry { vao: 43, buffered: BufferedMesh { tri_size: GL_UNSIGNED_SHORT } };
            cache.insert(key, e);
            e
        }
    };
    assert_eq!(uploads, 1);
    assert_eq!(reused, entry);
    assert_eq!(reused.vao, 42);

    // A different drawable never collides.
    assert!(cache.lookup(CacheKey { entity: 3, mesh: 0, primitive: 2 }).is_none());
    cache.clear();
    assert!(cache.lookup(key).is_none());
}

#[test]
fn program_tracker_rebinds_only_on_change() {
    let mut t = ProgramTracker::new();
    // Setup leaves the textured-quad program bound.
    assert!(!t.use_program(ShaderKind::TexturedQuad));
    assert!(t.use_program(ShaderKind::Water));
    assert!(!t.use_program(ShaderKind::Water));
    assert!(t.use_program(ShaderKind::NonSkinnedMesh));
    assert!(t.use_program(ShaderKind::Water));
}

#[test]
fn texture_units_are_fixed() {
    assert_eq!(TextureUnit::Refraction.texture_unit(), 0);
    assert_eq!(TextureUnit::Reflection.texture_unit(), 1);
    assert_eq!(TextureUnit::RefractionDepth.texture_unit(), 4);
    assert_eq!(TextureUnit::Stone.TEXTURE_N(), 33984 + 5);
}

#[test]
fn water_bindings_resolve_and_use_fixed_units() {
    let mut a = Assets::new();
    a.load(Texture { id: 7 });
    let w = water(true, true);
    let b = water_bind_plan(&w, &a);
    assert_eq!(b.dudv_unit, 0);
    assert_eq!(b.normal_unit, 1);
    assert_eq!(b.refraction_unit, 2);
    assert_eq!(b.refraction_depth_unit, 3);
    assert_eq!(b.reflection_unit, 4);
    // Neither handle is loaded: both fall back to the error texture.
    assert_eq!(b.dudv_texture, Texture { id: 7 });
    assert_eq!(b.normal_texture, Texture { id: 7 });
    assert_eq!(f32::from_bits(b.wave_speed), 0.5);
}

#[test]
fn albedo_bindings_use_fixed_units() {
    let mut a = Assets::new();
    a.load(Texture { id: 7 });
    let h = a.require_texture("bark.png".to_owned());
    a.register_tex("bark.png", Texture { id: 8 });
    let b = albedo_bind_plan(h, 999, &a);
    assert_eq!(b.tex_unit, 11);
    assert_eq!(b.normal_unit, 12);
    assert_eq!(b.tex, Texture { id: 8 });
    assert_eq!(b.normal, Texture { id: 7 });
}

#[test]
fn uniform_locations_are_queried_once() {
    let mut cache = LocationCache::new();
    let mut backend_queries: usize = 0;
    let mut locate = |cache: &mut LocationCache, name: &str| -> i32 {
        match cache.lookup(&name.to_owned()) {
            Some(loc) => loc,
            None => {
                backend_queries += 1;
                let loc = 100 + backend_queries as i32;
                cache.record(name.to_owned(), loc);
                loc
            }
        }
    };
    let a1 = locate(&mut cache, "model");
    let b1 = locate(&mut cache, "clipPlane");
    let a2 = locate(&mut cache, "model");
    assert_eq!(a1, a2);
    assert_ne!(a1, b1);
    assert_eq!(backend_queries, 2);
}

#[test]
fn capture_targets_have_their_shapes() {
    let refraction = refraction_framebuffer_spec();
    assert_eq!(refraction.width, 512);
    assert_eq!(refraction.height, 512);
    assert_eq!(refraction.color, AttachmentKind::TextureNearest);
    assert_eq!(refraction.depth, AttachmentKind::TextureNearest);
    let reflection = reflection_framebuffer_spec();
    assert_eq!(reflection.width, 128);
    assert_eq!(reflection.color, AttachmentKind::TextureLinear);
    assert_eq!(reflection.depth, AttachmentKind::Renderbuffer);
}

#[test]
fn overlays_show_both_captures() {
    let quads = water_engine::renderer::overlay_quads(800, 600);
    assert_eq!(quads.len(), 2);
    assert_eq!(quads[0].unit, TextureUnit::Refraction);
    assert_eq!((quads[0].left, quads[0].top), (0, 75));
    assert_eq!(quads[1].unit, TextureUnit::Reflection);
    assert_eq!((quads[1].left, quads[1].top), (725, 600));
    assert_eq!((quads[1].width, quads[1].height), (75, 75));
}

#[test]
fn water_tile_index_list() {
    assert_eq!(water_tile_indices(), [0, 1, 2, 0, 2, 3]);
}

#[test]
fn water_tile_geometry_is_fixed() {
    let corners: Vec<f32> =
        water_engine::renderer::water_tile_corners().iter().map(|b| f32::from_bits(*b)).collect();
    assert_eq!(corners, vec![-30.5, 30.5, 30.5, 30.5, 30.5, -30.5, -30.5, -30.5]);
    assert_eq!(f32::from_bits(water_engine::renderer::WATER_TILE_SCALE_BITS), 18.0);
}

fn doc_one_node(prims: Vec<MeshPrim>) -> MeshDoc {
    MeshDoc {
        nodes: vec![MeshNode {
            translation: v3(1.0, 2.0, 3.0),
            scale: v3(2.0, 2.0, 2.0),
            mesh: Some(0),
        }],
        meshes: vec![MeshDef { primitives: prims }],
        materials: vec![],
        buffers: vec![],
    }
}

#[test]
fn mesh_draw_plan_walks_nodes_and_primitives() {
    let doc = doc_one_node(vec![
        MeshPrim { index_count: 6, indices: Some(IndexKind::U16), material: Some(4) },
        MeshPrim { index_count: 9, indices: Some(IndexKind::U32), material: None },
    ]);
    let mut me = mesh_entity();
    me.mat = 2;
    let cmds = mesh_draw_plan(5, &me, &doc, true).expect("plan");
    assert_eq!(cmds.len(), 2);
    assert_eq!(cmds[0].key, CacheKey { entity: 5, mesh: 0, primitive: 0 });
    assert_eq!(cmds[0].material, 4);
    assert_eq!(cmds[0].index_count, 6);
    assert_eq!(cmds[0].tri_size, GL_UNSIGNED_SHORT);
    assert_eq!(cmds[0].node_translation, v3(1.0, 2.0, 3.0));
    assert_eq!(cmds[1].key, CacheKey { entity: 5, mesh: 0, primitive: 1 });
    // The primitive names no material: the entity's fallback is used.
    assert_eq!(cmds[1].material, 2);
    assert_eq!(cmds[1].tri_size, GL_UNSIGNED_INT);
}

#[test]
fn mesh_draw_plan_reports_unsupported_widths() {
    let doc = doc_one_node(vec![MeshPrim {
        index_count: 9,
        indices: Some(IndexKind::U32),
        material: None,
    }]);
    let me = mesh_entity();
    assert!(mesh_draw_plan(0, &me, &doc, true).is_ok());
    assert_eq!(
        mesh_draw_plan(0, &me, &doc, false),
        Err(RenderError::UnsupportedIndexWidth { mesh: 0, primitive: 0 })
    );

    let doc = doc_one_node(vec![MeshPrim { index_count: 0, indices: None, material: None }]);
    assert_eq!(
        mesh_draw_plan(0, &me, &doc, true),
        Err(RenderError::NoIndices { mesh: 0, primitive: 0 })
    );

    let doc = doc_one_node(vec![MeshPrim {
        index_count: 3,
        indices: Some(IndexKind::U8),
        material: None,
    }]);
    assert_eq!(
        mesh_draw_plan(0, &me, &doc, true),
        Err(RenderError::UnsupportedIndexWidth { mesh: 0, primitive: 0 })
    );

    // An accessor that is no index width at all fails the same way.
    let doc = doc_one_node(vec![MeshPrim {
        index_count: 3,
        indices: Some(IndexKind::Other),
        material: None,
    }]);
    assert_eq!(
        mesh_draw_plan(0, &me, &doc, true),
        Err(RenderError::UnsupportedIndexWidth { mesh: 0, primitive: 0 })
    );
}

#[test]
fn mesh_draw_plan_skips_meshless_nodes() {
    let doc = MeshDoc {
        nodes: vec![
            MeshNode { translation: v3(0.0, 0.0, 0.0), scale: v3(1.0, 1.0, 1.0), mesh: None },
        ],
        meshes: vec![],
        materials: vec![],
        buffers: vec![],
    };
    let cmds = mesh_draw_plan(0, &mesh_entity(), &doc, true).expect("plan");
    assert!(cmds.is_empty());
}
