//! Scene records, stage participation, and input handling.

use water_engine::assets::Assets;
use water_engine::entity::{Entity, MeshEntity, RenderStage, Scene, WaterEntity};
use water_engine::keyboard::{KeyCode, Keyboard};
use water_engine::material::{Mat, Uniform};
use water_engine::mesh::Vec3Bits;
use water_engine::scene::{
    apply_scene_records, CameraAction, InputState, Msg, SceneRecord,
};

fn v3(x: f32, y: f32, z: f32) -> Vec3Bits {
    Vec3Bits { x: x.to_bits(), y: y.to_bits(), z: z.to_bits() }
}

#[test]
fn water_renders_only_in_water_stage() {
    let w = Entity::Water(WaterEntity {
        dudv: 0,
        normal: 0,
        reflectivity: 0,
        fresnel_strength: 0,
        wave_speed: 0,
        use_refraction: true,
        use_reflection: true,
    });
    let m = Entity::Mesh(MeshEntity {
        mesh: 0,
        mat: 0,
        position: v3(0.0, 0.0, 0.0),
        scale: v3(1.0, 1.0, 1.0),
        rotation: v3(0.0, 0.0, 0.0),
        update: None,
    });
    for stage in [
        RenderStage::Refraction,
        RenderStage::Reflection,
        RenderStage::Water,
        RenderStage::Opaques,
    ] {
        assert_eq!(w.should_render(&stage), stage == RenderStage::Water);
        assert_eq!(m.should_render(&stage), stage != RenderStage::Water);
    }
}

#[test]
fn only_mesh_entities_carry_update_hooks() {
    let mut me = MeshEntity {
        mesh: 0,
        mat: 0,
        position: v3(0.0, 0.0, 0.0),
        scale: v3(1.0, 1.0, 1.0),
        rotation: v3(0.0, 0.0, 0.0),
        update: Some("bob".to_owned()),
    };
    assert_eq!(Entity::Mesh(me.clone()).update_hook(), Some(&"bob".to_owned()));
    me.update = None;
    assert_eq!(Entity::Mesh(me).update_hook(), None);
    let w = Entity::Water(WaterEntity {
        dudv: 0,
        normal: 0,
        reflectivity: 0,
        fresnel_strength: 0,
        wave_speed: 0,
        use_refraction: false,
        use_reflection: false,
    });
    assert_eq!(w.update_hook(), None);
}

#[test]
fn scene_records_build_entities_over_handles() {
    let mut assets = Assets::new();
    let mut scene = Scene::new();
    scene.push_entity(Entity::Mesh(MeshEntity {
        mesh: 9,
        mat: 9,
        position: v3(9.0, 9.0, 9.0),
        scale: v3(9.0, 9.0, 9.0),
        rotation: v3(9.0, 9.0, 9.0),
        update: None,
    }));

    let records = vec![
        SceneRecord::MaterialRec {
            name: "hull".to_owned(),
            mat: Mat::filled(vec![("gloss".to_owned(), Uniform::Int(1))]),
        },
        SceneRecord::MeshRec {
            mesh_name: "boat.glb".to_owned(),
            material_name: Some("hull".to_owned()),
            position: v3(1.0, 0.0, 0.0),
            rotation: v3(0.0, 0.0, 0.0),
            scale: v3(1.0, 1.0, 1.0),
            update: Some("bob".to_owned()),
        },
        SceneRecord::WaterRec {
            reflectivity: 0.5f32.to_bits(),
            fresnel_strength: 0.5f32.to_bits(),
            wave_speed: 0.5f32.to_bits(),
            use_refraction: true,
            use_reflection: false,
        },
    ];
    apply_scene_records(&records, &mut assets, &mut scene);

    // A reload replaces the old entities entirely.
    assert_eq!(scene.entities.len(), 2);

    let mesh = match &scene.entities[0] {
        Entity::Mesh(m) => m,
        other => panic!("unexpected entity {:?}", other),
    };
    assert_eq!(mesh.position, v3(1.0, 0.0, 0.0));
    assert_eq!(mesh.update, Some("bob".to_owned()));
    // The mesh's material handle is the inserted material's.
    let hull = assets.require_material("hull".to_owned());
    assert_eq!(mesh.mat, hull);
    let m = assets.get_material(hull).expect("hull material");
    assert_eq!(m.uniforms_list()[0].0, "gloss");
    // The mesh itself is pending for the loader.
    assert_eq!(assets.consume_pending_meshes(), vec!["boat.glb".to_owned()]);

    let water = match &scene.entities[1] {
        Entity::Water(w) => w,
        other => panic!("unexpected entity {:?}", other),
    };
    assert!(water.use_refraction);
    assert!(!water.use_reflection);
    // Water always requires its two fixed textures.
    assert_eq!(assets.consume_pending_textures(), vec![
        "assets/textures/dudvmap.png".to_owned(),
        "assets/textures/normalmap.png".to_owned(),
    ]);

    let (idx, found) = scene.find_water().expect("water entity");
    assert_eq!(idx, 1);
    assert_eq!(found, *water);
}

#[test]
fn mesh_record_without_material_uses_handle_zero() {
    let mut assets = Assets::new();
    let mut scene = Scene::new();
    let records = vec![SceneRecord::MeshRec {
        mesh_name: "rock.glb".to_owned(),
        material_name: None,
        position: v3(0.0, 0.0, 0.0),
        rotation: v3(0.0, 0.0, 0.0),
        scale: v3(1.0, 1.0, 1.0),
        update: None,
    }];
    apply_scene_records(&records, &mut assets, &mut scene);
    match &scene.entities[0] {
        Entity::Mesh(m) => assert_eq!(m.mat, 0),
        other => panic!("unexpected entity {:?}", other),
    }
}

#[test]
fn keyboard_tracks_only_wasd() {
    let mut k = Keyboard::default();
    assert!(!k.get_pressed(KeyCode::W));
    k.set_pressed(KeyCode::W, true);
    k.set_pressed(KeyCode::X, true);
    assert!(k.get_pressed(KeyCode::W));
    assert!(!k.get_pressed(KeyCode::X));
    assert!(!k.get_pressed(KeyCode::S));
    k.set_pressed(KeyCode::W, false);
    assert!(!k.get_pressed(KeyCode::W));
}

#[test]
fn key_codes_map_digits_and_letters() {
    assert_eq!(KeyCode::from_u32(48), Some(KeyCode::Zero));
    assert_eq!(KeyCode::from_u32(57), Some(KeyCode::Nine));
    assert_eq!(KeyCode::from_u32(65), Some(KeyCode::A));
    assert_eq!(KeyCode::from_u32(87), Some(KeyCode::W));
    assert_eq!(KeyCode::from_u32(90), Some(KeyCode::Z));
    assert_eq!(KeyCode::from_u32(47), None);
    assert_eq!(KeyCode::from_u32(58), None);
    assert_eq!(KeyCode::from_u32(64), None);
    assert_eq!(KeyCode::from_u32(91), None);
}

#[test]
fn mouse_orbits_only_while_pressed() {
    let mut input = InputState::new();
    // Moving without a press does nothing.
    assert_eq!(input.handle_msg(&Msg::MouseMove(10, 10)), CameraAction::Still);
    assert_eq!(input.handle_msg(&Msg::MouseDown(100, 50)), CameraAction::Still);
    // Held: the delta orbits the camera.
    assert_eq!(
        input.handle_msg(&Msg::MouseMove(110, 45)),
        CameraAction::Orbit { dx: -10, dy: -5 }
    );
    assert_eq!(input.handle_msg(&Msg::MouseUp), CameraAction::Still);
    assert_eq!(input.handle_msg(&Msg::MouseMove(0, 0)), CameraAction::Still);
}

#[test]
fn clock_and_zoom_become_camera_actions() {
    let mut input = InputState::new();
    let dt = 16.6f32.to_bits();
    assert_eq!(input.handle_msg(&Msg::AdvanceClock(dt)), CameraAction::Advance { dt_bits: dt });
    let z = (-2.0f32).to_bits();
    assert_eq!(input.handle_msg(&Msg::Zoom(z)), CameraAction::ZoomBy { delta_bits: z });
    input.handle_msg(&Msg::KeyDown(KeyCode::D));
    assert!(input.keyboard.get_pressed(KeyCode::D));
    input.handle_msg(&Msg::KeyUp(KeyCode::D));
    assert!(!input.keyboard.get_pressed(KeyCode::D));
}
