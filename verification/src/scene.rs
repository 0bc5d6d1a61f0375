//! Scene loading and input handling.
//!
//! The scripting front end parses scene text into plain records; applying
//! the records is this module's verified work: it clears the entity list,
//! registers every named requirement with the asset registry, and builds the
//! entities over the handles it was given. Input messages update the
//! keyboard and mouse state here and reduce to a camera action the host's
//! floating-point camera executes.

use vstd::prelude::*;

use crate::assets::Assets;
use crate::entity::{Entity, MeshEntity, Scene, WaterEntity};
use crate::keyboard::{set_pressed_post, KeyCode, Keyboard};
use crate::material::Mat;
use crate::mesh::Vec3Bits;
use crate::registry::{lookup, store_extends};

verus! {

/// A scene-description message from the scripting host.
pub enum LuaMsg {
    Load(String),
}

/// One record of a parsed scene description.
pub enum SceneRecord {
    MeshRec {
        mesh_name: String,
        material_name: Option<String>,
        position: Vec3Bits,
        rotation: Vec3Bits,
        scale: Vec3Bits,
        update: Option<String>,
    },
    MaterialRec { name: String, mat: Mat },
    WaterRec {
        reflectivity: u32,
        fresnel_strength: u32,
        wave_speed: u32,
        use_refraction: bool,
        use_reflection: bool,
    },
}

/// The water tile's distortion map, requested for every water record.
pub open spec fn dudv_path() -> Seq<char> {
    "assets/textures/dudvmap.png"@
}

/// The water tile's normal map, requested for every water record.
pub open spec fn normal_path() -> Seq<char> {
    "assets/textures/normalmap.png"@
}

/// How many of the first `upto` records build an entity (mesh and water
/// records do; material records do not).
pub open spec fn entity_count_before(records: Seq<SceneRecord>, upto: int) -> int
    decreases upto,
{
    if upto <= 0 {
        0
    } else {
        entity_count_before(records, upto - 1) + (match records[upto - 1] {
            SceneRecord::MaterialRec { .. } => 0int,
            _ => 1int,
        })
    }
}

/// Whether a material record named `name` stands strictly between positions
/// `lo` and `hi`.
pub open spec fn material_named_in(
    records: Seq<SceneRecord>,
    lo: int,
    hi: int,
    name: Seq<char>,
) -> bool {
    exists|l: int|
        lo < l < hi && ((#[trigger] records[l]) matches SceneRecord::MaterialRec { name: n2, .. }
            && n2@ == name)
}

/// What applying record `k` leaves behind, judged against the registry and
/// entity list after the first `hi` records have been applied. A mesh or
/// water record has built the entity at its position, whose handles are what
/// the registry maps the record's names to; a material record's material
/// sits in the slot its name is bound to. Name bindings shadowed by a later
/// material record of the same name are exempted: only the latest binding of
/// a name is promised.
pub open spec fn record_realized(
    a: Assets,
    entities: Seq<Entity>,
    records: Seq<SceneRecord>,
    k: int,
    hi: int,
) -> bool {
    match records[k] {
        SceneRecord::MeshRec { mesh_name, material_name, position, rotation, scale, update } => {
            &&& entities[entity_count_before(records, k)] matches Entity::Mesh(m)
            &&& a.gltf_store().handle_of(mesh_name@) == Some(m.mesh)
            &&& m.position == position
            &&& m.rotation == rotation
            &&& m.scale == scale
            &&& m.update == update
            &&& match material_name {
                Some(n) => !material_named_in(records, k, hi, n@)
                    ==> a.materials_store().handle_of(n@) == Some(m.mat),
                None => m.mat == 0,
            }
        },
        SceneRecord::MaterialRec { name, mat } => !material_named_in(records, k, hi, name@) ==> (
        a.materials_store().handle_of(name@) matches Some(h)
            && a.materials_store().get_spec(h) matches Some(m2) && m2.uniforms_view()
            == mat.uniforms_view()),
        SceneRecord::WaterRec {
            reflectivity,
            fresnel_strength,
            wave_speed,
            use_refraction,
            use_reflection,
        } => {
            &&& entities[entity_count_before(records, k)] matches Entity::Water(w)
            &&& a.textures_store().handle_of(dudv_path()) == Some(w.dudv)
            &&& a.textures_store().handle_of(normal_path()) == Some(w.normal)
            &&& w.reflectivity == reflectivity
            &&& w.fresnel_strength == fresnel_strength
            &&& w.wave_speed == wave_speed
            &&& w.use_refraction == use_refraction
            &&& w.use_reflection == use_reflection
        },
    }
}

/// The entity count over a longer prefix is no smaller, and strictly larger
/// once an entity record lies in between.
proof fn lemma_entity_count_nonneg(records: Seq<SceneRecord>, j: int)
    requires
        0 <= j,
    ensures
        0 <= entity_count_before(records, j),
    decreases j,
{
    if j > 0 {
        lemma_entity_count_nonneg(records, j - 1);
    }
}

proof fn lemma_entity_count_mono(records: Seq<SceneRecord>, j: int, k: int)
    requires
        0 <= j <= k,
    ensures
        entity_count_before(records, j) <= entity_count_before(records, k),
        0 <= entity_count_before(records, j),
        j < k && !(records[j] matches SceneRecord::MaterialRec { .. }) ==> entity_count_before(
            records,
            j,
        ) + 1 <= entity_count_before(records, k),
    decreases k - j,
{
    lemma_entity_count_nonneg(records, j);
    if j < k {
        lemma_entity_count_mono(records, j + 1, k);
    }
}

/// Clears the scene and applies a parsed scene description in order: every
/// mesh record requires its mesh (and its material, when it names one) and
/// appends a mesh entity over those handles; every material record inserts
/// its material under its name; every water record requires the two water
/// textures and appends the water entity. Entities appear in record order.
pub fn apply_scene_records(records: &Vec<SceneRecord>, assets: &mut Assets, scene: &mut Scene)
    requires
        old(assets).wf(),
    ensures
        final(assets).wf(),
        final(assets).error_tex_spec() == old(assets).error_tex_spec(),
        store_extends(old(assets).textures_store(), final(assets).textures_store()),
        store_extends(old(assets).gltf_store(), final(assets).gltf_store()),
        crate::registry::pending_grows(
            old(assets).textures_store(),
            final(assets).textures_store(),
        ),
        crate::registry::pending_grows(old(assets).gltf_store(), final(assets).gltf_store()),
        final(scene).entities@.len() == entity_count_before(records@, records@.len() as int),
        forall|k: int|
            0 <= k < records@.len() ==> record_realized(
                *final(assets),
                final(scene).entities@,
                records@,
                k,
                records@.len() as int,
            ),
{
    scene.clear_entities();
    let count = records.len();
    let mut k: usize = 0;
    while k < count
        invariant
            count == records@.len(),
            k <= count,
            assets.wf(),
            assets.error_tex_spec() == old(assets).error_tex_spec(),
            store_extends(old(assets).textures_store(), assets.textures_store()),
            store_extends(old(assets).gltf_store(), assets.gltf_store()),
            crate::registry::pending_grows(old(assets).textures_store(), assets.textures_store()),
            crate::registry::pending_grows(old(assets).gltf_store(), assets.gltf_store()),
            scene.entities@.len() == entity_count_before(records@, k as int),
            forall|j: int|
                0 <= j < k ==> record_realized(
                    *assets,
                    scene.entities@,
                    records@,
                    j,
                    k as int,
                ),
        decreases count - k,
    {
        let ghost pre = *assets;
        let ghost pre_entities = scene.entities@;
        match &records[k] {
            SceneRecord::MeshRec { mesh_name, material_name, position, rotation, scale, update } => {
                let mat: usize = match material_name {
                    Some(n) => assets.require_material(n.clone()),
                    None => 0,
                };
                let ghost mid = *assets;
                let mesh = assets.require_gltf(mesh_name.clone());
                let me = MeshEntity {
                    mesh,
                    mat,
                    position: *position,
                    scale: *scale,
                    rotation: *rotation,
                    update: match update {
                        Some(u) => Some(u.clone()),
                        None => None,
                    },
                };
                scene.push_entity(Entity::Mesh(me));
                proof {
                    if material_name is Some {
                        let n = material_name->Some_0;
                        match lookup(pre.materials_store().names_view(), n@) {
                            Some(h) => {},
                            None => {
                                crate::registry::lemma_lookup_push(
                                    pre.materials_store().names_view(),
                                    n@,
                                    mat,
                                );
                            },
                        }
                        assert(mid.materials_store().handle_of(n@) == Some(mat));
                    }
                    match lookup(mid.gltf_store().names_view(), mesh_name@) {
                        Some(h) => {},
                        None => {
                            crate::registry::lemma_lookup_push(
                                mid.gltf_store().names_view(),
                                mesh_name@,
                                mesh,
                            );
                        },
                    }
                    assert(assets.gltf_store().handle_of(mesh_name@) == Some(mesh));
                    crate::registry::lemma_require_extends(
                        mid.gltf_store(),
                        assets.gltf_store(),
                        mesh_name@,
                        mesh,
                    );
                    crate::registry::lemma_extends_trans(
                        old(assets).gltf_store(),
                        mid.gltf_store(),
                        assets.gltf_store(),
                    );
                    crate::registry::lemma_require_pending_grows(
                        mid.gltf_store(),
                        assets.gltf_store(),
                        mesh_name@,
                        mesh,
                    );
                    if material_name is Some {
                        crate::registry::lemma_require_extends(
                            pre.materials_store(),
                            mid.materials_store(),
                            material_name->Some_0@,
                            mat,
                        );
                    }
                    lemma_record_step(
                        pre,
                        *assets,
                        pre_entities,
                        scene.entities@,
                        records@,
                        k as int,
                    );
                    assert(record_realized(
                        *assets,
                        scene.entities@,
                        records@,
                        k as int,
                        k as int + 1,
                    ));
                }
            },
            SceneRecord::MaterialRec { name, mat } => {
                let dup = mat.duplicate();
                let ghost dupg = dup;
                assets.insert_material(name.clone(), dup);
                proof {
                    let h = pre.materials_store().slots_view().len() as usize;
                    assert(assets.materials_store().handle_of(name@) == Some(h));
                    assert(assets.materials_store().slots_view()
                        == pre.materials_store().slots_view().push(Some(dupg)));
                    assert(assets.materials_store().get_spec(h) == Some(dupg));
                    assert(dupg.uniforms_view() == mat.uniforms_view());
                    assert(!material_named_in(records@, k as int, k as int + 1, name@));
                    lemma_record_step(
                        pre,
                        *assets,
                        pre_entities,
                        scene.entities@,
                        records@,
                        k as int,
                    );
                    assert(record_realized(
                        *assets,
                        scene.entities@,
                        records@,
                        k as int,
                        k as int + 1,
                    ));
                }
            },
            SceneRecord::WaterRec {
                reflectivity,
                fresnel_strength,
                wave_speed,
                use_refraction,
                use_reflection,
            } => {
                let d = assets.require_texture("assets/textures/dudvmap.png".to_owned());
                let ghost mid = *assets;
                let nm = assets.require_texture("assets/textures/normalmap.png".to_owned());
                let we = WaterEntity {
                    dudv: d,
                    normal: nm,
                    reflectivity: *reflectivity,
                    fresnel_strength: *fresnel_strength,
                    wave_speed: *wave_speed,
                    use_refraction: *use_refraction,
                    use_reflection: *use_reflection,
                };
                scene.push_entity(Entity::Water(we));
                proof {
                    match lookup(pre.textures_store().names_view(), dudv_path()) {
                        Some(h) => {},
                        None => {
                            crate::registry::lemma_lookup_push(
                                pre.textures_store().names_view(),
                                dudv_path(),
                                d,
                            );
                        },
                    }
                    assert(mid.textures_store().handle_of(dudv_path()) == Some(d));
                    match lookup(mid.textures_store().names_view(), normal_path()) {
                        Some(h) => {},
                        None => {
                            crate::registry::lemma_lookup_push(
                                mid.textures_store().names_view(),
                                normal_path(),
                                nm,
                            );
                        },
                    }
                    assert(assets.textures_store().handle_of(normal_path()) == Some(nm));
                    crate::registry::lemma_require_extends(
                        pre.textures_store(),
                        mid.textures_store(),
                        dudv_path(),
                        d,
                    );
                    crate::registry::lemma_require_extends(
                        mid.textures_store(),
                        assets.textures_store(),
                        normal_path(),
                        nm,
                    );
                    crate::registry::lemma_extends_trans(
                        pre.textures_store(),
                        mid.textures_store(),
                        assets.textures_store(),
                    );
                    crate::registry::lemma_extends_trans(
                        old(assets).textures_store(),
                        pre.textures_store(),
                        assets.textures_store(),
                    );
                    crate::registry::lemma_require_pending_grows(
                        pre.textures_store(),
                        mid.textures_store(),
                        dudv_path(),
                        d,
                    );
                    crate::registry::lemma_require_pending_grows(
                        mid.textures_store(),
                        assets.textures_store(),
                        normal_path(),
                        nm,
                    );
                    assert(assets.textures_store().handle_of(dudv_path()) == Some(d));
                    lemma_record_step(
                        pre,
                        *assets,
                        pre_entities,
                        scene.entities@,
                        records@,
                        k as int,
                    );
                    assert(record_realized(
                        *assets,
                        scene.entities@,
                        records@,
                        k as int,
                        k as int + 1,
                    ));
                }
            },
        }
        k = k + 1;
    }
}

/// Mouse state: whether a button is held, and the last seen position.
#[derive(Copy, Clone, PartialEq, Eq, Structural, Debug, Default)]
pub struct Mouse {
    pub pressed: bool,
    pub x: i32,
    pub y: i32,
}

/// An input or clock message from the host shell. Scalars the camera
/// consumes as floating point travel as their bit patterns.
#[derive(Copy, Clone, PartialEq, Eq, Structural, Debug)]
pub enum Msg {
    AdvanceClock(u32),
    MouseDown(i32, i32),
    MouseUp,
    MouseMove(i32, i32),
    KeyDown(KeyCode),
    KeyUp(KeyCode),
    Zoom(u32),
}

/// What the host's floating-point camera should do in response to a
/// message. Orbit deltas are in whole mouse counts; the host scales them.
#[derive(Copy, Clone, PartialEq, Eq, Structural, Debug)]
pub enum CameraAction {
    Advance { dt_bits: u32 },
    Orbit { dx: i64, dy: i64 },
    ZoomBy { delta_bits: u32 },
    Still,
}

/// The input state a frame reads: keyboard and mouse.
#[derive(Copy, Clone, PartialEq, Eq, Structural, Debug)]
pub struct InputState {
    pub keyboard: Keyboard,
    pub mouse: Mouse,
}

impl InputState {
    /// Keyboard and mouse at rest.
    pub fn new() -> (s: InputState)
        ensures
            forall|c: KeyCode| !s.keyboard.pressed_spec(c),
            s.mouse == (Mouse { pressed: false, x: 0, y: 0 }),
    {
        InputState {
            keyboard: Keyboard::default(),
            mouse: Mouse { pressed: false, x: 0, y: 0 },
        }
    }

    /// Applies one message: key messages update the keyboard, mouse
    /// messages track the press state and position, and the returned action
    /// tells the camera what to do — in particular, moving the mouse orbits
    /// the camera exactly while the button is held, by the position delta.
    pub fn handle_msg(&mut self, msg: &Msg) -> (action: CameraAction)
        ensures
            match *msg {
                Msg::AdvanceClock(dt) => {
                    &&& *final(self) == *old(self)
                    &&& action == (CameraAction::Advance { dt_bits: dt })
                },
                Msg::MouseDown(x, y) => {
                    &&& final(self).mouse == (Mouse { pressed: true, x, y })
                    &&& final(self).keyboard == old(self).keyboard
                    &&& action is Still
                },
                Msg::MouseUp => {
                    &&& final(self).mouse == (Mouse { pressed: false, ..old(self).mouse })
                    &&& final(self).keyboard == old(self).keyboard
                    &&& action is Still
                },
                Msg::MouseMove(x, y) => {
                    if old(self).mouse.pressed {
                        &&& final(self).mouse == (Mouse { pressed: true, x, y })
                        &&& final(self).keyboard == old(self).keyboard
                        &&& action == (CameraAction::Orbit {
                            dx: (old(self).mouse.x as int - x as int) as i64,
                            dy: (y as int - old(self).mouse.y as int) as i64,
                        })
                    } else {
                        &&& *final(self) == *old(self)
                        &&& action is Still
                    }
                },
                Msg::KeyDown(k) => {
                    &&& set_pressed_post(old(self).keyboard, final(self).keyboard, k, true)
                    &&& final(self).mouse == old(self).mouse
                    &&& action is Still
                },
                Msg::KeyUp(k) => {
                    &&& set_pressed_post(old(self).keyboard, final(self).keyboard, k, false)
                    &&& final(self).mouse == old(self).mouse
                    &&& action is Still
                },
                Msg::Zoom(z) => {
                    &&& *final(self) == *old(self)
                    &&& action == (CameraAction::ZoomBy { delta_bits: z })
                },
            },
    {
        match msg {
            Msg::AdvanceClock(dt) => CameraAction::Advance { dt_bits: *dt },
            Msg::MouseDown(x, y) => {
                self.mouse.pressed = true;
                self.mouse.x = *x;
                self.mouse.y = *y;
                CameraAction::Still
            },
            Msg::MouseUp => {
                self.mouse.pressed = false;
                CameraAction::Still
            },
            Msg::MouseMove(x, y) => {
                if !self.mouse.pressed {
                    return CameraAction::Still;
                }
                let dx: i64 = self.mouse.x as i64 - *x as i64;
                let dy: i64 = *y as i64 - self.mouse.y as i64;
                self.mouse.x = *x;
                self.mouse.y = *y;
                CameraAction::Orbit { dx, dy }
            },
            Msg::KeyDown(k) => {
                self.keyboard.set_pressed(*k, true);
                CameraAction::Still
            },
            Msg::KeyUp(k) => {
                self.keyboard.set_pressed(*k, false);
                CameraAction::Still
            },
            Msg::Zoom(z) => CameraAction::ZoomBy { delta_bits: *z },
        }
    }
}

/// Applying record `k` preserves what the earlier records left behind: the
/// entity list only grew at the end, the stores only grew (a material
/// insert rebinds exactly its own name, which is what the shadowing
/// exemption allows for), and every earlier record stays realized with the
/// bound widened past `k`.
proof fn lemma_record_step(
    pre: Assets,
    post: Assets,
    pre_entities: Seq<Entity>,
    post_entities: Seq<Entity>,
    records: Seq<SceneRecord>,
    k: int,
)
    requires
        0 <= k < records.len(),
        pre_entities.len() == entity_count_before(records, k),
        post_entities.len() == entity_count_before(records, k + 1),
        forall|i: int| 0 <= i < pre_entities.len() ==> post_entities[i] == pre_entities[i],
        forall|j: int|
            0 <= j < k ==> #[trigger] record_realized(pre, pre_entities, records, j, k),
        store_extends(pre.textures_store(), post.textures_store()),
        store_extends(pre.gltf_store(), post.gltf_store()),
        match records[k] {
            SceneRecord::MaterialRec { name, .. } => {
                &&& post.materials_store().names_view() == pre.materials_store().names_view().push(
                    (name@, pre.materials_store().slots_view().len() as usize),
                )
                &&& post.materials_store().slots_view().len() >= pre.materials_store().slots_view().len()
                &&& forall|i: int|
                    0 <= i < pre.materials_store().slots_view().len()
                        ==> post.materials_store().slots_view()[i]
                        == pre.materials_store().slots_view()[i]
            },
            _ => store_extends(pre.materials_store(), post.materials_store()),
        },
    ensures
        forall|j: int|
            0 <= j < k ==> #[trigger] record_realized(post, post_entities, records, j, k + 1),
    decreases k,
{
    assert forall|j: int| 0 <= j < k implies #[trigger] record_realized(
        post,
        post_entities,
        records,
        j,
        k + 1,
    ) by {
        lemma_entity_count_mono(records, j, k);
        assert(record_realized(pre, pre_entities, records, j, k));
        match records[j] {
            SceneRecord::MeshRec { mesh_name, material_name, .. } => {
                assert(post_entities[entity_count_before(records, j)] == pre_entities[
                    entity_count_before(records, j)]);
                match material_name {
                    Some(n) => {
                        if !material_named_in(records, j, k + 1, n@) {
                            assert(!material_named_in(records, j, k, n@));
                            match records[k] {
                                SceneRecord::MaterialRec { name, .. } => {
                                    assert(!(name@ == n@));
                                    crate::registry::lemma_lookup_push_other(
                                        pre.materials_store().names_view(),
                                        name@,
                                        pre.materials_store().slots_view().len() as usize,
                                        n@,
                                    );
                                },
                                _ => {},
                            }
                        }
                    },
                    None => {},
                }
            },
            SceneRecord::MaterialRec { name, mat } => {
                if !material_named_in(records, j, k + 1, name@) {
                    assert(!material_named_in(records, j, k, name@));
                    match records[k] {
                        SceneRecord::MaterialRec { name: nk, .. } => {
                            assert(!(nk@ == name@));
                            crate::registry::lemma_lookup_push_other(
                                pre.materials_store().names_view(),
                                nk@,
                                pre.materials_store().slots_view().len() as usize,
                                name@,
                            );
                        },
                        _ => {},
                    }
                    assert(pre.materials_store().handle_of(name@) matches Some(h)
                        && post.materials_store().get_spec(h)
                        == pre.materials_store().get_spec(h));
                }
            },
            SceneRecord::WaterRec { .. } => {
                assert(post_entities[entity_count_before(records, j)] == pre_entities[
                    entity_count_before(records, j)]);
            },
        }
    }
}

} // verus!
