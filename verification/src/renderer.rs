//! The render-pass orchestrator's decisions.
//!
//! Nothing here touches the graphics backend. The orchestrator's state that
//! survives across frames — the vertex-state cache and the active shader
//! program — lives here with exact contracts, and each frame is planned as
//! data: an ordered list of passes with their target, viewport, clip plane
//! and camera choice, which the backend then executes.

use vstd::prelude::*;

use crate::entity::{Entity, RenderStage, WaterEntity};

verus! {

/// The fixed texture units reserved for the water pass and debug overlays;
/// material textures start above them.
#[derive(Copy, Clone, PartialEq, Eq, Structural, Debug)]
pub enum TextureUnit {
    Refraction,
    Reflection,
    Dudv,
    NormalMap,
    RefractionDepth,
    Stone,
}

/// The backend's first texture-unit selector; unit `n` is selected as this
/// value plus `n`.
pub const TEXTURE0: u32 = 33984;

impl TextureUnit {
    /// The unit's index, for sampler uniforms.
    pub fn texture_unit(&self) -> (r: i32)
        ensures
            r == match *self {
                TextureUnit::Refraction => 0int,
                TextureUnit::Reflection => 1,
                TextureUnit::Dudv => 2,
                TextureUnit::NormalMap => 3,
                TextureUnit::RefractionDepth => 4,
                TextureUnit::Stone => 5,
            },
    {
        match self {
            TextureUnit::Refraction => 0,
            TextureUnit::Reflection => 1,
            TextureUnit::Dudv => 2,
            TextureUnit::NormalMap => 3,
            TextureUnit::RefractionDepth => 4,
            TextureUnit::Stone => 5,
        }
    }

    /// The unit's backend selector, for activating the unit.
    #[allow(non_snake_case)]
    pub fn TEXTURE_N(&self) -> (r: u32)
        ensures
            r == TEXTURE0 + match *self {
                TextureUnit::Refraction => 0int,
                TextureUnit::Reflection => 1,
                TextureUnit::Dudv => 2,
                TextureUnit::NormalMap => 3,
                TextureUnit::RefractionDepth => 4,
                TextureUnit::Stone => 5,
            },
    {
        let u = self.texture_unit();
        TEXTURE0 + (u as u32)
    }
}

/// The shader programs the renderer switches between.
#[derive(Copy, Clone, PartialEq, Eq, Structural, Hash, Debug)]
pub enum ShaderKind {
    Water,
    NonSkinnedMesh,
    SkinnedMesh,
    TexturedQuad,
}

/// Tracks the currently bound shader program so that a rebind — assumed the
/// most expensive backend operation — is issued only when the requested kind
/// differs from the bound one.
pub struct ProgramTracker {
    active: Option<ShaderKind>,
}

impl ProgramTracker {
    /// The program currently bound, as far as the tracker knows.
    pub closed spec fn active_spec(self) -> Option<ShaderKind> {
        self.active
    }

    /// A fresh tracker: shader-system setup leaves the textured-quad program
    /// bound.
    pub fn new() -> (t: ProgramTracker)
        ensures
            t.active_spec() == Some(ShaderKind::TexturedQuad),
    {
        ProgramTracker { active: Some(ShaderKind::TexturedQuad) }
    }

    /// Selects a program: reports whether the backend must rebind, which is
    /// exactly when the requested kind is not the bound one; afterwards the
    /// requested kind is bound.
    pub fn use_program(&mut self, kind: ShaderKind) -> (rebind: bool)
        ensures
            rebind == (old(self).active_spec() != Some(kind)),
            final(self).active_spec() == Some(kind),
    {
        match self.active {
            Some(k) => {
                if k == kind {
                    false
                } else {
                    self.active = Some(kind);
                    true
                }
            },
            None => {
                self.active = Some(kind);
                true
            },
        }
    }
}

/// Backend index-type selector for 16-bit indices.
pub const GL_UNSIGNED_SHORT: u32 = 5123;

/// Backend index-type selector for 32-bit indices.
pub const GL_UNSIGNED_INT: u32 = 5125;

/// Per-drawable metadata cached beside a vertex array: the index width the
/// draw call must use.
#[derive(Copy, Clone, PartialEq, Eq, Structural, Debug)]
pub struct BufferedMesh {
    pub tri_size: u32,
}

/// A composite cache key for vertex state: the entity, the mesh inside its
/// document, and the primitive inside that mesh. Two different drawables
/// never collide, and a drawable collides with itself across frames.
#[derive(Copy, Clone, PartialEq, Eq, Structural, Debug)]
pub struct CacheKey {
    pub entity: usize,
    pub mesh: usize,
    pub primitive: usize,
}

/// What the cache stores per key: the backend's vertex-array object name and
/// the cached draw metadata.
#[derive(Copy, Clone, PartialEq, Eq, Structural, Debug)]
pub struct VaoEntry {
    pub vao: u32,
    pub buffered: BufferedMesh,
}

/// Looks a key up in cache entries; keys are unique, so first match.
pub open spec fn cache_lookup_seq(entries: Seq<(CacheKey, VaoEntry)>, key: CacheKey) -> Option<
    VaoEntry,
>
    decreases entries.len(),
{
    if entries.len() == 0 {
        None
    } else if entries.last().0 == key {
        Some(entries.last().1)
    } else {
        cache_lookup_seq(entries.drop_last(), key)
    }
}

/// The cross-frame cache of per-drawable vertex state. Populate on first
/// use: a key never seen before means the caller must upload attributes and
/// then insert; a key seen before only rebinds the stored vertex array.
/// Invalidated only by a full scene reload.
pub struct VertexStateCache {
    entries: Vec<(CacheKey, VaoEntry)>,
}

impl VertexStateCache {
    /// The cached entries, abstractly.
    pub closed spec fn entries_view(self) -> Seq<(CacheKey, VaoEntry)> {
        self.entries@
    }

    /// What a key resolves to.
    pub open spec fn lookup_spec(self, key: CacheKey) -> Option<VaoEntry> {
        cache_lookup_seq(self.entries_view(), key)
    }

    /// Whether the key has an entry.
    pub open spec fn contains_spec(self, key: CacheKey) -> bool {
        self.lookup_spec(key) is Some
    }

    /// An empty cache.
    pub fn new() -> (c: VertexStateCache)
        ensures
            c.entries_view() == Seq::<(CacheKey, VaoEntry)>::empty(),
            forall|k: CacheKey| !c.contains_spec(k),
    {
        let c = VertexStateCache { entries: Vec::new() };
        proof {
            assert forall|k: CacheKey| !c.contains_spec(k) by {
                assert(cache_lookup_seq(c.entries_view(), k) is None);
            }
        }
        c
    }

    /// Empties the cache, as a full scene reload does.
    pub fn clear(&mut self)
        ensures
            final(self).entries_view() == Seq::<(CacheKey, VaoEntry)>::empty(),
            forall|k: CacheKey| !final(self).contains_spec(k),
    {
        self.entries.clear();
        proof {
            assert forall|k: CacheKey| !self.contains_spec(k) by {
                assert(cache_lookup_seq(self.entries_view(), k) is None);
            }
        }
    }

    /// The stored entry for a key, if the key has been seen: a hit means the
    /// backend rebinds the stored vertex array and uploads nothing.
    pub fn lookup(&self, key: CacheKey) -> (r: Option<VaoEntry>)
        ensures
            r == self.lookup_spec(key),
    {
        let ghost all = self.entries_view();
        let mut i: usize = self.entries.len();
        proof {
            assert(all.take(i as int) =~= all);
        }
        while i > 0
            invariant
                i <= self.entries.len(),
                all == self.entries_view(),
                cache_lookup_seq(all, key) == cache_lookup_seq(all.take(i as int), key),
            decreases i,
        {
            i = i - 1;
            proof {
                assert(all.take(i as int + 1).last() == all[i as int]);
                assert(all.take(i as int + 1).drop_last() =~= all.take(i as int));
            }
            let p = &self.entries[i];
            if p.0 == key {
                return Some(p.1);
            }
        }
        proof {
            assert(all.take(0) =~= Seq::<(CacheKey, VaoEntry)>::empty());
        }
        None
    }

    /// Records the vertex state just uploaded for a first-seen key; the key
    /// resolves to it from now on and every other key is undisturbed.
    pub fn insert(&mut self, key: CacheKey, entry: VaoEntry)
        requires
            !old(self).contains_spec(key),
        ensures
            final(self).entries_view() == old(self).entries_view().push((key, entry)),
            final(self).lookup_spec(key) == Some(entry),
            forall|k: CacheKey|
                k != key ==> final(self).lookup_spec(k) == old(self).lookup_spec(k),
    {
        self.entries.push((key, entry));
        proof {
            assert(self.entries_view() =~= old(self).entries_view().push((key, entry)));
            assert forall|k: CacheKey| k != key implies self.lookup_spec(k) == old(
                self,
            ).lookup_spec(k) by {
                assert(self.entries_view().drop_last() =~= old(self).entries_view());
            }
        }
    }
}

/// Bit pattern of 1.0 as a 32-bit float.
pub const BITS_ONE: u32 = 1065353216;

/// Bit pattern of -1.0 as a 32-bit float.
pub const BITS_NEG_ONE: u32 = 3212836864;

/// Bit pattern of 1000000.0 as a 32-bit float: a plane offset so far up that
/// nothing is clipped.
pub const BITS_FAR: u32 = 1232348160;

/// Bit pattern of the water tile's height (0.0).
pub const WATER_TILE_Y_BITS: u32 = 0;

/// Flips a 32-bit float's sign by flipping its sign bit.
pub fn negate_bits(y: u32) -> (r: u32)
    ensures
        r == y ^ 0x8000_0000u32,
{
    y ^ 0x8000_0000u32
}

/// A pass's clipping choice, over the water height given as float bits:
/// keep only geometry below the plane (the refraction capture), keep only
/// geometry above it (the reflection capture), or clip nothing.
#[derive(Copy, Clone, PartialEq, Eq, Structural, Debug)]
pub enum ClipSpec {
    KeepBelow { plane_y: u32 },
    KeepAbove { plane_y: u32 },
    Unclipped,
}

/// The four plane components, as float bits, that a clip choice hands the
/// shader: keeping below uses normal (0,-1,0) with offset `y`; keeping above
/// uses normal (0,1,0) with offset `-y`; clipping nothing uses (0,1,0) with
/// an offset far above everything.
pub open spec fn clip_plane_spec(clip: ClipSpec) -> [u32; 4] {
    match clip {
        ClipSpec::KeepBelow { plane_y } => [0u32, BITS_NEG_ONE, 0u32, plane_y],
        ClipSpec::KeepAbove { plane_y } => [0u32, BITS_ONE, 0u32, plane_y ^ 0x8000_0000u32],
        ClipSpec::Unclipped => [0u32, BITS_ONE, 0u32, BITS_FAR],
    }
}

/// Builds the shader-facing plane components for a clip choice.
pub fn clip_plane_components(clip: &ClipSpec) -> (r: [u32; 4])
    ensures
        r == clip_plane_spec(*clip),
{
    match clip {
        ClipSpec::KeepBelow { plane_y } => [0u32, BITS_NEG_ONE, 0u32, *plane_y],
        ClipSpec::KeepAbove { plane_y } => [0u32, BITS_ONE, 0u32, negate_bits(*plane_y)],
        ClipSpec::Unclipped => [0u32, BITS_ONE, 0u32, BITS_FAR],
    }
}

/// The render targets a pass can draw into.
#[derive(Copy, Clone, PartialEq, Eq, Structural, Debug)]
pub enum FramebufferKind {
    Refraction,
    Reflection,
    Default,
}

/// What a color or depth attachment of an off-screen target is backed by.
#[derive(Copy, Clone, PartialEq, Eq, Structural, Debug)]
pub enum AttachmentKind {
    TextureNearest,
    TextureLinear,
    Renderbuffer,
}

/// The shape of an off-screen render target.
#[derive(Copy, Clone, PartialEq, Eq, Structural, Debug)]
pub struct FramebufferSpec {
    pub width: i32,
    pub height: i32,
    pub color: AttachmentKind,
    pub depth: AttachmentKind,
}

/// Side length of the reflection target: small, because wave distortion
/// hides its resolution.
pub const REFLECTION_TEXTURE_SIZE: i32 = 128;

/// Side length of the refraction target: large, because the water turns
/// transparent when seen from above.
pub const REFRACTION_TEXTURE_SIZE: i32 = 512;

/// The refraction target: fine resolution, with both color and depth read
/// back as textures (depth feeds the water-depth shading).
pub fn refraction_framebuffer_spec() -> (s: FramebufferSpec)
    ensures
        s == (FramebufferSpec {
            width: REFRACTION_TEXTURE_SIZE,
            height: REFRACTION_TEXTURE_SIZE,
            color: AttachmentKind::TextureNearest,
            depth: AttachmentKind::TextureNearest,
        }),
{
    FramebufferSpec {
        width: REFRACTION_TEXTURE_SIZE,
        height: REFRACTION_TEXTURE_SIZE,
        color: AttachmentKind::TextureNearest,
        depth: AttachmentKind::TextureNearest,
    }
}

/// The reflection target: coarse resolution, color as a texture and depth as
/// a renderbuffer nothing reads back.
pub fn reflection_framebuffer_spec() -> (s: FramebufferSpec)
    ensures
        s == (FramebufferSpec {
            width: REFLECTION_TEXTURE_SIZE,
            height: REFLECTION_TEXTURE_SIZE,
            color: AttachmentKind::TextureLinear,
            depth: AttachmentKind::Renderbuffer,
        }),
{
    FramebufferSpec {
        width: REFLECTION_TEXTURE_SIZE,
        height: REFLECTION_TEXTURE_SIZE,
        color: AttachmentKind::TextureLinear,
        depth: AttachmentKind::Renderbuffer,
    }
}

/// One planned pass: where to draw, at what viewport, with which clip plane
/// and camera buffer, whether to clear first, and which stage's entities to
/// draw. Clip plane and camera flip are per-stage constants, never
/// per-entity.
#[derive(Copy, Clone, PartialEq, Eq, Structural, Debug)]
pub struct RenderPass {
    pub target: FramebufferKind,
    pub viewport_width: i32,
    pub viewport_height: i32,
    pub clip: ClipSpec,
    pub stage: RenderStage,
    pub flip_camera_y: bool,
    pub clear: bool,
}

/// The reflection capture: into the reflection target at its resolution,
/// cleared first, drawn with the mirrored camera, keeping only geometry
/// above the water plane.
pub open spec fn reflection_pass_spec() -> RenderPass {
    RenderPass {
        target: FramebufferKind::Reflection,
        viewport_width: REFLECTION_TEXTURE_SIZE,
        viewport_height: REFLECTION_TEXTURE_SIZE,
        clip: ClipSpec::KeepAbove { plane_y: WATER_TILE_Y_BITS },
        stage: RenderStage::Reflection,
        flip_camera_y: true,
        clear: true,
    }
}

/// The refraction capture: into the refraction target at its resolution,
/// cleared first, drawn with the normal camera, keeping only geometry below
/// the water plane.
pub open spec fn refraction_pass_spec() -> RenderPass {
    RenderPass {
        target: FramebufferKind::Refraction,
        viewport_width: REFRACTION_TEXTURE_SIZE,
        viewport_height: REFRACTION_TEXTURE_SIZE,
        clip: ClipSpec::KeepBelow { plane_y: WATER_TILE_Y_BITS },
        stage: RenderStage::Refraction,
        flip_camera_y: false,
        clear: true,
    }
}

/// The water draw itself: on the default target at full viewport, unclipped.
pub open spec fn water_pass_spec(display_width: i32, display_height: i32) -> RenderPass {
    RenderPass {
        target: FramebufferKind::Default,
        viewport_width: display_width,
        viewport_height: display_height,
        clip: ClipSpec::Unclipped,
        stage: RenderStage::Water,
        flip_camera_y: false,
        clear: false,
    }
}

/// The opaque scenery: on the default target at full viewport, with the
/// plane that clips nothing.
pub open spec fn opaques_pass_spec(display_width: i32, display_height: i32) -> RenderPass {
    RenderPass {
        target: FramebufferKind::Default,
        viewport_width: display_width,
        viewport_height: display_height,
        clip: ClipSpec::Unclipped,
        stage: RenderStage::Opaques,
        flip_camera_y: false,
        clear: false,
    }
}

/// The fixed pass order of one frame: the reflection capture if the water
/// tile uses reflection, then the refraction capture if it uses refraction,
/// then the water draw, then the opaques; without a water tile, only the
/// opaques.
pub open spec fn frame_passes_spec(
    water: Option<WaterEntity>,
    display_width: i32,
    display_height: i32,
) -> Seq<RenderPass> {
    match water {
        Some(w) => {
            (if w.use_reflection {
                seq![reflection_pass_spec()]
            } else {
                Seq::empty()
            }) + (if w.use_refraction {
                seq![refraction_pass_spec()]
            } else {
                Seq::empty()
            }) + seq![
                water_pass_spec(display_width, display_height),
                opaques_pass_spec(display_width, display_height),
            ]
        },
        None => seq![opaques_pass_spec(display_width, display_height)],
    }
}

/// Plans one frame: exactly the fixed pass sequence for the given water
/// tile (if the scene has one) and display size. The backend executes the
/// passes in order.
pub fn plan_frame(water: Option<&WaterEntity>, display_width: i32, display_height: i32) -> (passes:
    Vec<RenderPass>)
    ensures
        passes@ == frame_passes_spec(
            match water {
                Some(w) => Some(*w),
                None => None,
            },
            display_width,
            display_height,
        ),
{
    let mut passes: Vec<RenderPass> = Vec::new();
    match water {
        Some(w) => {
            if w.use_reflection {
                passes.push(
                    RenderPass {
                        target: FramebufferKind::Reflection,
                        viewport_width: REFLECTION_TEXTURE_SIZE,
                        viewport_height: REFLECTION_TEXTURE_SIZE,
                        clip: ClipSpec::KeepAbove { plane_y: WATER_TILE_Y_BITS },
                        stage: RenderStage::Reflection,
                        flip_camera_y: true,
                        clear: true,
                    },
                );
            }
            if w.use_refraction {
                passes.push(
                    RenderPass {
                        target: FramebufferKind::Refraction,
                        viewport_width: REFRACTION_TEXTURE_SIZE,
                        viewport_height: REFRACTION_TEXTURE_SIZE,
                        clip: ClipSpec::KeepBelow { plane_y: WATER_TILE_Y_BITS },
                        stage: RenderStage::Refraction,
                        flip_camera_y: false,
                        clear: true,
                    },
                );
            }
            passes.push(
                RenderPass {
                    target: FramebufferKind::Default,
                    viewport_width: display_width,
                    viewport_height: display_height,
                    clip: ClipSpec::Unclipped,
                    stage: RenderStage::Water,
                    flip_camera_y: false,
                    clear: false,
                },
            );
            passes.push(
                RenderPass {
                    target: FramebufferKind::Default,
                    viewport_width: display_width,
                    viewport_height: display_height,
                    clip: ClipSpec::Unclipped,
                    stage: RenderStage::Opaques,
                    flip_camera_y: false,
                    clear: false,
                },
            );
            proof {
                assert(passes@ =~= frame_passes_spec(
                    Some(*w),
                    display_width,
                    display_height,
                ));
            }
        },
        None => {
            passes.push(
                RenderPass {
                    target: FramebufferKind::Default,
                    viewport_width: display_width,
                    viewport_height: display_height,
                    clip: ClipSpec::Unclipped,
                    stage: RenderStage::Opaques,
                    flip_camera_y: false,
                    clear: false,
                },
            );
            proof {
                assert(passes@ =~= frame_passes_spec(None, display_width, display_height));
            }
        },
    }
    passes
}

/// Clip-plane sign convention, over every frame plan: whenever the plan has
/// a refraction pass it clips with the keep-below plane at the water height
/// and the normal camera, and whenever it has a reflection pass it clips
/// with the keep-above plane at the water height and the mirrored camera;
/// the water tile's toggles decide exactly whether each capture is planned.
pub proof fn lemma_clip_plane_convention(water: WaterEntity, dw: i32, dh: i32)
    ensures
        forall|i: int|
            0 <= i < frame_passes_spec(Some(water), dw, dh).len() && (#[trigger] frame_passes_spec(
                Some(water),
                dw,
                dh,
            )[i]).stage == RenderStage::Refraction ==> frame_passes_spec(Some(water), dw, dh)[i]
                == refraction_pass_spec(),
        forall|i: int|
            0 <= i < frame_passes_spec(Some(water), dw, dh).len() && (#[trigger] frame_passes_spec(
                Some(water),
                dw,
                dh,
            )[i]).stage == RenderStage::Reflection ==> frame_passes_spec(Some(water), dw, dh)[i]
                == reflection_pass_spec(),
        water.use_refraction <==> exists|i: int|
            0 <= i < frame_passes_spec(Some(water), dw, dh).len() && (#[trigger] frame_passes_spec(
                Some(water),
                dw,
                dh,
            )[i]).stage == RenderStage::Refraction,
        water.use_reflection <==> exists|i: int|
            0 <= i < frame_passes_spec(Some(water), dw, dh).len() && (#[trigger] frame_passes_spec(
                Some(water),
                dw,
                dh,
            )[i]).stage == RenderStage::Reflection,
{
    let ps = frame_passes_spec(Some(water), dw, dh);
    if water.use_reflection {
        assert(ps[0].stage == RenderStage::Reflection);
    }
    if water.use_refraction {
        let at: int = if water.use_reflection {
            1
        } else {
            0
        };
        assert(ps[at].stage == RenderStage::Refraction);
    }
}

/// The indices of the entities that take part in a stage, in scene order.
pub open spec fn stage_indices(entities: Seq<Entity>, stage: RenderStage) -> Seq<int>
    decreases entities.len(),
{
    if entities.len() == 0 {
        Seq::empty()
    } else {
        let rest = stage_indices(entities.drop_last(), stage);
        if entities.last().should_render_spec(stage) {
            rest.push(entities.len() - 1)
        } else {
            rest
        }
    }
}

/// Asks every entity whether it renders in the stage and returns, in scene
/// order, the indices of those that do.
pub fn entities_for_stage(entities: &Vec<Entity>, stage: &RenderStage) -> (r: Vec<usize>)
    ensures
        r@.map_values(|u: usize| u as int) == stage_indices(entities@, *stage),
{
    let ghost all = entities@;
    let mut r: Vec<usize> = Vec::new();
    let n = entities.len();
    let mut i: usize = 0;
    proof {
        assert(all.take(0) =~= Seq::<Entity>::empty());
        assert(r@.map_values(|u: usize| u as int) =~= stage_indices(all.take(0), *stage));
    }
    while i < n
        invariant
            n == all.len(),
            all == entities@,
            i <= n,
            r@.map_values(|u: usize| u as int) == stage_indices(all.take(i as int), *stage),
        decreases n - i,
    {
        proof {
            assert(all.take(i as int + 1).drop_last() =~= all.take(i as int));
            assert(all.take(i as int + 1).last() == all[i as int]);
        }
        let ghost before = r@.map_values(|u: usize| u as int);
        if entities[i].should_render(stage) {
            r.push(i);
            proof {
                assert(r@.map_values(|u: usize| u as int) =~= before.push(i as int));
            }
        }
        i = i + 1;
    }
    proof {
        assert(all.take(n as int) =~= all);
    }
    r
}

/// A draw that could not be planned: a primitive with no index accessor, or
/// one whose index width the backend cannot draw. Both are hard failures for
/// that primitive, never silently downgraded.
#[derive(Copy, Clone, PartialEq, Eq, Structural, Debug)]
pub enum RenderError {
    NoIndices { mesh: usize, primitive: usize },
    UnsupportedIndexWidth { mesh: usize, primitive: usize },
}

/// One planned draw of a mesh entity: the vertex-state cache key, the node's
/// local placement for the backend to compose with the entity's placement,
/// the resolved material handle, and the indexed-draw parameters.
#[derive(Copy, Clone, PartialEq, Eq, Structural, Debug)]
pub struct DrawCmd {
    pub key: CacheKey,
    pub node_translation: crate::mesh::Vec3Bits,
    pub node_scale: crate::mesh::Vec3Bits,
    pub material: usize,
    pub index_count: usize,
    pub tri_size: u32,
}

/// The primitives a node contributes: those of its mesh, when it has one
/// and the document defines that mesh.
pub open spec fn node_prims(doc: crate::mesh::MeshDoc, ni: int) -> Seq<crate::mesh::MeshPrim> {
    match doc.nodes@[ni].mesh {
        Some(mi) => if mi < doc.meshes@.len() {
            doc.meshes@[mi as int].primitives@
        } else {
            Seq::empty()
        },
        None => Seq::empty(),
    }
}

/// Whether the backend can draw a primitive: it must have indices, 16-bit
/// ones always draw, 32-bit ones only when the backend supports them, and
/// 8-bit ones never.
pub open spec fn prim_supported(p: crate::mesh::MeshPrim, supports_u32: bool) -> bool {
    match p.indices {
        Some(crate::mesh::IndexKind::U16) => true,
        Some(crate::mesh::IndexKind::U32) => supports_u32,
        _ => false,
    }
}

/// Every primitive reachable through the document's nodes can be drawn.
pub open spec fn doc_prims_supported(doc: crate::mesh::MeshDoc, supports_u32: bool) -> bool {
    forall|ni: int, pi: int|
        0 <= ni < doc.nodes@.len() && 0 <= pi < node_prims(doc, ni).len() ==> prim_supported(
            #[trigger] node_prims(doc, ni)[pi],
            supports_u32,
        )
}

/// The draw planned for one primitive: keyed by (entity, mesh, primitive),
/// carrying its node's placement, the primitive's own material if it names
/// one and the entity's fallback material otherwise, and the index count and
/// width for the draw call.
pub open spec fn prim_cmd(
    p: crate::mesh::MeshPrim,
    pi: int,
    node: crate::mesh::MeshNode,
    mesh_index: usize,
    entity_index: usize,
    default_mat: usize,
) -> DrawCmd {
    DrawCmd {
        key: CacheKey { entity: entity_index, mesh: mesh_index, primitive: pi as usize },
        node_translation: node.translation,
        node_scale: node.scale,
        material: match p.material {
            Some(m) => m,
            None => default_mat,
        },
        index_count: p.index_count,
        tri_size: match p.indices {
            Some(crate::mesh::IndexKind::U32) => GL_UNSIGNED_INT,
            _ => GL_UNSIGNED_SHORT,
        },
    }
}

/// The draws of the first `upto` primitives of one node's mesh, in order.
pub open spec fn prim_cmds(
    prims: Seq<crate::mesh::MeshPrim>,
    upto: int,
    node: crate::mesh::MeshNode,
    mesh_index: usize,
    entity_index: usize,
    default_mat: usize,
) -> Seq<DrawCmd>
    decreases upto,
{
    if upto <= 0 {
        Seq::empty()
    } else {
        prim_cmds(prims, upto - 1, node, mesh_index, entity_index, default_mat).push(
            prim_cmd(prims[upto - 1], upto - 1, node, mesh_index, entity_index, default_mat),
        )
    }
}

/// The draws of the first `nodes_upto` nodes of the document, in node and
/// primitive order.
pub open spec fn doc_draw_cmds(
    doc: crate::mesh::MeshDoc,
    nodes_upto: int,
    entity_index: usize,
    default_mat: usize,
) -> Seq<DrawCmd>
    decreases nodes_upto,
{
    if nodes_upto <= 0 {
        Seq::empty()
    } else {
        doc_draw_cmds(doc, nodes_upto - 1, entity_index, default_mat) + (match doc.nodes@[nodes_upto
            - 1].mesh {
            Some(mi) => if mi < doc.meshes@.len() {
                prim_cmds(
                    doc.meshes@[mi as int].primitives@,
                    doc.meshes@[mi as int].primitives@.len() as int,
                    doc.nodes@[nodes_upto - 1],
                    mi,
                    entity_index,
                    default_mat,
                )
            } else {
                Seq::empty()
            },
            None => Seq::empty(),
        })
    }
}

/// The error names an actual offending primitive of its kind, reachable
/// through some node.
pub open spec fn draw_error_witness(
    doc: crate::mesh::MeshDoc,
    supports_u32: bool,
    e: RenderError,
) -> bool {
    match e {
        RenderError::NoIndices { mesh, primitive } => exists|ni: int|
            0 <= ni < doc.nodes@.len() && (#[trigger] doc.nodes@[ni]).mesh == Some(mesh) && mesh
                < doc.meshes@.len() && primitive < doc.meshes@[mesh as int].primitives@.len()
                && doc.meshes@[mesh as int].primitives@[primitive as int].indices is None,
        RenderError::UnsupportedIndexWidth { mesh, primitive } => exists|ni: int|
            0 <= ni < doc.nodes@.len() && (#[trigger] doc.nodes@[ni]).mesh == Some(mesh) && mesh
                < doc.meshes@.len() && primitive < doc.meshes@[mesh as int].primitives@.len()
                && match doc.meshes@[mesh as int].primitives@[primitive as int].indices {
                    Some(crate::mesh::IndexKind::U8) => true,
                    Some(crate::mesh::IndexKind::Other) => true,
                    Some(crate::mesh::IndexKind::U32) => !supports_u32,
                    _ => false,
                },
    }
}

/// Walks the document's node graph and plans every primitive draw of a mesh
/// entity. Succeeds exactly when every reachable primitive can be drawn;
/// otherwise reports the offending primitive as a hard failure.
pub fn mesh_draw_plan(
    entity_index: usize,
    me: &crate::entity::MeshEntity,
    doc: &crate::mesh::MeshDoc,
    supports_u32: bool,
) -> (r: Result<Vec<DrawCmd>, RenderError>)
    ensures
        r is Ok <==> doc_prims_supported(*doc, supports_u32),
        r matches Ok(cmds) ==> cmds@ == doc_draw_cmds(
            *doc,
            doc.nodes@.len() as int,
            entity_index,
            me.mat,
        ),
        r matches Err(e) ==> draw_error_witness(*doc, supports_u32, e),
{
    let mut cmds: Vec<DrawCmd> = Vec::new();
    let node_count = doc.nodes.len();
    let mut ni: usize = 0;
    while ni < node_count
        invariant
            node_count == doc.nodes@.len(),
            ni <= node_count,
            cmds@ == doc_draw_cmds(*doc, ni as int, entity_index, me.mat),
            forall|nj: int, pj: int|
                0 <= nj < ni && 0 <= pj < node_prims(*doc, nj).len() ==> prim_supported(
                    #[trigger] node_prims(*doc, nj)[pj],
                    supports_u32,
                ),
        decreases node_count - ni,
    {
        let node = &doc.nodes[ni];
        match node.mesh {
            Some(mi) => {
                if mi < doc.meshes.len() {
                    let prims = &doc.meshes[mi].primitives;
                    let prim_count = prims.len();
                    let mut pi: usize = 0;
                    while pi < prim_count
                        invariant
                            node_count == doc.nodes@.len(),
                            ni < node_count,
                            doc.nodes@[ni as int].mesh == Some(mi),
                            *node == doc.nodes@[ni as int],
                            mi < doc.meshes@.len(),
                            prims@ == doc.meshes@[mi as int].primitives@,
                            prim_count == prims@.len(),
                            pi <= prim_count,
                            cmds@ == doc_draw_cmds(*doc, ni as int, entity_index, me.mat)
                                + prim_cmds(
                                prims@,
                                pi as int,
                                doc.nodes@[ni as int],
                                mi,
                                entity_index,
                                me.mat,
                            ),
                            forall|nj: int, pj: int|
                                0 <= nj < ni && 0 <= pj < node_prims(*doc, nj).len()
                                    ==> prim_supported(
                                    #[trigger] node_prims(*doc, nj)[pj],
                                    supports_u32,
                                ),
                            forall|pj: int|
                                0 <= pj < pi ==> prim_supported(
                                    #[trigger] node_prims(*doc, ni as int)[pj],
                                    supports_u32,
                                ),
                        decreases prim_count - pi,
                    {
                        let p = &prims[pi];
                        let tri_size: u32 = match p.indices {
                            None => {
                                proof {
                                    assert(node_prims(*doc, ni as int)[pi as int] == prims@[pi as int]);
                                    assert(!prim_supported(
                                        node_prims(*doc, ni as int)[pi as int],
                                        supports_u32,
                                    ));
                                }
                                return Err(RenderError::NoIndices { mesh: mi, primitive: pi });
                            },
                            Some(crate::mesh::IndexKind::U8)
                            | Some(crate::mesh::IndexKind::Other) => {
                                proof {
                                    assert(node_prims(*doc, ni as int)[pi as int] == prims@[pi as int]);
                                    assert(!prim_supported(
                                        node_prims(*doc, ni as int)[pi as int],
                                        supports_u32,
                                    ));
                                }
                                return Err(
                                    RenderError::UnsupportedIndexWidth { mesh: mi, primitive: pi },
                                );
                            },
                            Some(crate::mesh::IndexKind::U16) => GL_UNSIGNED_SHORT,
                            Some(crate::mesh::IndexKind::U32) => {
                                if supports_u32 {
                                    GL_UNSIGNED_INT
                                } else {
                                    proof {
                                        assert(node_prims(*doc, ni as int)[pi as int] == prims@[pi as int]);
                                        assert(!prim_supported(
                                            node_prims(*doc, ni as int)[pi as int],
                                            supports_u32,
                                        ));
                                    }
                                    return Err(
                                        RenderError::UnsupportedIndexWidth {
                                            mesh: mi,
                                            primitive: pi,
                                        },
                                    );
                                }
                            },
                        };
                        let material = match p.material {
                            Some(m) => m,
                            None => me.mat,
                        };
                        let cmd = DrawCmd {
                            key: CacheKey { entity: entity_index, mesh: mi, primitive: pi },
                            node_translation: node.translation,
                            node_scale: node.scale,
                            material,
                            index_count: p.index_count,
                            tri_size,
                        };
                        proof {
                            assert(cmd == prim_cmd(
                                prims@[pi as int],
                                pi as int,
                                doc.nodes@[ni as int],
                                mi,
                                entity_index,
                                me.mat,
                            ));
                        }
                        cmds.push(cmd);
                        proof {
                            assert(node_prims(*doc, ni as int)[pi as int] == prims@[pi as int]);
                            assert(prim_supported(
                                node_prims(*doc, ni as int)[pi as int],
                                supports_u32,
                            ));
                            assert(cmds@ =~= doc_draw_cmds(*doc, ni as int, entity_index, me.mat)
                                + prim_cmds(
                                prims@,
                                pi as int + 1,
                                doc.nodes@[ni as int],
                                mi,
                                entity_index,
                                me.mat,
                            ));
                        }
                        pi = pi + 1;
                    }
                    proof {
                        assert(cmds@ =~= doc_draw_cmds(*doc, ni as int + 1, entity_index, me.mat));
                        assert forall|pj: int|
                            0 <= pj < node_prims(*doc, ni as int).len() implies prim_supported(
                            #[trigger] node_prims(*doc, ni as int)[pj],
                            supports_u32,
                        ) by {}
                    }
                } else {
                    proof {
                        assert(node_prims(*doc, ni as int) =~= Seq::<crate::mesh::MeshPrim>::empty());
                        assert(cmds@ =~= doc_draw_cmds(*doc, ni as int + 1, entity_index, me.mat));
                    }
                }
            },
            None => {
                proof {
                    assert(node_prims(*doc, ni as int) =~= Seq::<crate::mesh::MeshPrim>::empty());
                    assert(cmds@ =~= doc_draw_cmds(*doc, ni as int + 1, entity_index, me.mat));
                }
            },
        }
        ni = ni + 1;
    }
    Ok(cmds)
}

/// The water pass's fixed bindings: the two distortion textures resolved
/// through the registry (with the error-texture fallback), the fixed texture
/// units they and the two capture targets are bound to, and the water
/// parameters handed to the shader as float bits.
#[derive(Copy, Clone, PartialEq, Eq, Structural, Debug)]
pub struct WaterBindings {
    pub dudv_unit: usize,
    pub normal_unit: usize,
    pub refraction_unit: usize,
    pub refraction_depth_unit: usize,
    pub reflection_unit: usize,
    pub dudv_texture: crate::material::Texture,
    pub normal_texture: crate::material::Texture,
    pub reflectivity: u32,
    pub fresnel_strength: u32,
    pub wave_speed: u32,
    pub use_refraction: bool,
    pub use_reflection: bool,
}

/// Resolves the water tile's bindings: units 0 to 4 in the fixed order
/// dudv, normal map, refraction color, refraction depth, reflection color;
/// both texture handles resolve through the registry and fall back to the
/// error texture; the parameters are passed through unchanged.
pub fn water_bind_plan(w: &WaterEntity, assets: &crate::assets::Assets) -> (b: WaterBindings)
    requires
        assets.has_error_tex(),
    ensures
        b == (WaterBindings {
            dudv_unit: 0usize,
            normal_unit: 1usize,
            refraction_unit: 2usize,
            refraction_depth_unit: 3usize,
            reflection_unit: 4usize,
            dudv_texture: assets.tex_or_error(w.dudv),
            normal_texture: assets.tex_or_error(w.normal),
            reflectivity: w.reflectivity,
            fresnel_strength: w.fresnel_strength,
            wave_speed: w.wave_speed,
            use_refraction: w.use_refraction,
            use_reflection: w.use_reflection,
        }),
{
    WaterBindings {
        dudv_unit: 0,
        normal_unit: 1,
        refraction_unit: 2,
        refraction_depth_unit: 3,
        reflection_unit: 4,
        dudv_texture: assets.get_tex(w.dudv),
        normal_texture: assets.get_tex(w.normal),
        reflectivity: w.reflectivity,
        fresnel_strength: w.fresnel_strength,
        wave_speed: w.wave_speed,
        use_refraction: w.use_refraction,
        use_reflection: w.use_reflection,
    }
}

/// The opaque-mesh material's fixed bindings: its two textures resolved
/// through the registry, on the two fixed units above the water pass's.
#[derive(Copy, Clone, PartialEq, Eq, Structural, Debug)]
pub struct AlbedoBindings {
    pub tex_unit: usize,
    pub normal_unit: usize,
    pub tex: crate::material::Texture,
    pub normal: crate::material::Texture,
}

/// Resolves an opaque mesh's albedo and normal textures: units 11 and 12,
/// with the error-texture fallback.
pub fn albedo_bind_plan(
    tex: usize,
    normal: usize,
    assets: &crate::assets::Assets,
) -> (b: AlbedoBindings)
    requires
        assets.has_error_tex(),
    ensures
        b == (AlbedoBindings {
            tex_unit: 11usize,
            normal_unit: 12usize,
            tex: assets.tex_or_error(tex),
            normal: assets.tex_or_error(normal),
        }),
{
    AlbedoBindings {
        tex_unit: 11,
        normal_unit: 12,
        tex: assets.get_tex(tex),
        normal: assets.get_tex(normal),
    }
}

/// Looks a uniform name up in cached locations; names are unique, so first
/// match.
pub open spec fn location_lookup_seq(entries: Seq<(Seq<char>, i32)>, name: Seq<char>) -> Option<
    i32,
>
    decreases entries.len(),
{
    if entries.len() == 0 {
        None
    } else if entries.last().0 == name {
        Some(entries.last().1)
    } else {
        location_lookup_seq(entries.drop_last(), name)
    }
}

/// A shader's uniform locations, cached after the first lookup so that the
/// backend is queried once per name.
pub struct LocationCache {
    entries: Vec<(String, i32)>,
}

impl LocationCache {
    /// The cached name-to-location bindings, abstractly.
    pub closed spec fn entries_view(self) -> Seq<(Seq<char>, i32)> {
        self.entries@.map_values(|p: (String, i32)| (p.0@, p.1))
    }

    /// What a name resolves to.
    pub open spec fn lookup_spec(self, name: Seq<char>) -> Option<i32> {
        location_lookup_seq(self.entries_view(), name)
    }

    /// An empty cache.
    pub fn new() -> (c: LocationCache)
        ensures
            c.entries_view() == Seq::<(Seq<char>, i32)>::empty(),
    {
        let c = LocationCache { entries: Vec::new() };
        proof {
            assert(c.entries_view() =~= Seq::<(Seq<char>, i32)>::empty());
        }
        c
    }

    /// The cached location of a uniform name; `None` means the backend must
    /// be asked once, and the answer recorded.
    pub fn lookup(&self, name: &String) -> (r: Option<i32>)
        ensures
            r == self.lookup_spec(name@),
    {
        let ghost all = self.entries_view();
        let mut i: usize = self.entries.len();
        proof {
            assert(all.take(i as int) =~= all);
        }
        while i > 0
            invariant
                i <= self.entries.len(),
                all == self.entries_view(),
                location_lookup_seq(all, name@) == location_lookup_seq(all.take(i as int), name@),
            decreases i,
        {
            i = i - 1;
            proof {
                assert(all.take(i as int + 1).last() == all[i as int]);
                assert(all.take(i as int + 1).drop_last() =~= all.take(i as int));
            }
            let p = &self.entries[i];
            if p.0 == *name {
                return Some(p.1);
            }
        }
        proof {
            assert(all.take(0) =~= Seq::<(Seq<char>, i32)>::empty());
        }
        None
    }

    /// Records what the backend answered for a first-seen name; the name
    /// resolves to it from now on and every other name is undisturbed.
    pub fn record(&mut self, name: String, location: i32)
        requires
            old(self).lookup_spec(name@) is None,
        ensures
            final(self).lookup_spec(name@) == Some(location),
            forall|n: Seq<char>|
                n != name@ ==> final(self).lookup_spec(n) == old(self).lookup_spec(n),
    {
        self.entries.push((name, location));
        proof {
            assert(self.entries_view() =~= old(self).entries_view().push((name@, location)));
            assert forall|n: Seq<char>| n != name@ implies self.lookup_spec(n) == old(
                self,
            ).lookup_spec(n) by {
                assert(self.entries_view().drop_last() =~= old(self).entries_view());
            }
        }
    }
}

/// The water tile's two triangles, as the fixed index list over its four
/// corners.
pub fn water_tile_indices() -> (r: [u16; 6])
    ensures
        r@ == seq![0u16, 1u16, 2u16, 0u16, 2u16, 3u16],
{
    let r = [0u16, 1u16, 2u16, 0u16, 2u16, 3u16];
    proof {
        assert(r@ =~= seq![0u16, 1u16, 2u16, 0u16, 2u16, 3u16]);
    }
    r
}

/// Bit pattern of 30.5, the water tile's half extent on the y = 0 plane.
pub const WATER_TILE_CORNER_BITS: u32 = 1106509824;

/// Bit pattern of -30.5, the opposite corner coordinate.
pub const WATER_TILE_CORNER_NEG_BITS: u32 = 3253993472;

/// Bit pattern of 18.0: the scale applied to the tile's x and z when it is
/// drawn.
pub const WATER_TILE_SCALE_BITS: u32 = 1099956224;

/// The water tile's four corners on the y = 0 plane, as float bits in x, z
/// pairs: bottom left, bottom right, top right, top left — the order the
/// index list above refers to.
pub fn water_tile_corners() -> (r: [u32; 8])
    ensures
        r@ == seq![
            WATER_TILE_CORNER_NEG_BITS, WATER_TILE_CORNER_BITS, WATER_TILE_CORNER_BITS,
            WATER_TILE_CORNER_BITS, WATER_TILE_CORNER_BITS, WATER_TILE_CORNER_NEG_BITS,
            WATER_TILE_CORNER_NEG_BITS, WATER_TILE_CORNER_NEG_BITS,
        ],
{
    let r = [
        WATER_TILE_CORNER_NEG_BITS,
        WATER_TILE_CORNER_BITS,
        WATER_TILE_CORNER_BITS,
        WATER_TILE_CORNER_BITS,
        WATER_TILE_CORNER_BITS,
        WATER_TILE_CORNER_NEG_BITS,
        WATER_TILE_CORNER_NEG_BITS,
        WATER_TILE_CORNER_NEG_BITS,
    ];
    proof {
        assert(r@ =~= seq![
            WATER_TILE_CORNER_NEG_BITS, WATER_TILE_CORNER_BITS, WATER_TILE_CORNER_BITS,
            WATER_TILE_CORNER_BITS, WATER_TILE_CORNER_BITS, WATER_TILE_CORNER_NEG_BITS,
            WATER_TILE_CORNER_NEG_BITS, WATER_TILE_CORNER_NEG_BITS,
        ]);
    }
    r
}

/// A screen-space quad that shows one capture target for inspection: its
/// placement in pixels and the fixed texture unit whose content it draws.
#[derive(Copy, Clone, PartialEq, Eq, Structural, Debug)]
pub struct OverlayQuad {
    pub left: u16,
    pub top: u16,
    pub width: u16,
    pub height: u16,
    pub unit: TextureUnit,
}

/// The two debug overlays of a frame: the refraction target in the lower
/// left corner and the reflection target in the upper right, each 75 pixels
/// square. The display must be wide enough to place the right-hand one.
pub fn overlay_quads(display_width: u16, display_height: u16) -> (r: Vec<OverlayQuad>)
    requires
        display_width >= 75,
    ensures
        r@.len() == 2,
        r@[0] == (OverlayQuad {
            left: 0u16,
            top: 75u16,
            width: 75u16,
            height: 75u16,
            unit: TextureUnit::Refraction,
        }),
        r@[1] == (OverlayQuad {
            left: (display_width - 75) as u16,
            top: display_height,
            width: 75u16,
            height: 75u16,
            unit: TextureUnit::Reflection,
        }),
{
    let mut r: Vec<OverlayQuad> = Vec::new();
    r.push(
        OverlayQuad { left: 0, top: 75, width: 75, height: 75, unit: TextureUnit::Refraction },
    );
    r.push(
        OverlayQuad {
            left: display_width - 75,
            top: display_height,
            width: 75,
            height: 75,
            unit: TextureUnit::Reflection,
        },
    );
    r
}

/// Rendering the same drawable twice uploads exactly once: a first-seen key
/// misses, and once its upload is recorded the same key hits the recorded
/// vertex state, so the second pass reuses it and uploads nothing.
pub proof fn lemma_cache_hit_after_insert(
    c0: VertexStateCache,
    c1: VertexStateCache,
    key: CacheKey,
    entry: VaoEntry,
)
    requires
        !c0.contains_spec(key),
        c1.entries_view() == c0.entries_view().push((key, entry)),
    ensures
        c0.lookup_spec(key) is None,
        c1.lookup_spec(key) == Some(entry),
{
    assert(c1.entries_view().last() == (key, entry));
}

} // verus!
