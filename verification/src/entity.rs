//! Entities and render stages.
//!
//! The entity set is closed and small, so entities are a tagged variant
//! dispatched through `should_render` and the renderer's plans: entities
//! decide only whether they take part in a stage, never how a stage renders.

use vstd::prelude::*;

use crate::mesh::Vec3Bits;

verus! {

/// One pass of the fixed per-frame render sequence.
#[derive(Copy, Clone, PartialEq, Eq, Structural, Debug)]
pub enum RenderStage {
    Refraction,
    Reflection,
    Water,
    Opaques,
}

/// A placed mesh instance: its mesh and fallback-material handles, its
/// placement, and an optional named update hook run by the scripting host.
#[derive(Clone, PartialEq, Eq, Debug)]
pub struct MeshEntity {
    pub mesh: usize,
    pub mat: usize,
    pub position: Vec3Bits,
    pub scale: Vec3Bits,
    pub rotation: Vec3Bits,
    pub update: Option<String>,
}

/// The water tile: its two distortion-texture handles and rendering
/// parameters (floats carried as bit patterns).
#[derive(Copy, Clone, PartialEq, Eq, Structural, Debug)]
pub struct WaterEntity {
    pub dudv: usize,
    pub normal: usize,
    pub reflectivity: u32,
    pub fresnel_strength: u32,
    pub wave_speed: u32,
    pub use_refraction: bool,
    pub use_reflection: bool,
}

/// An entity of the scene.
#[derive(Clone, PartialEq, Eq, Debug)]
pub enum Entity {
    Mesh(MeshEntity),
    Water(WaterEntity),
}

impl Entity {
    /// Stage participation: the water tile renders only in the water stage;
    /// a mesh renders in every stage but the water stage.
    pub open spec fn should_render_spec(self, stage: RenderStage) -> bool {
        match self {
            Entity::Mesh(_) => stage != RenderStage::Water,
            Entity::Water(_) => stage == RenderStage::Water,
        }
    }

    /// Pure stage filter; no side effects.
    pub fn should_render(&self, stage: &RenderStage) -> (r: bool)
        ensures
            r == self.should_render_spec(*stage),
    {
        match self {
            Entity::Mesh(_) => !(*stage == RenderStage::Water),
            Entity::Water(_) => *stage == RenderStage::Water,
        }
    }

    /// The named script hook to run on a simulation tick, if the entity has
    /// one: only a mesh instance can carry one; the water tile is static.
    pub fn update_hook(&self) -> (r: Option<&String>)
        ensures
            match self {
                Entity::Mesh(m) => match r {
                    Some(name) => m.update matches Some(u) && u == name,
                    None => m.update is None,
                },
                Entity::Water(_) => r is None,
            },
    {
        match self {
            Entity::Mesh(m) => m.update.as_ref(),
            Entity::Water(_) => None,
        }
    }
}

/// Stage filtering, for every stage at once: a water entity participates in
/// exactly the water stage, a mesh entity in exactly the others.
pub proof fn lemma_stage_filtering(w: WaterEntity, m: MeshEntity, stage: RenderStage)
    ensures
        Entity::Water(w).should_render_spec(stage) <==> stage == RenderStage::Water,
        Entity::Mesh(m).should_render_spec(stage) <==> stage != RenderStage::Water,
{
}

/// The index of the first water entity, if one is present.
pub open spec fn first_water_index(entities: Seq<Entity>) -> Option<int>
    decreases entities.len(),
{
    if entities.len() == 0 {
        None
    } else if entities.first() is Water {
        Some(0)
    } else {
        match first_water_index(entities.drop_first()) {
            Some(i) => Some(i + 1),
            None => None,
        }
    }
}

/// The scene's entities, in insertion order. A scene reload clears the whole
/// sequence at once; entities are never removed one by one.
pub struct Scene {
    pub entities: Vec<Entity>,
}

impl Scene {
    /// An empty scene.
    pub fn new() -> (s: Scene)
        ensures
            s.entities@.len() == 0,
    {
        Scene { entities: Vec::new() }
    }

    /// Destroys every entity, as a scene reload does.
    pub fn clear_entities(&mut self)
        ensures
            final(self).entities@.len() == 0,
    {
        self.entities.clear();
    }

    /// Appends an entity.
    pub fn push_entity(&mut self, e: Entity)
        ensures
            final(self).entities@ == old(self).entities@.push(e),
    {
        self.entities.push(e);
    }

    /// The first water entity of the scene, if any, with its index.
    pub fn find_water(&self) -> (r: Option<(usize, WaterEntity)>)
        ensures
            match r {
                Some(p) => first_water_index(self.entities@) == Some(p.0 as int)
                    && self.entities@[p.0 as int] == Entity::Water(p.1),
                None => first_water_index(self.entities@) is None,
            },
    {
        let ghost all = self.entities@;
        let n = self.entities.len();
        let mut i: usize = 0;
        proof {
            assert(all.skip(0) =~= all);
        }
        while i < n
            invariant
                n == all.len(),
                all == self.entities@,
                i <= n,
                forall|j: int| 0 <= j < i ==> !(all[j] is Water),
                first_water_index(all) == match first_water_index(all.skip(i as int)) {
                    Some(k) => Some(k + i),
                    None => None::<int>,
                },
            decreases n - i,
        {
            proof {
                assert(all.skip(i as int).first() == all[i as int]);
                assert(all.skip(i as int).drop_first() =~= all.skip(i as int + 1));
            }
            match &self.entities[i] {
                Entity::Water(w) => {
                    return Some((i, *w));
                },
                Entity::Mesh(_) => {},
            }
            i = i + 1;
        }
        proof {
            assert(all.skip(n as int) =~= Seq::<Entity>::empty());
        }
        None
    }
}

} // verus!
