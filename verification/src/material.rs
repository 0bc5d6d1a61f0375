//! Materials: named bags of uniform values, and the plan for binding them to
//! a shader.
//!
//! Binding does not talk to the graphics backend directly: `Mat::bind_plan`
//! resolves every uniform against the asset registry and returns the ordered
//! list of binding commands the backend must issue, with texture units
//! allocated sequentially from a reserved base so that material textures
//! never collide with the fixed units of the water pass.

use vstd::prelude::*;

use crate::assets::Assets;

verus! {

/// A texture as the logic sees it: the backend's texture object name. The
/// pixels live on the GPU; the registry only routes handles to objects.
#[derive(Clone, Copy, PartialEq, Eq, Structural, Debug)]
pub struct Texture {
    pub id: u32,
}

/// One uniform value of a material: a float (carried as its bit pattern), an
/// integer, or a texture handle into the texture registry.
#[derive(Clone, Copy, PartialEq, Eq, Structural, Debug)]
pub enum Uniform {
    Float(u32),
    Int(i32),
    Tex(usize),
}

/// First texture unit handed to material textures. Units below it are
/// reserved for the water pass's fixed bindings.
pub const MATERIAL_TEX_UNIT_BASE: usize = 10;

/// The texels of the shared error texture: a fixed 2x2 green/magenta
/// checkerboard, as RGBA bytes in row order. The backend uploads exactly
/// these during the initialization step.
pub fn error_texture_pixels() -> (r: Vec<u8>)
    ensures
        r@ == seq![
            0u8, 255u8, 0u8, 255u8, 255u8, 0u8, 255u8, 255u8, 255u8, 0u8, 255u8, 255u8, 0u8,
            255u8, 0u8, 255u8,
        ],
{
    let r: Vec<u8> = vec![0, 255, 0, 255, 255, 0, 255, 255, 255, 0, 255, 255, 0, 255, 0, 255];
    proof {
        assert(r@ =~= seq![
            0u8, 255u8, 0u8, 255u8, 255u8, 0u8, 255u8, 255u8, 255u8, 0u8, 255u8, 255u8, 0u8,
            255u8, 0u8, 255u8,
        ]);
    }
    r
}

/// An ordered list of (uniform name, value) pairs, bound in declaration
/// order.
#[derive(Clone, Debug)]
pub struct Mat {
    uniforms: Vec<(String, Uniform)>,
}

/// One command of a binding plan, in the order the backend must issue them.
/// A texture command names the unit the texture was assigned, the texture
/// object to bind there (already the error texture when the handle did not
/// resolve), and whether that fallback happened.
#[derive(Clone, Debug)]
pub enum UniformBinding {
    Float { name: String, bits: u32 },
    Int { name: String, value: i32 },
    Tex { name: String, unit: usize, texture: Texture, fallback: bool },
}

/// How many of the first `i` uniforms are texture uniforms.
pub open spec fn tex_count(us: Seq<(String, Uniform)>, i: int) -> int
    decreases i,
{
    if i <= 0 {
        0
    } else {
        tex_count(us, i - 1) + if us[i - 1].1 is Tex {
            1int
        } else {
            0int
        }
    }
}

/// The binding command for uniform `i` of a material, given the registry: a
/// texture uniform gets unit base + (number of texture uniforms before it)
/// and resolves through the registry, falling back to the error texture.
pub open spec fn binding_spec(us: Seq<(String, Uniform)>, i: int, assets: Assets) -> UniformBinding {
    match us[i].1 {
        Uniform::Float(bits) => UniformBinding::Float { name: us[i].0, bits },
        Uniform::Int(value) => UniformBinding::Int { name: us[i].0, value },
        Uniform::Tex(handle) => UniformBinding::Tex {
            name: us[i].0,
            unit: (MATERIAL_TEX_UNIT_BASE + tex_count(us, i)) as usize,
            texture: assets.tex_or_error(handle),
            fallback: assets.textures_store().get_spec(handle) is None,
        },
    }
}

impl Mat {
    /// The uniform list, abstractly.
    pub closed spec fn uniforms_view(self) -> Seq<(String, Uniform)> {
        self.uniforms@
    }

    /// An empty material.
    pub fn new() -> (m: Mat)
        ensures
            m.uniforms_view() == Seq::<(String, Uniform)>::empty(),
    {
        Mat { uniforms: Vec::new() }
    }

    /// A material with the given uniforms, in the given order.
    pub fn filled(uniforms: Vec<(String, Uniform)>) -> (m: Mat)
        ensures
            m.uniforms_view() == uniforms@,
    {
        Mat { uniforms }
    }

    /// A material with the same uniforms.
    pub fn duplicate(&self) -> (m: Mat)
        ensures
            m.uniforms_view() == self.uniforms_view(),
    {
        let ghost us = self.uniforms@;
        let mut copied: Vec<(String, Uniform)> = Vec::new();
        let n = self.uniforms.len();
        let mut i: usize = 0;
        proof {
            assert(copied@ =~= us.take(0));
        }
        while i < n
            invariant
                n == us.len(),
                us == self.uniforms@,
                i <= n,
                copied@ == us.take(i as int),
            decreases n - i,
        {
            let p = &self.uniforms[i];
            copied.push((p.0.clone(), p.1));
            proof {
                assert(copied@ =~= us.take(i as int + 1));
            }
            i = i + 1;
        }
        proof {
            assert(us.take(n as int) =~= us);
        }
        Mat { uniforms: copied }
    }

    /// How many uniforms the material has.
    pub fn uniform_count(&self) -> (n: usize)
        ensures
            n == self.uniforms_view().len(),
    {
        self.uniforms.len()
    }

    /// The uniform list itself.
    pub fn uniforms_list(&self) -> (r: &Vec<(String, Uniform)>)
        ensures
            r@ == self.uniforms_view(),
    {
        &self.uniforms
    }

    /// Resolves every uniform in declaration order into the commands the
    /// backend must issue. Texture units count up from the reserved base, one
    /// per texture uniform; an unresolved texture handle is not an error: its
    /// command carries the shared error texture and says so.
    pub fn bind_plan(&self, assets: &Assets) -> (plan: Vec<UniformBinding>)
        requires
            assets.has_error_tex(),
            MATERIAL_TEX_UNIT_BASE + self.uniforms_view().len() <= usize::MAX,
        ensures
            plan@.len() == self.uniforms_view().len(),
            forall|i: int|
                0 <= i < plan@.len() ==> plan@[i] == binding_spec(
                    self.uniforms_view(),
                    i,
                    *assets,
                ),
    {
        let ghost us = self.uniforms@;
        let mut plan: Vec<UniformBinding> = Vec::new();
        let mut next_unit: usize = MATERIAL_TEX_UNIT_BASE;
        let n = self.uniforms.len();
        let mut i: usize = 0;
        while i < n
            invariant
                n == us.len(),
                us == self.uniforms@,
                assets.has_error_tex(),
                MATERIAL_TEX_UNIT_BASE + n <= usize::MAX,
                i <= n,
                plan@.len() == i,
                next_unit == MATERIAL_TEX_UNIT_BASE + tex_count(us, i as int),
                tex_count(us, i as int) <= i,
                forall|j: int| 0 <= j < i ==> plan@[j] == binding_spec(us, j, *assets),
            decreases n - i,
        {
            let name = self.uniforms[i].0.clone();
            match self.uniforms[i].1 {
                Uniform::Float(bits) => {
                    plan.push(UniformBinding::Float { name, bits });
                },
                Uniform::Int(value) => {
                    plan.push(UniformBinding::Int { name, value });
                },
                Uniform::Tex(handle) => {
                    let texture = assets.get_tex(handle);
                    let fallback = assets.tex_resolves(handle);
                    plan.push(
                        UniformBinding::Tex { name, unit: next_unit, texture, fallback: !fallback },
                    );
                    next_unit = next_unit + 1;
                },
            }
            i = i + 1;
        }
        plan
    }
}

} // verus!
