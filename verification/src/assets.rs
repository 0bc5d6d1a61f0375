//! The aggregate asset registry: one store per asset kind plus the shared
//! error texture.
//!
//! Scene-description code registers requirements by name through the
//! `require_*` entry points; the asynchronous loading phase drains the
//! pending names and fills slots; the renderer reads loaded assets every
//! frame. A texture handle that does not resolve falls back to the error
//! texture and is never an error.

use vstd::prelude::*;
use vstd::string::StringExecFns;

use crate::material::{Mat, Texture, Uniform};
use crate::mesh::{MaterialTexRefs, MeshDoc};
use crate::registry::{
    consume_transition, load_transition, require_transition, store_extends, AssetStore,
};

verus! {

/// One texture requirement discovered inside a loaded mesh document: the
/// index of the document material and the prefixed URIs of its base-color
/// and normal textures.
pub struct TexJob {
    pub material_index: usize,
    pub color_uri: String,
    pub normal_uri: String,
}

/// A texture job as the specification sees it: material index, base-color
/// path, normal path.
pub type JobView = (usize, Seq<char>, Seq<char>);

/// Where mesh-referenced texture URIs are fetched from.
pub open spec fn texture_path(uri: Seq<char>) -> Seq<char> {
    "/assets/textures/"@ + uri
}

/// A job's specification view.
pub open spec fn job_view(j: TexJob) -> JobView {
    (j.material_index, j.color_uri@, j.normal_uri@)
}

/// The jobs of one document's materials, in material order: a material
/// contributes a job exactly when it names both a base-color texture URI and
/// a normal texture URI.
pub open spec fn doc_texture_jobs(mats: Seq<MaterialTexRefs>) -> Seq<JobView>
    decreases mats.len(),
{
    if mats.len() == 0 {
        Seq::empty()
    } else {
        let rest = doc_texture_jobs(mats.drop_last());
        match (mats.last().base_color, mats.last().normal) {
            (Some(c), Some(n)) => rest.push(
                (((mats.len() - 1) as usize), texture_path(c@), texture_path(n@)),
            ),
            _ => rest,
        }
    }
}

/// The jobs of every loaded mesh document, in handle order.
pub open spec fn all_texture_jobs(docs: Seq<Option<MeshDoc>>) -> Seq<JobView>
    decreases docs.len(),
{
    if docs.len() == 0 {
        Seq::empty()
    } else {
        all_texture_jobs(docs.drop_last()) + match docs.last() {
            Some(d) => doc_texture_jobs(d.materials@),
            None => Seq::empty(),
        }
    }
}

/// The texture paths a job list requires, in request order: each job's
/// base-color path, then its normal path.
pub open spec fn job_names(jobs: Seq<JobView>) -> Seq<Seq<char>>
    decreases jobs.len(),
{
    if jobs.len() == 0 {
        Seq::empty()
    } else {
        job_names(jobs.drop_last()) + seq![jobs.last().1, jobs.last().2]
    }
}

/// A pushed sequence holds an element exactly when the original did or the
/// element is the pushed one.
proof fn lemma_push_contains(s: Seq<Seq<char>>, x: Seq<char>, y: Seq<char>)
    ensures
        s.push(x).contains(y) <==> (s.contains(y) || y == x),
{
    if s.push(x).contains(y) {
        let i = choose|i: int| 0 <= i < s.push(x).len() && #[trigger] s.push(x)[i] == y;
        if i < s.len() {
            assert(s[i] == y);
        }
    }
    if s.contains(y) {
        let i = choose|i: int| 0 <= i < s.len() && #[trigger] s[i] == y;
        assert(s.push(x)[i] == y);
    }
    assert(s.push(x)[s.len() as int] == x);
}

/// One required name advances a run's picture exactly: relative to the
/// store the run started from, the names bound so far are the starting ones
/// plus the names required so far, and the pending queue has grown by the
/// first-seen unbound ones in request order.
proof fn lemma_texture_run_step(
    pre0: AssetStore<Texture>,
    t0: AssetStore<Texture>,
    t1: AssetStore<Texture>,
    names: Seq<Seq<char>>,
    name: Seq<char>,
    handle: usize,
)
    requires
        require_transition(t0, t1, name, handle),
        t0.pending_view() == pre0.pending_view() + crate::registry::newly_pending(pre0, names),
        forall|m: Seq<char>| #[trigger] t0.has_name(m) <==> (pre0.has_name(m) || names.contains(m)),
    ensures
        t1.pending_view() == pre0.pending_view() + crate::registry::newly_pending(
            pre0,
            names.push(name),
        ),
        forall|m: Seq<char>|
            #[trigger] t1.has_name(m) <==> (pre0.has_name(m) || names.push(name).contains(m)),
{
    crate::registry::lemma_require_run_step(t0, t1, name, handle);
    assert(names.push(name).drop_last() =~= names);
    assert(names.push(name).last() == name);
    assert forall|m: Seq<char>| #[trigger] t1.has_name(m) <==> (pre0.has_name(m) || names.push(
        name,
    ).contains(m)) by {
        lemma_push_contains(names, name, m);
    }
    if t0.has_name(name) {
        assert(pre0.has_name(name) || names.contains(name));
        assert(crate::registry::newly_pending(pre0, names.push(name))
            == crate::registry::newly_pending(pre0, names));
    } else {
        assert(!pre0.has_name(name) && !names.contains(name));
        assert(crate::registry::newly_pending(pre0, names.push(name))
            == crate::registry::newly_pending(pre0, names).push(name));
        assert(t1.pending_view() =~= pre0.pending_view() + crate::registry::newly_pending(
            pre0,
            names.push(name),
        ));
    }
}

/// The material a mesh-discovered texture pair is loaded as: exactly a
/// base-color uniform and a normal-map uniform over the two handles.
pub open spec fn is_mesh_surface_mat(m: Mat, color: usize, normal: usize) -> bool {
    &&& m.uniforms_view().len() == 2
    &&& m.uniforms_view()[0].0@ == "meshTexture"@
    &&& m.uniforms_view()[0].1 == Uniform::Tex(color)
    &&& m.uniforms_view()[1].0@ == "meshNormal"@
    &&& m.uniforms_view()[1].1 == Uniform::Tex(normal)
}

/// Both texture names of a job have handles in the registry.
pub open spec fn job_textures_required(a: Assets, j: JobView) -> bool {
    &&& a.textures_store().has_name(j.1)
    &&& a.textures_store().has_name(j.2)
}

/// The job's material slot holds the two-uniform surface material over the
/// handles its texture names resolve to.
pub open spec fn job_material_set(a: Assets, j: JobView) -> bool {
    a.materials_store().get_spec(j.0) matches Some(m) && is_mesh_surface_mat(
        m,
        a.textures_store().handle_of(j.1)->Some_0,
        a.textures_store().handle_of(j.2)->Some_0,
    )
}

/// Textures, meshes and materials, each under its own handle space, plus the
/// fallback texture installed by the initialization step.
pub struct Assets {
    textures: AssetStore<Texture>,
    gltf: AssetStore<MeshDoc>,
    materials: AssetStore<Mat>,
    error_tex: Option<Texture>,
}

impl Assets {
    /// The texture registry, abstractly.
    pub closed spec fn textures_store(self) -> AssetStore<Texture> {
        self.textures
    }

    /// The mesh-document registry, abstractly.
    pub closed spec fn gltf_store(self) -> AssetStore<MeshDoc> {
        self.gltf
    }

    /// The material registry, abstractly.
    pub closed spec fn materials_store(self) -> AssetStore<Mat> {
        self.materials
    }

    /// The installed error texture, if initialization has run.
    pub closed spec fn error_tex_spec(self) -> Option<Texture> {
        self.error_tex
    }

    /// Whether the fallback texture is in place.
    pub open spec fn has_error_tex(self) -> bool {
        self.error_tex_spec() is Some
    }

    /// All three stores are well formed.
    pub open spec fn wf(self) -> bool {
        &&& self.textures_store().wf()
        &&& self.gltf_store().wf()
        &&& self.materials_store().wf()
    }

    /// What a texture handle renders as: the loaded texture, or the error
    /// texture while the slot is empty or the handle out of range.
    pub open spec fn tex_or_error(self, handle: usize) -> Texture {
        match self.textures_store().get_spec(handle) {
            Some(t) => t,
            None => self.error_tex_spec()->Some_0,
        }
    }

    /// Empty registries; the error texture is installed later by an explicit
    /// initialization step, not here.
    pub fn new() -> (a: Assets)
        ensures
            a.wf(),
            crate::registry::fresh_store(a.textures_store()),
            crate::registry::fresh_store(a.gltf_store()),
            crate::registry::fresh_store(a.materials_store()),
            a.textures_store().pending_view() == Seq::<Seq<char>>::empty(),
            a.gltf_store().pending_view() == Seq::<Seq<char>>::empty(),
            !a.has_error_tex(),
    {
        Assets {
            textures: AssetStore::new(),
            gltf: AssetStore::new(),
            materials: AssetStore::new(),
            error_tex: None,
        }
    }

    /// Installs the fallback error texture created during the backend's
    /// initialization step. Everything else is untouched.
    pub fn load(&mut self, error_texture: Texture)
        ensures
            final(self).error_tex_spec() == Some(error_texture),
            final(self).textures_store() == old(self).textures_store(),
            final(self).gltf_store() == old(self).gltf_store(),
            final(self).materials_store() == old(self).materials_store(),
    {
        self.error_tex = Some(error_texture);
    }

    /// Whether the error texture has been installed.
    pub fn error_tex_loaded(&self) -> (r: bool)
        ensures
            r == self.has_error_tex(),
    {
        self.error_tex.is_some()
    }

    /// Requests a mesh document by name, allocating its handle on first
    /// sight.
    pub fn require_gltf(&mut self, gltf: String) -> (handle: usize)
        requires
            old(self).wf(),
        ensures
            final(self).wf(),
            require_transition(old(self).gltf_store(), final(self).gltf_store(), gltf@, handle),
            final(self).textures_store() == old(self).textures_store(),
            final(self).materials_store() == old(self).materials_store(),
            final(self).error_tex_spec() == old(self).error_tex_spec(),
    {
        self.gltf.require(gltf)
    }

    /// Requests a texture by name, allocating its handle on first sight.
    pub fn require_texture(&mut self, tex: String) -> (handle: usize)
        requires
            old(self).wf(),
        ensures
            final(self).wf(),
            require_transition(old(self).textures_store(), final(self).textures_store(), tex@, handle),
            final(self).gltf_store() == old(self).gltf_store(),
            final(self).materials_store() == old(self).materials_store(),
            final(self).error_tex_spec() == old(self).error_tex_spec(),
    {
        self.textures.require(tex)
    }

    /// Requests a material by name, allocating its handle on first sight.
    pub fn require_material(&mut self, mat: String) -> (handle: usize)
        requires
            old(self).wf(),
        ensures
            final(self).wf(),
            require_transition(old(self).materials_store(), final(self).materials_store(), mat@, handle),
            final(self).textures_store() == old(self).textures_store(),
            final(self).gltf_store() == old(self).gltf_store(),
            final(self).error_tex_spec() == old(self).error_tex_spec(),
    {
        self.materials.require(mat)
    }

    /// Binds a new material name straight to a filled slot.
    pub fn insert_material(&mut self, name: String, mat: Mat)
        requires
            old(self).wf(),
        ensures
            final(self).wf(),
            old(self).materials_store().slots_view().len() <= usize::MAX,
            final(self).materials_store().slots_view() == old(self).materials_store().slots_view().push(Some(mat)),
            final(self).materials_store().names_view() == old(self).materials_store().names_view().push(
                (name@, old(self).materials_store().slots_view().len() as usize),
            ),
            final(self).materials_store().pending_view() == old(self).materials_store().pending_view(),
            final(self).materials_store().handle_of(name@) == Some(
                old(self).materials_store().slots_view().len() as usize,
            ),
            final(self).textures_store() == old(self).textures_store(),
            final(self).gltf_store() == old(self).gltf_store(),
            final(self).error_tex_spec() == old(self).error_tex_spec(),
    {
        self.materials.insert(name, mat);
    }

    /// Fills the material slot at a raw handle, growing the slot vector as
    /// the registry's raw loading does; no name binding is involved.
    pub fn load_material(&mut self, index: usize, mat: Mat)
        requires
            old(self).wf(),
            index <= usize::MAX - 2,
        ensures
            final(self).wf(),
            final(self).materials_store().slots_view() == crate::registry::padded_slots(
                old(self).materials_store().slots_view(),
                index,
            ).update(index as int, Some(mat)),
            final(self).materials_store().names_view() == old(self).materials_store().names_view(),
            final(self).materials_store().pending_view() == old(self).materials_store().pending_view(),
            final(self).textures_store() == old(self).textures_store(),
            final(self).gltf_store() == old(self).gltf_store(),
            final(self).error_tex_spec() == old(self).error_tex_spec(),
    {
        self.materials.load_at(index, mat);
    }

    /// The material behind a handle; `None` while out of range or unloaded.
    pub fn get_material(&self, mat: usize) -> (r: Option<&Mat>)
        ensures
            match r {
                Some(m) => self.materials_store().get_spec(mat) == Some(*m),
                None => self.materials_store().get_spec(mat) is None,
            },
    {
        self.materials.get(mat)
    }

    /// Fills the slot of an already-required texture name with the decoded
    /// texture.
    pub fn register_tex(&mut self, tex_name: &str, tex: Texture)
        requires
            old(self).wf(),
            old(self).textures_store().has_name(tex_name@),
        ensures
            final(self).wf(),
            load_transition(old(self).textures_store(), final(self).textures_store(), tex_name@, tex),
            final(self).gltf_store() == old(self).gltf_store(),
            final(self).materials_store() == old(self).materials_store(),
            final(self).error_tex_spec() == old(self).error_tex_spec(),
    {
        self.textures.load(tex_name, tex);
    }

    /// The texture behind a handle, or the error texture when the handle
    /// does not resolve. Requires initialization to have installed the
    /// error texture; never fails after that.
    pub fn get_tex(&self, tex_name: usize) -> (r: Texture)
        requires
            self.has_error_tex(),
        ensures
            r == self.tex_or_error(tex_name),
    {
        match self.textures.get(tex_name) {
            Some(t) => *t,
            None => {
                match &self.error_tex {
                    Some(t) => *t,
                    None => vstd::pervasive::unreached(),
                }
            },
        }
    }

    /// Whether a texture handle resolves to a loaded texture (rather than
    /// falling back to the error texture).
    pub fn tex_resolves(&self, tex_name: usize) -> (r: bool)
        ensures
            r == (self.textures_store().get_spec(tex_name) is Some),
    {
        self.textures.get(tex_name).is_some()
    }

    /// The mesh document behind a handle; `None` while out of range or
    /// unloaded.
    pub fn get_gltf(&self, gltf_name: usize) -> (r: Option<&MeshDoc>)
        ensures
            match r {
                Some(d) => self.gltf_store().get_spec(gltf_name) == Some(*d),
                None => self.gltf_store().get_spec(gltf_name) is None,
            },
    {
        self.gltf.get(gltf_name)
    }

    /// Fills the slot of an already-required mesh name with the imported
    /// document.
    pub fn load_gltf(&mut self, gltf_name: &str, gltf: MeshDoc)
        requires
            old(self).wf(),
            old(self).gltf_store().has_name(gltf_name@),
        ensures
            final(self).wf(),
            load_transition(old(self).gltf_store(), final(self).gltf_store(), gltf_name@, gltf),
            final(self).textures_store() == old(self).textures_store(),
            final(self).materials_store() == old(self).materials_store(),
            final(self).error_tex_spec() == old(self).error_tex_spec(),
    {
        self.gltf.load(gltf_name, gltf);
    }

    /// Drains the mesh names requested since the last drain.
    pub fn consume_pending_meshes(&mut self) -> (drained: Vec<String>)
        requires
            old(self).wf(),
        ensures
            final(self).wf(),
            consume_transition(
                old(self).gltf_store(),
                final(self).gltf_store(),
                drained@.map_values(|s: String| s@),
            ),
            final(self).textures_store() == old(self).textures_store(),
            final(self).materials_store() == old(self).materials_store(),
            final(self).error_tex_spec() == old(self).error_tex_spec(),
    {
        self.gltf.consume_loading()
    }

    /// Drains the texture names requested since the last drain.
    pub fn consume_pending_textures(&mut self) -> (drained: Vec<String>)
        requires
            old(self).wf(),
        ensures
            final(self).wf(),
            consume_transition(
                old(self).textures_store(),
                final(self).textures_store(),
                drained@.map_values(|s: String| s@),
            ),
            final(self).gltf_store() == old(self).gltf_store(),
            final(self).materials_store() == old(self).materials_store(),
            final(self).error_tex_spec() == old(self).error_tex_spec(),
    {
        self.textures.consume_loading()
    }

    /// The handle a texture name is bound to, if any.
    pub fn texture_handle(&self, name: &String) -> (r: Option<usize>)
        ensures
            r == self.textures_store().handle_of(name@),
    {
        self.textures.find_handle(name)
    }

    /// The handle a mesh name is bound to, if any.
    pub fn gltf_handle(&self, name: &String) -> (r: Option<usize>)
        ensures
            r == self.gltf_store().handle_of(name@),
    {
        self.gltf.find_handle(name)
    }

    /// Walks every loaded mesh document and lists the texture pairs its
    /// materials reference, with the fetch path prefix applied.
    pub fn collect_mesh_texture_jobs(&self) -> (jobs: Vec<TexJob>)
        ensures
            jobs@.map_values(|j: TexJob| job_view(j)) == all_texture_jobs(
                self.gltf_store().slots_view(),
            ),
    {
        let ghost docs = self.gltf_store().slots_view();
        let mut jobs: Vec<TexJob> = Vec::new();
        let n = self.gltf.slot_count();
        let mut g: usize = 0;
        proof {
            assert(docs.take(0) =~= Seq::<Option<MeshDoc>>::empty());
        }
        while g < n
            invariant
                n == docs.len(),
                docs == self.gltf_store().slots_view(),
                g <= n,
                jobs@.map_values(|j: TexJob| job_view(j)) == all_texture_jobs(docs.take(g as int)),
            decreases n - g,
        {
            proof {
                assert(docs.take(g as int + 1).drop_last() =~= docs.take(g as int));
                assert(docs.take(g as int + 1).last() == docs[g as int]);
            }
            match self.gltf.get(g) {
                Some(doc) => {
                    let ghost mats = doc.materials@;
                    let m_count = doc.materials.len();
                    let mut mi: usize = 0;
                    proof {
                        assert(mats.take(0) =~= Seq::<MaterialTexRefs>::empty());
                    }
                    while mi < m_count
                        invariant
                            m_count == mats.len(),
                            mats == doc.materials@,
                            mi <= m_count,
                            jobs@.map_values(|j: TexJob| job_view(j)) == all_texture_jobs(
                                docs.take(g as int),
                            ) + doc_texture_jobs(mats.take(mi as int)),
                        decreases m_count - mi,
                    {
                        proof {
                            assert(mats.take(mi as int + 1).drop_last() =~= mats.take(mi as int));
                            assert(mats.take(mi as int + 1).last() == mats[mi as int]);
                        }
                        let m = &doc.materials[mi];
                        match (&m.base_color, &m.normal) {
                            (Some(c), Some(nm)) => {
                                let mut color_uri: String = "/assets/textures/".to_owned();
                                color_uri.append(c.as_str());
                                let mut normal_uri: String = "/assets/textures/".to_owned();
                                normal_uri.append(nm.as_str());
                                let ghost before = jobs@.map_values(|j: TexJob| job_view(j));
                                jobs.push(
                                    TexJob { material_index: mi, color_uri, normal_uri },
                                );
                                proof {
                                    assert(jobs@.map_values(|j: TexJob| job_view(j)) =~= before.push(
                                        job_view(jobs@.last()),
                                    ));
                                }
                            },
                            _ => {},
                        }
                        mi = mi + 1;
                    }
                    proof {
                        assert(mats.take(m_count as int) =~= mats);
                    }
                },
                None => {},
            }
            g = g + 1;
        }
        proof {
            assert(docs.take(n as int) =~= docs);
        }
        jobs
    }

    /// Requires both textures of every job and loads each job's material
    /// slot with the surface material over the handles they were given.
    pub fn apply_mesh_texture_jobs(&mut self, jobs: &Vec<TexJob>)
        requires
            old(self).wf(),
        ensures
            final(self).wf(),
            final(self).gltf_store() == old(self).gltf_store(),
            final(self).error_tex_spec() == old(self).error_tex_spec(),
            store_extends(old(self).textures_store(), final(self).textures_store()),
            crate::registry::pending_grows(
                old(self).textures_store(),
                final(self).textures_store(),
            ),
            final(self).textures_store().pending_view() == old(
                self,
            ).textures_store().pending_view() + crate::registry::newly_pending(
                old(self).textures_store(),
                job_names(jobs@.map_values(|j: TexJob| job_view(j))),
            ),
            forall|m: Seq<char>|
                #[trigger] final(self).textures_store().has_name(m) <==> (old(
                self,
                ).textures_store().has_name(m) || job_names(
                    jobs@.map_values(|j: TexJob| job_view(j)),
                ).contains(m)),
            final(self).materials_store().names_view() == old(self).materials_store().names_view(),
            final(self).materials_store().pending_view() == old(
                self,
            ).materials_store().pending_view(),
            forall|k: int|
                0 <= k < jobs@.len() ==> job_textures_required(
                    *final(self),
                    job_view(#[trigger] jobs@[k]),
                ),
            forall|k: int|
                (0 <= k < jobs@.len() && (#[trigger] jobs@[k]).material_index <= usize::MAX - 2
                    && (forall|l: int|
                    k < l < jobs@.len() ==> (#[trigger] jobs@[l]).material_index
                        != jobs@[k].material_index)) ==> job_material_set(
                    *final(self),
                    job_view(jobs@[k]),
                ),
    {
        let ghost jv = jobs@.map_values(|j: TexJob| job_view(j));
        let count = jobs.len();
        let mut k: usize = 0;
        proof {
            assert(jv.take(0) =~= Seq::<JobView>::empty());
            assert(self.textures_store().pending_view() =~= old(
                self,
            ).textures_store().pending_view() + crate::registry::newly_pending(
                old(self).textures_store(),
                job_names(jv.take(0)),
            ));
        }
        while k < count
            invariant
                count == jobs@.len(),
                jv == jobs@.map_values(|j: TexJob| job_view(j)),
                k <= count,
                self.wf(),
                self.gltf_store() == old(self).gltf_store(),
                self.error_tex_spec() == old(self).error_tex_spec(),
                store_extends(old(self).textures_store(), self.textures_store()),
                crate::registry::pending_grows(old(self).textures_store(), self.textures_store()),
                self.textures_store().pending_view() == old(
                    self,
                ).textures_store().pending_view() + crate::registry::newly_pending(
                    old(self).textures_store(),
                    job_names(jv.take(k as int)),
                ),
                forall|m: Seq<char>|
                    #[trigger] self.textures_store().has_name(m) <==> (old(
                    self,
                    ).textures_store().has_name(m) || job_names(jv.take(k as int)).contains(m)),
                self.materials_store().names_view() == old(self).materials_store().names_view(),
                self.materials_store().pending_view() == old(self).materials_store().pending_view(),
                forall|j: int|
                    0 <= j < k ==> job_textures_required(*self, job_view(#[trigger] jobs@[j])),
                forall|j: int|
                    (0 <= j < k && (#[trigger] jobs@[j]).material_index <= usize::MAX - 2 && (
                    forall|l: int|
                        j < l < k ==> (#[trigger] jobs@[l]).material_index
                            != jobs@[j].material_index)) ==> job_material_set(
                        *self,
                        job_view(jobs@[j]),
                    ),
            decreases count - k,
        {
            let ghost pre = *self;
            let job = &jobs[k];
            let tex = self.require_texture(job.color_uri.clone());
            let ghost mid1 = *self;
            let normal = self.require_texture(job.normal_uri.clone());
            let ghost mid2 = *self;
            proof {
                crate::registry::lemma_require_extends(
                    pre.textures_store(),
                    mid1.textures_store(),
                    job.color_uri@,
                    tex,
                );
                crate::registry::lemma_require_extends(
                    mid1.textures_store(),
                    mid2.textures_store(),
                    job.normal_uri@,
                    normal,
                );
                crate::registry::lemma_extends_trans(
                    pre.textures_store(),
                    mid1.textures_store(),
                    mid2.textures_store(),
                );
                crate::registry::lemma_extends_trans(
                    old(self).textures_store(),
                    pre.textures_store(),
                    mid2.textures_store(),
                );
                crate::registry::lemma_require_pending_grows(
                    pre.textures_store(),
                    mid1.textures_store(),
                    job.color_uri@,
                    tex,
                );
                crate::registry::lemma_require_pending_grows(
                    mid1.textures_store(),
                    mid2.textures_store(),
                    job.normal_uri@,
                    normal,
                );
                match crate::registry::lookup(pre.textures_store().names_view(), job.color_uri@) {
                    Some(h) => {},
                    None => {
                        crate::registry::lemma_lookup_push(
                            pre.textures_store().names_view(),
                            job.color_uri@,
                            tex,
                        );
                    },
                }
                assert(mid1.textures_store().handle_of(job.color_uri@) == Some(tex));
                match crate::registry::lookup(mid1.textures_store().names_view(), job.normal_uri@) {
                    Some(h) => {},
                    None => {
                        crate::registry::lemma_lookup_push(
                            mid1.textures_store().names_view(),
                            job.normal_uri@,
                            normal,
                        );
                    },
                }
                assert(mid2.textures_store().handle_of(job.normal_uri@) == Some(normal));
                assert(mid2.textures_store().handle_of(job.color_uri@) == Some(tex));
                assert(jv[k as int] == job_view(jobs@[k as int]));
                let pre0 = old(self).textures_store();
                let jn = job_names(jv.take(k as int));
                lemma_texture_run_step(
                    pre0,
                    pre.textures_store(),
                    mid1.textures_store(),
                    jn,
                    job.color_uri@,
                    tex,
                );
                lemma_texture_run_step(
                    pre0,
                    mid1.textures_store(),
                    mid2.textures_store(),
                    jn.push(job.color_uri@),
                    job.normal_uri@,
                    normal,
                );
                assert(jv.take(k as int + 1).drop_last() =~= jv.take(k as int));
                assert(jv.take(k as int + 1).last() == jv[k as int]);
                assert(job_names(jv.take(k as int + 1)) =~= jn.push(job.color_uri@).push(
                    job.normal_uri@,
                ));
            }
            if job.material_index <= usize::MAX - 2 {
                let mut us: Vec<(String, Uniform)> = Vec::new();
                us.push(("meshTexture".to_owned(), Uniform::Tex(tex)));
                us.push(("meshNormal".to_owned(), Uniform::Tex(normal)));
                self.load_material(job.material_index, Mat::filled(us));
                proof {
                    assert(job_material_set(*self, job_view(jobs@[k as int])));
                }
            }
            proof {
                assert forall|j: int| 0 <= j < k + 1 implies job_textures_required(
                    *self,
                    job_view(#[trigger] jobs@[j]),
                ) by {
                    if j < k {
                        assert(job_textures_required(mid2, job_view(jobs@[j])));
                    }
                }
                assert forall|j: int|
                    (0 <= j < k + 1 && (#[trigger] jobs@[j]).material_index <= usize::MAX - 2 && (
                    forall|l: int|
                        j < l < k + 1 ==> (#[trigger] jobs@[l]).material_index
                            != jobs@[j].material_index)) implies job_material_set(
                    *self,
                    job_view(jobs@[j]),
                ) by {
                    if j < k {
                        assert(jobs@[k as int].material_index != jobs@[j].material_index);
                        assert(job_material_set(mid2, job_view(jobs@[j])));
                    }
                }
            }
            k = k + 1;
        }
        proof {
            assert(jv.take(count as int) =~= jv);
        }
    }

    /// Requests every texture referenced by the materials of the loaded mesh
    /// documents, and loads those materials: for each document material that
    /// names both a base-color and a normal texture URI, both textures are
    /// required under their fetch paths and the material's slot is filled
    /// with a surface material over the two handles.
    pub fn require_mesh_textures(&mut self)
        requires
            old(self).wf(),
        ensures
            final(self).wf(),
            final(self).gltf_store() == old(self).gltf_store(),
            final(self).error_tex_spec() == old(self).error_tex_spec(),
            store_extends(old(self).textures_store(), final(self).textures_store()),
            crate::registry::pending_grows(
                old(self).textures_store(),
                final(self).textures_store(),
            ),
            final(self).textures_store().pending_view() == old(
                self,
            ).textures_store().pending_view() + crate::registry::newly_pending(
                old(self).textures_store(),
                job_names(all_texture_jobs(old(self).gltf_store().slots_view())),
            ),
            forall|m: Seq<char>|
                #[trigger] final(self).textures_store().has_name(m) <==> (old(
                self,
                ).textures_store().has_name(m) || job_names(
                    all_texture_jobs(old(self).gltf_store().slots_view()),
                ).contains(m)),
            final(self).materials_store().names_view() == old(self).materials_store().names_view(),
            final(self).materials_store().pending_view() == old(
                self,
            ).materials_store().pending_view(),
            forall|k: int|
                0 <= k < all_texture_jobs(old(self).gltf_store().slots_view()).len()
                    ==> job_textures_required(
                    *final(self),
                    #[trigger] all_texture_jobs(old(self).gltf_store().slots_view())[k],
                ),
            forall|k: int|
                (0 <= k < all_texture_jobs(old(self).gltf_store().slots_view()).len() && (
                #[trigger] all_texture_jobs(old(self).gltf_store().slots_view())[k]).0
                    <= usize::MAX - 2 && (forall|l: int|
                    k < l < all_texture_jobs(old(self).gltf_store().slots_view()).len() ==> (
                    #[trigger] all_texture_jobs(old(self).gltf_store().slots_view())[l]).0
                        != all_texture_jobs(old(self).gltf_store().slots_view())[k].0))
                    ==> job_material_set(
                    *final(self),
                    all_texture_jobs(old(self).gltf_store().slots_view())[k],
                ),
    {
        let jobs = self.collect_mesh_texture_jobs();
        self.apply_mesh_texture_jobs(&jobs);
        proof {
            let jv = all_texture_jobs(old(self).gltf_store().slots_view());
            let mapped = jobs@.map_values(|j: TexJob| job_view(j));
            assert(mapped == jv);
            assert forall|k: int| 0 <= k < jv.len() implies job_textures_required(
                *self,
                #[trigger] jv[k],
            ) by {
                assert(jv[k] == job_view(jobs@[k]));
            }
            assert forall|k: int|
                (0 <= k < jv.len() && (#[trigger] jv[k]).0 <= usize::MAX - 2 && (forall|l: int|
                    k < l < jv.len() ==> (#[trigger] jv[l]).0 != jv[k].0)) implies job_material_set(
                *self,
                jv[k],
            ) by {
                assert(jv[k] == job_view(jobs@[k]));
                assert(jobs@[k].material_index == jv[k].0);
                assert forall|l: int| k < l < jobs@.len() implies (#[trigger] jobs@[l]).material_index
                    != jobs@[k].material_index by {
                    assert(jv[l] == job_view(jobs@[l]));
                    assert(jv[l].0 != jv[k].0);
                }
            }
        }
    }
}

} // verus!
