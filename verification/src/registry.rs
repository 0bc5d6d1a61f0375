//! Name-indexed asset registry with deferred loading.
//!
//! An `AssetStore` hands out a stable integer handle for every asset name the
//! first time the name is requested, keeps a slot per handle that is filled
//! later by the loading phase, and tracks the set of names that have been
//! requested but not yet loaded.

use vstd::prelude::*;

verus! {

/// A name-to-handle binding as the specification sees it: the name's
/// characters and the handle. Later bindings for the same name shadow earlier
/// ones, as in a map that is overwritten on insertion.
pub type NameBinding = (Seq<char>, usize);

/// Looks a name up in a sequence of bindings; the last binding for the name
/// wins, mirroring insertion into a map.
pub open spec fn lookup(pairs: Seq<NameBinding>, name: Seq<char>) -> Option<usize>
    decreases pairs.len(),
{
    if pairs.len() == 0 {
        None
    } else if pairs.last().0 == name {
        Some(pairs.last().1)
    } else {
        lookup(pairs.drop_last(), name)
    }
}

/// One asset kind's registry: a slot per handle, the name bindings, and the
/// names whose bytes have not been handed over yet.
pub struct AssetStore<T> {
    slots: Vec<Option<T>>,
    names: Vec<(String, usize)>,
    pending: Vec<String>,
}

impl<T> AssetStore<T> {
    /// The name bindings, abstractly.
    pub closed spec fn names_view(self) -> Seq<NameBinding> {
        self.names@.map_values(|p: (String, usize)| (p.0@, p.1))
    }

    /// The slot of each handle, in handle order.
    pub closed spec fn slots_view(self) -> Seq<Option<T>> {
        self.slots@
    }

    /// The names requested but not yet loaded, in request order.
    pub closed spec fn pending_view(self) -> Seq<Seq<char>> {
        self.pending@.map_values(|s: String| s@)
    }

    /// The handle a name currently resolves to.
    pub open spec fn handle_of(self, name: Seq<char>) -> Option<usize> {
        lookup(self.names_view(), name)
    }

    /// Whether the name has been given a handle.
    pub open spec fn has_name(self, name: Seq<char>) -> bool {
        self.handle_of(name) is Some
    }

    /// What `get` returns for a handle: the slot's content when the handle is
    /// in range, `None` otherwise.
    pub open spec fn get_spec(self, handle: usize) -> Option<T> {
        if handle < self.slots_view().len() {
            self.slots_view()[handle as int]
        } else {
            None
        }
    }

    /// Every binding points at an existing slot, and the pending names are
    /// distinct names that all have handles.
    pub open spec fn wf(self) -> bool {
        &&& forall|i: int|
            0 <= i < self.names_view().len() ==> (#[trigger] self.names_view()[i]).1
                < self.slots_view().len()
        &&& forall|i: int|
            0 <= i < self.pending_view().len() ==> self.has_name(#[trigger] self.pending_view()[i])
        &&& forall|i: int, j: int|
            0 <= i < j < self.pending_view().len() ==> self.pending_view()[i]
                != self.pending_view()[j]
    }

    /// An empty registry: no slots, no names, nothing pending.
    pub fn new() -> (s: AssetStore<T>)
        ensures
            s.wf(),
            s.slots_view() == Seq::<Option<T>>::empty(),
            s.names_view() == Seq::<NameBinding>::empty(),
            s.pending_view() == Seq::<Seq<char>>::empty(),
    {
        let s = AssetStore { slots: Vec::new(), names: Vec::new(), pending: Vec::new() };
        proof {
            assert(s.names_view() =~= Seq::<NameBinding>::empty());
            assert(s.pending_view() =~= Seq::<Seq<char>>::empty());
        }
        s
    }

    /// The handle the store currently maps `name` to, if any.
    pub fn find_handle(&self, name: &String) -> (r: Option<usize>)
        ensures
            r == self.handle_of(name@),
    {
        let ghost all = self.names_view();
        let mut i: usize = self.names.len();
        proof {
            assert(all.take(i as int) =~= all);
        }
        while i > 0
            invariant
                i <= self.names.len(),
                all == self.names_view(),
                lookup(all, name@) == lookup(all.take(i as int), name@),
            decreases i,
        {
            i = i - 1;
            proof {
                assert(all.take(i as int + 1).last() == all[i as int]);
                assert(all.take(i as int + 1).drop_last() =~= all.take(i as int));
            }
            let p = &self.names[i];
            if p.0 == *name {
                return Some(p.1);
            }
        }
        proof {
            assert(all.take(0) =~= Seq::<NameBinding>::empty());
        }
        None
    }

    /// Returns the handle for `name`, allocating the next one if the name is
    /// unseen: the fresh slot is empty and the name becomes pending. A name
    /// that already has a handle is returned unchanged, with no side effect.
    pub fn require(&mut self, asset_name: String) -> (handle: usize)
        requires
            old(self).wf(),
        ensures
            final(self).wf(),
            require_transition(*old(self), *final(self), asset_name@, handle),
    {
        if let Some(h) = self.find_handle(&asset_name) {
            h
        } else {
            let id = self.slots.len();
            self.pending.push(asset_name.clone());
            self.names.push((asset_name, id));
            self.slots.push(None);
            proof {
                let pre = *old(self);
                let post = *self;
                assert(post.names_view() =~= pre.names_view().push((asset_name@, id)));
                assert(post.pending_view() =~= pre.pending_view().push(asset_name@));
                lemma_lookup_push(pre.names_view(), asset_name@, id);
                assert forall|i: int| 0 <= i < post.pending_view().len() implies post.has_name(
                    #[trigger] post.pending_view()[i],
                ) by {
                    if i < pre.pending_view().len() {
                        assert(pre.has_name(pre.pending_view()[i]));
                        lemma_lookup_push_other(
                            pre.names_view(),
                            asset_name@,
                            id,
                            pre.pending_view()[i],
                        );
                    }
                }
                assert forall|i: int, j: int|
                    0 <= i < j < post.pending_view().len() implies post.pending_view()[i]
                    != post.pending_view()[j] by {
                    if j == pre.pending_view().len() {
                        assert(pre.has_name(pre.pending_view()[i]));
                    }
                }
            }
            id
        }
    }

    /// Fills the slot of an already-registered name. Calling this for a name
    /// that was never given a handle is a contract violation, so the
    /// precondition rules it out; the pending bookkeeping is untouched.
    pub fn load(&mut self, asset_name: &str, asset: T)
        requires
            old(self).wf(),
            old(self).has_name(asset_name@),
        ensures
            final(self).wf(),
            load_transition(*old(self), *final(self), asset_name@, asset),
    {
        let key: String = asset_name.to_owned();
        let h = match self.find_handle(&key) {
            Some(h) => h,
            None => vstd::pervasive::unreached(),
        };
        proof {
            lemma_lookup_gives_binding(self.names_view(), asset_name@);
        }
        self.slots.set(h, Some(asset));
        proof {
            let pre = *old(self);
            assert(self.names_view() =~= pre.names_view());
            assert(self.pending_view() =~= pre.pending_view());
        }
    }

    /// Binds a brand-new name straight to a filled slot, shadowing any
    /// earlier binding of the same name.
    pub fn insert(&mut self, asset_name: String, asset: T)
        requires
            old(self).wf(),
        ensures
            final(self).wf(),
            old(self).slots_view().len() <= usize::MAX,
            final(self).slots_view() == old(self).slots_view().push(Some(asset)),
            final(self).names_view() == old(self).names_view().push(
                (asset_name@, old(self).slots_view().len() as usize),
            ),
            final(self).pending_view() == old(self).pending_view(),
            final(self).handle_of(asset_name@) == Some(old(self).slots_view().len() as usize),
    {
        let id = self.slots.len();
        self.names.push((asset_name, id));
        self.slots.push(Some(asset));
        proof {
            let pre = *old(self);
            assert(self.names_view() =~= pre.names_view().push((asset_name@, id)));
            assert(self.pending_view() =~= pre.pending_view());
            lemma_lookup_push(pre.names_view(), asset_name@, id);
            assert forall|i: int| 0 <= i < self.pending_view().len() implies self.has_name(
                #[trigger] self.pending_view()[i],
            ) by {
                assert(pre.has_name(pre.pending_view()[i]));
                if pre.pending_view()[i] != asset_name@ {
                    lemma_lookup_push_other(
                        pre.names_view(),
                        asset_name@,
                        id,
                        pre.pending_view()[i],
                    );
                }
            }
        }
    }

    /// Drains the pending set: returns every name requested since the last
    /// drain, leaving the pending set empty and everything else unchanged.
    pub fn consume_loading(&mut self) -> (drained: Vec<String>)
        ensures
            consume_transition(*old(self), *final(self), drained@.map_values(|s: String| s@)),
            old(self).wf() ==> final(self).wf(),
    {
        let mut out: Vec<String> = Vec::new();
        core::mem::swap(&mut out, &mut self.pending);
        proof {
            assert(self.pending_view() =~= Seq::<Seq<char>>::empty());
        }
        out
    }

    /// The loaded asset behind a handle; `None` while the handle is out of
    /// range or its slot has not been loaded yet. Never fails.
    pub fn get(&self, asset_id: usize) -> (r: Option<&T>)
        ensures
            match r {
                Some(v) => self.get_spec(asset_id) == Some(*v),
                None => self.get_spec(asset_id) is None,
            },
    {
        if asset_id < self.slots.len() {
            self.slots[asset_id].as_ref()
        } else {
            None
        }
    }

    /// Fills the slot at a raw handle directly, growing the slot vector with
    /// empty slots until the handle fits, plus one spare slot the growth
    /// rule always leaves; no name binding is touched.
    pub fn load_at(&mut self, index: usize, asset: T)
        requires
            old(self).wf(),
            index <= usize::MAX - 2,
        ensures
            final(self).wf(),
            final(self).slots_view() == padded_slots(old(self).slots_view(), index).update(
                index as int,
                Some(asset),
            ),
            final(self).names_view() == old(self).names_view(),
            final(self).pending_view() == old(self).pending_view(),
    {
        let ghost pre = old(self).slots_view();
        while self.slots.len() <= index + 1
            invariant
                index <= usize::MAX - 2,
                self.names_view() == old(self).names_view(),
                self.pending_view() == old(self).pending_view(),
                pre == old(self).slots_view(),
                pre.len() <= self.slots_view().len(),
                self.slots_view().len() <= vstd::math::max(pre.len() as int, index + 2),
                forall|j: int| 0 <= j < pre.len() ==> self.slots_view()[j] == pre[j],
                forall|j: int|
                    pre.len() <= j < self.slots_view().len() ==> self.slots_view()[j] is None,
            decreases index + 2 - self.slots.len(),
        {
            self.slots.push(None);
        }
        self.slots.set(index, Some(asset));
        proof {
            assert(self.slots_view() =~= padded_slots(pre, index).update(
                index as int,
                Some(asset),
            ));
        }
    }

    /// Number of slots, equal to the next handle that `require` would assign
    /// to an unseen name.
    pub fn slot_count(&self) -> (n: usize)
        ensures
            n == self.slots_view().len(),
    {
        self.slots.len()
    }
}

/// Exactly what `require` does: an already-bound name returns its handle and
/// changes nothing; an unseen one gets the next handle, an empty slot, its
/// binding, and a place in the pending set.
pub open spec fn require_transition<T>(
    pre: AssetStore<T>,
    post: AssetStore<T>,
    name: Seq<char>,
    handle: usize,
) -> bool {
    match lookup(pre.names_view(), name) {
        Some(h) => {
            &&& handle == h
            &&& post == pre
        },
        None => {
            &&& handle == pre.slots_view().len()
            &&& post.slots_view() == pre.slots_view().push(None)
            &&& post.names_view() == pre.names_view().push((name, handle))
            &&& post.pending_view() == pre.pending_view().push(name)
        },
    }
}

/// Exactly what `load` does: the named handle's slot is set, and the
/// bindings and pending set stay as they were.
pub open spec fn load_transition<T>(
    pre: AssetStore<T>,
    post: AssetStore<T>,
    name: Seq<char>,
    asset: T,
) -> bool {
    &&& pre.handle_of(name) matches Some(h) && post.slots_view() == pre.slots_view().update(
        h as int,
        Some(asset),
    )
    &&& post.names_view() == pre.names_view()
    &&& post.pending_view() == pre.pending_view()
}

/// Exactly what `consume_loading` does: the pending names come out in request
/// order, the pending set becomes empty, and slots and bindings are kept.
pub open spec fn consume_transition<T>(
    pre: AssetStore<T>,
    post: AssetStore<T>,
    drained: Seq<Seq<char>>,
) -> bool {
    &&& drained == pre.pending_view()
    &&& post.pending_view() == Seq::<Seq<char>>::empty()
    &&& post.slots_view() == pre.slots_view()
    &&& post.names_view() == pre.names_view()
}

/// Looking up the name just pushed finds the pushed handle.
pub proof fn lemma_lookup_push(pairs: Seq<NameBinding>, name: Seq<char>, handle: usize)
    ensures
        lookup(pairs.push((name, handle)), name) == Some(handle),
{
    assert(pairs.push((name, handle)).last() == (name, handle));
}

/// Pushing a binding for one name leaves every other name's lookup alone.
pub proof fn lemma_lookup_push_other(
    pairs: Seq<NameBinding>,
    name: Seq<char>,
    handle: usize,
    other: Seq<char>,
)
    requires
        other != name,
    ensures
        lookup(pairs.push((name, handle)), other) == lookup(pairs, other),
{
    assert(pairs.push((name, handle)).drop_last() =~= pairs);
}

/// A slot sequence grown with empty slots until the raw handle `index` fits,
/// with one spare slot, as raw loading grows it.
pub open spec fn padded_slots<T>(s: Seq<Option<T>>, index: usize) -> Seq<Option<T>> {
    if s.len() < index + 2 {
        s + Seq::new((index + 2 - s.len()) as nat, |k: int| None)
    } else {
        s
    }
}

/// The second store only grows out of the first: every bound name keeps its
/// handle and every existing slot its content; only new slots appear.
pub open spec fn store_extends<T>(pre: AssetStore<T>, post: AssetStore<T>) -> bool {
    &&& pre.slots_view().len() <= post.slots_view().len()
    &&& forall|i: int|
        0 <= i < pre.slots_view().len() ==> post.slots_view()[i] == pre.slots_view()[i]
    &&& forall|n: Seq<char>|
        (#[trigger] pre.handle_of(n)) is Some ==> post.handle_of(n) == pre.handle_of(n)
}

/// `require` only grows the store.
pub proof fn lemma_require_extends<T>(
    pre: AssetStore<T>,
    post: AssetStore<T>,
    name: Seq<char>,
    handle: usize,
)
    requires
        require_transition(pre, post, name, handle),
    ensures
        store_extends(pre, post),
{
    match lookup(pre.names_view(), name) {
        Some(h) => {
            assert(post == pre);
        },
        None => {
            assert forall|n: Seq<char>| (#[trigger] pre.handle_of(n)) is Some implies
                post.handle_of(n) == pre.handle_of(n) by {
                if n != name {
                    lemma_lookup_push_other(pre.names_view(), name, handle, n);
                }
            }
        },
    }
}

/// The second pending queue begins with the first: every queued name stays,
/// in order, and new names only append.
pub open spec fn pending_grows<T>(pre: AssetStore<T>, post: AssetStore<T>) -> bool {
    &&& pre.pending_view().len() <= post.pending_view().len()
    &&& forall|i: int|
        0 <= i < pre.pending_view().len() ==> post.pending_view()[i] == pre.pending_view()[i]
}

/// `require` keeps the queued pending names in place, appending at most the
/// new one at the end.
pub proof fn lemma_require_pending_grows<T>(
    pre: AssetStore<T>,
    post: AssetStore<T>,
    name: Seq<char>,
    handle: usize,
)
    requires
        require_transition(pre, post, name, handle),
    ensures
        pending_grows(pre, post),
{
    match lookup(pre.names_view(), name) {
        Some(h) => {
            assert(post == pre);
        },
        None => {},
    }
}

/// The names, among `names` in order, that a run of `require` calls on a
/// store would queue: those the store has no handle for, kept once at their
/// first occurrence.
pub open spec fn newly_pending<T>(pre: AssetStore<T>, names: Seq<Seq<char>>) -> Seq<Seq<char>>
    decreases names.len(),
{
    if names.len() == 0 {
        Seq::empty()
    } else {
        let rest = newly_pending(pre, names.drop_last());
        if !pre.has_name(names.last()) && !names.drop_last().contains(names.last()) {
            rest.push(names.last())
        } else {
            rest
        }
    }
}

/// One `require` advances a run's picture exactly: afterwards a name has a
/// handle when it had one before or is the required name, and the pending
/// queue grew by the name exactly when it was unbound.
pub proof fn lemma_require_run_step<T>(
    pre: AssetStore<T>,
    post: AssetStore<T>,
    name: Seq<char>,
    handle: usize,
)
    requires
        require_transition(pre, post, name, handle),
    ensures
        forall|m: Seq<char>| #[trigger] post.has_name(m) <==> (pre.has_name(m) || m == name),
        post.pending_view() == if pre.has_name(name) {
            pre.pending_view()
        } else {
            pre.pending_view().push(name)
        },
{
    match lookup(pre.names_view(), name) {
        Some(h) => {
            assert(post == pre);
        },
        None => {
            assert forall|m: Seq<char>| #[trigger] post.has_name(m) <==> (pre.has_name(m) || m
                == name) by {
                if m == name {
                    lemma_lookup_push(pre.names_view(), name, handle);
                } else {
                    lemma_lookup_push_other(pre.names_view(), name, handle, m);
                }
            }
        },
    }
}

/// Growing twice is still growing.
pub proof fn lemma_extends_trans<T>(a: AssetStore<T>, b: AssetStore<T>, c: AssetStore<T>)
    requires
        store_extends(a, b),
        store_extends(b, c),
    ensures
        store_extends(a, c),
{
}

/// A store in which nothing has ever been registered.
pub open spec fn fresh_store<T>(s: AssetStore<T>) -> bool {
    &&& s.names_view() == Seq::<NameBinding>::empty()
    &&& s.slots_view() == Seq::<Option<T>>::empty()
}

/// How many distinct names a sequence of names holds.
pub open spec fn distinct_count(names: Seq<Seq<char>>) -> nat
    decreases names.len(),
{
    if names.len() == 0 {
        0
    } else if names.drop_last().contains(names.last()) {
        distinct_count(names.drop_last())
    } else {
        distinct_count(names.drop_last()) + 1
    }
}

/// A run of `require` calls: `ss` are the store's states, `names` the
/// requested names in order, `handles` the returned handles.
pub open spec fn require_chain<T>(
    ss: Seq<AssetStore<T>>,
    names: Seq<Seq<char>>,
    handles: Seq<usize>,
) -> bool {
    &&& ss.len() == names.len() + 1
    &&& handles.len() == names.len()
    &&& forall|i: int|
        0 <= i < names.len() ==> require_transition(
            #[trigger] ss[i],
            ss[i + 1],
            names[i],
            handles[i],
        )
}

/// After any run of `require` calls on an initially empty store, the store
/// has one slot per distinct name, every requested name resolves to the
/// handle it was given, and a name has a handle exactly when it was requested.
pub proof fn lemma_require_chain_state<T>(
    ss: Seq<AssetStore<T>>,
    names: Seq<Seq<char>>,
    handles: Seq<usize>,
    i: int,
)
    requires
        require_chain(ss, names, handles),
        fresh_store(ss[0]),
        0 <= i <= names.len(),
    ensures
        ss[i].slots_view().len() == distinct_count(names.take(i)),
        forall|j: int| 0 <= j < i ==> ss[i].handle_of(names[j]) == Some(handles[j]),
        forall|m: Seq<char>| #[trigger] ss[i].has_name(m) <==> names.take(i).contains(m),
    decreases i,
{
    if i == 0 {
        assert(names.take(0) =~= Seq::<Seq<char>>::empty());
        assert forall|m: Seq<char>| !(#[trigger] ss[0].has_name(m)) by {
            assert(lookup(ss[0].names_view(), m) is None);
        }
    } else {
        lemma_require_chain_state(ss, names, handles, i - 1);
        let pre = ss[i - 1];
        let post = ss[i];
        let n = names[i - 1];
        let h = handles[i - 1];
        assert(require_transition(pre, post, n, h));
        assert(names.take(i).drop_last() =~= names.take(i - 1));
        assert(names.take(i).last() == n);
        assert(names.take(i - 1).contains(n) ==> names.take(i).contains(n));
        assert forall|m: Seq<char>| names.take(i).contains(m) implies (names.take(i - 1).contains(m)
            || m == n) by {
            let k = choose|k: int| 0 <= k < names.take(i).len() && #[trigger] names.take(i)[k] == m;
            if k < i - 1 {
                assert(names.take(i - 1)[k] == m);
            }
        }
        assert forall|m: Seq<char>| names.take(i - 1).contains(m) implies names.take(i).contains(
            m,
        ) by {
            let k = choose|k: int|
                0 <= k < names.take(i - 1).len() && #[trigger] names.take(i - 1)[k] == m;
            assert(names.take(i)[k] == m);
        }
        match lookup(pre.names_view(), n) {
            Some(h0) => {
                assert(pre.has_name(n));
                assert(names.take(i - 1).contains(n));
                assert(distinct_count(names.take(i)) == distinct_count(names.take(i - 1)));
                assert(post == pre);
            },
            None => {
                assert(!pre.has_name(n));
                assert(!names.take(i - 1).contains(n));
                assert(distinct_count(names.take(i)) == distinct_count(names.take(i - 1)) + 1);
                lemma_lookup_push(pre.names_view(), n, h);
                assert forall|j: int| 0 <= j < i implies post.handle_of(names[j]) == Some(
                    handles[j],
                ) by {
                    if j < i - 1 {
                        assert(pre.handle_of(names[j]) == Some(handles[j]));
                        if names[j] != n {
                            lemma_lookup_push_other(pre.names_view(), n, h, names[j]);
                        }
                    }
                }
                assert forall|m: Seq<char>| #[trigger] post.has_name(m) <==> names.take(
                    i,
                ).contains(m) by {
                    if m == n {
                        assert(post.has_name(m));
                        assert(names.take(i)[i - 1] == n);
                        assert(names.take(i).contains(m));
                    } else {
                        lemma_lookup_push_other(pre.names_view(), n, h, m);
                        assert(post.has_name(m) <==> pre.has_name(m));
                        if pre.has_name(m) {
                            assert(names.take(i - 1).contains(m));
                            let k = choose|k: int|
                                0 <= k < names.take(i - 1).len() && #[trigger] names.take(i - 1)[k]
                                    == m;
                            assert(names.take(i)[k] == m);
                            assert(names.take(i).contains(m));
                        }
                        if names.take(i).contains(m) {
                            let k = choose|k: int|
                                0 <= k < names.take(i).len() && #[trigger] names.take(i)[k] == m;
                            assert(k != i - 1);
                            assert(names.take(i - 1)[k] == m);
                            assert(names.take(i - 1).contains(m));
                        }
                    }
                }
            },
        }
    }
}

/// Requiring the same name twice in a row yields the same handle, and the
/// second call changes nothing.
pub proof fn lemma_require_twice_same_handle<T>(
    s0: AssetStore<T>,
    s1: AssetStore<T>,
    s2: AssetStore<T>,
    name: Seq<char>,
    h1: usize,
    h2: usize,
)
    requires
        require_transition(s0, s1, name, h1),
        require_transition(s1, s2, name, h2),
    ensures
        h2 == h1,
        s2 == s1,
{
    match lookup(s0.names_view(), name) {
        Some(h) => {
            assert(s1 == s0);
        },
        None => {
            lemma_lookup_push(s0.names_view(), name, h1);
            assert(s1.handle_of(name) == Some(h1));
        },
    }
}

/// Over any run of `require` calls on one initially empty store: a repeated
/// name keeps the handle of its first request, and an unseen name is given
/// the next handle in first-seen order, starting at 0.
pub proof fn lemma_handles_first_seen_order<T>(
    ss: Seq<AssetStore<T>>,
    names: Seq<Seq<char>>,
    handles: Seq<usize>,
    i: int,
    j: int,
)
    requires
        require_chain(ss, names, handles),
        fresh_store(ss[0]),
        0 <= i <= j < names.len(),
    ensures
        !names.take(i).contains(names[i]) ==> handles[i] == distinct_count(names.take(i)),
        names[i] == names[j] ==> handles[j] == handles[i],
{
    lemma_require_chain_state(ss, names, handles, i);
    assert(require_transition(ss[i], ss[i + 1], names[i], handles[i]));
    if !names.take(i).contains(names[i]) {
        assert(!ss[i].has_name(names[i]));
    }
    if i < j && names[i] == names[j] {
        lemma_require_chain_state(ss, names, handles, j);
        assert(ss[j].handle_of(names[i]) == Some(handles[i]));
        assert(require_transition(ss[j], ss[j + 1], names[j], handles[j]));
    }
}

/// Draining twice with no `require` in between: the first drain returns the
/// pending names, the second returns nothing.
pub proof fn lemma_consume_twice_drains<T>(
    s0: AssetStore<T>,
    s1: AssetStore<T>,
    s2: AssetStore<T>,
    d1: Seq<Seq<char>>,
    d2: Seq<Seq<char>>,
)
    requires
        consume_transition(s0, s1, d1),
        consume_transition(s1, s2, d2),
    ensures
        d1 == s0.pending_view(),
        d2 == Seq::<Seq<char>>::empty(),
        s2.slots_view() == s0.slots_view(),
        s2.names_view() == s0.names_view(),
{
}

/// A slot that was never loaded reads back as `None`: right after `require`
/// of an unseen name, `get` of the fresh handle finds nothing.
pub proof fn lemma_get_unloaded_none<T>(
    s0: AssetStore<T>,
    s1: AssetStore<T>,
    name: Seq<char>,
    h: usize,
)
    requires
        require_transition(s0, s1, name, h),
        !s0.has_name(name),
    ensures
        s1.get_spec(h) is None,
{
}

/// Round trip: `require` a name, `load` a value for it, and `get` of the
/// handle returns exactly that value.
pub proof fn lemma_require_load_get<T>(
    s0: AssetStore<T>,
    s1: AssetStore<T>,
    s2: AssetStore<T>,
    name: Seq<char>,
    h: usize,
    v: T,
)
    requires
        s0.wf(),
        require_transition(s0, s1, name, h),
        load_transition(s1, s2, name, v),
    ensures
        s2.get_spec(h) == Some(v),
{
    match lookup(s0.names_view(), name) {
        Some(h0) => {
            assert(s1 == s0);
            lemma_lookup_gives_binding(s1.names_view(), name);
        },
        None => {
            lemma_lookup_push(s0.names_view(), name, h);
            assert(s1.handle_of(name) == Some(h));
        },
    }
}

/// A successful lookup comes from one of the bindings, so in a well-formed
/// store the handle found for a name is a valid slot index.
pub proof fn lemma_lookup_gives_binding(pairs: Seq<NameBinding>, name: Seq<char>)
    requires
        lookup(pairs, name) is Some,
    ensures
        exists|i: int|
            0 <= i < pairs.len() && #[trigger] pairs[i] == (name, lookup(pairs, name)->Some_0),
    decreases pairs.len(),
{
    if pairs.len() == 0 {
    } else if pairs.last().0 == name {
        assert(pairs[pairs.len() - 1] == (name, lookup(pairs, name)->Some_0));
    } else {
        lemma_lookup_gives_binding(pairs.drop_last(), name);
        let i = choose|i: int|
            0 <= i < pairs.drop_last().len() && #[trigger] pairs.drop_last()[i] == (
            name,
            lookup(pairs.drop_last(), name)->Some_0,
            );
        assert(pairs[i] == (name, lookup(pairs, name)->Some_0));
    }
}

} // verus!
