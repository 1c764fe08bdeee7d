//! The entity arena: typed side tables indexed by entity id, an explicit parent
//! link per entity, and the per-frame systems that run over them in a fixed
//! order (transform propagation, camera extraction, render list).
use vstd::prelude::*;
use crate::components::{ActiveCameraData, Camera, Mesh, MeshHandle, PBRShader, RenderItem, Shader, Texture};

verus! {

/// Why `set_parent` refused to link two entities.
#[derive(Clone, Copy, Debug, PartialEq, Eq, Structural)]
pub enum HierarchyError {
    /// One of the two ids does not name a live entity.
    UnknownEntity,
    /// The intended parent is the child itself or one of its descendants.
    Cycle,
}

/// Why a frame system refused to run.
#[derive(Clone, Copy, Debug, PartialEq, Eq, Structural)]
pub enum FrameError {
    /// World transforms were not propagated since the last change.
    TransformsStale,
    /// No live entity carries a camera.
    NoCamera,
    /// More than one live entity carries a camera.
    MultipleCameras,
    /// The active camera was not extracted since the last propagation.
    CameraStale,
}

/// How far the current frame has come since the scene last changed.
#[derive(Clone, Copy, Debug, PartialEq, Eq, Structural)]
pub enum FrameStage {
    /// Something changed; world transforms may be out of date.
    Stale,
    /// World transforms were propagated and nothing changed since.
    Resolved,
    /// World transforms and the active camera are both up to date.
    CameraReady,
}

/// `s` lists, in increasing order, exactly the ids below `n` that satisfy `pred`.
pub open spec fn lists_exactly(s: Seq<usize>, n: int, pred: spec_fn(int) -> bool) -> bool {
    &&& forall|i: int, j: int| 0 <= i < j < s.len() ==> s[i] < s[j]
    &&& forall|i: int| 0 <= i < s.len() ==> 0 <= #[trigger] s[i] < n && pred(s[i] as int)
    &&& forall|x: int| 0 <= x < n && #[trigger] pred(x) ==> exists|i: int| 0 <= i < s.len() && s[i] == x
}

/// The entity world. `T` is the transform (matrix) type, `P` the point type of
/// the active camera's position.
pub struct Ecs<T, P> {
    alive: Vec<bool>,
    names: Vec<String>,
    parents: Vec<Option<usize>>,
    locals: Vec<T>,
    globals: Vec<T>,
    cameras: Vec<Option<Camera<T>>>,
    meshes: Vec<Option<MeshHandle>>,
    textures: Vec<Option<Texture>>,
    shaders: Vec<Option<PBRShader>>,
    identity: T,
    active_camera: ActiveCameraData<T, P>,
    stage: FrameStage,
    /// Witness that the parent links form a forest: a parent ranks below its children.
    rank: Ghost<Seq<nat>>,
}

impl<T: Copy, P: Copy> Ecs<T, P> {
    /// Number of ids handed out so far (live or destroyed).
    pub closed spec fn slots(&self) -> nat {
        self.alive@.len()
    }

    /// Id `e` was handed out and its entity not destroyed since.
    pub open spec fn alive(&self, e: int) -> bool {
        0 <= e < self.slots() && self.live_flag(e)
    }

    /// The liveness flag kept for id `e`.
    pub closed spec fn live_flag(&self, e: int) -> bool {
        self.alive@[e]
    }

    pub closed spec fn name(&self, e: int) -> Seq<char> {
        self.names@[e]@
    }

    pub closed spec fn parent(&self, e: int) -> Option<usize> {
        self.parents@[e]
    }

    pub closed spec fn local(&self, e: int) -> T {
        self.locals@[e]
    }

    pub closed spec fn global(&self, e: int) -> T {
        self.globals@[e]
    }

    pub closed spec fn camera(&self, e: int) -> Option<Camera<T>> {
        self.cameras@[e]
    }

    pub closed spec fn mesh(&self, e: int) -> Option<MeshHandle> {
        self.meshes@[e]
    }

    pub closed spec fn texture(&self, e: int) -> Option<Texture> {
        self.textures@[e]
    }

    pub closed spec fn shader(&self, e: int) -> Option<PBRShader> {
        self.shaders@[e]
    }

    pub closed spec fn identity(&self) -> T {
        self.identity
    }

    pub closed spec fn camera_data(&self) -> ActiveCameraData<T, P> {
        self.active_camera
    }

    pub closed spec fn stage(&self) -> FrameStage {
        self.stage
    }

    spec fn rank_of(&self, e: int) -> nat {
        self.rank@[e]
    }

    /// All side tables have one row per id, and every live entity's parent is
    /// live and ranks strictly below it, so no entity is its own ancestor.
    pub closed spec fn wf(&self) -> bool {
        let n = self.alive@.len();
        &&& self.names@.len() == n
        &&& self.parents@.len() == n
        &&& self.locals@.len() == n
        &&& self.globals@.len() == n
        &&& self.cameras@.len() == n
        &&& self.meshes@.len() == n
        &&& self.textures@.len() == n
        &&& self.shaders@.len() == n
        &&& self.rank@.len() == n
        &&& forall|e: int|
            #![trigger self.parents@[e]]
            0 <= e < n && self.alive@[e] && self.parents@[e] is Some ==> {
                let p = self.parents@[e].unwrap() as int;
                &&& p < n
                &&& self.alive@[p]
                &&& self.rank@[p] < self.rank@[e]
            }
    }

    /// The `k`-th ancestor of `e`, following parent links (`e` itself for `k == 0`).
    pub open spec fn ancestor(&self, e: int, k: nat) -> Option<int>
        decreases k,
    {
        if k == 0 {
            Some(e)
        } else {
            match self.ancestor(e, (k - 1) as nat) {
                Some(a) => match self.parent(a) {
                    Some(p) => Some(p as int),
                    None => None,
                },
                None => None,
            }
        }
    }

    /// `e` is `a` or lies below `a` in the hierarchy.
    pub open spec fn descends(&self, e: int, a: int) -> bool {
        exists|k: nat| self.ancestor(e, k) == Some(a)
    }

    /// Entity `x` has the same liveness, name, links, transforms and components
    /// in `self` and in `other`.
    pub open spec fn same_entity(&self, other: &Self, x: int) -> bool {
        &&& self.same_but_global(other, x)
        &&& self.global(x) == other.global(x)
    }

    /// Entity `x` is the same in `self` and in `other`, but perhaps for its
    /// world transform.
    pub open spec fn same_but_global(&self, other: &Self, x: int) -> bool {
        &&& self.alive(x) == other.alive(x)
        &&& self.same_record(other, x)
    }

    /// Entity `x` has the same name, parent link, local transform and
    /// components in `self` and in `other`.
    pub open spec fn same_record(&self, other: &Self, x: int) -> bool {
        &&& self.parent(x) == other.parent(x)
        &&& self.same_record_but_parent(other, x)
    }

    /// Entity `x` has the same name, local transform and components in `self`
    /// and in `other`.
    pub open spec fn same_record_but_parent(&self, other: &Self, x: int) -> bool {
        &&& self.name(x) == other.name(x)
        &&& self.local(x) == other.local(x)
        &&& self.camera(x) == other.camera(x)
        &&& self.mesh(x) == other.mesh(x)
        &&& self.texture(x) == other.texture(x)
        &&& self.shader(x) == other.shader(x)
    }

    /// `e`'s world transform is `compose(parent's world transform, e's local
    /// transform)`, or its local transform where `e` is a root.
    pub open spec fn resolved_at<F: Fn(T, T) -> T>(&self, e: int, compose: F) -> bool {
        match self.parent(e) {
            Some(p) => compose.ensures((self.global(p as int), self.local(e)), self.global(e)),
            None => self.global(e) == self.local(e),
        }
    }

    /// Every live entity's world transform is resolved from its parent's.
    pub open spec fn transforms_resolved<F: Fn(T, T) -> T>(&self, compose: F) -> bool {
        forall|e: int| #[trigger] self.alive(e) ==> self.resolved_at(e, compose)
    }

    /// `compose` gives one result for each pair of arguments.
    pub open spec fn deterministic<F: Fn(T, T) -> T>(compose: F) -> bool {
        forall|a: T, b: T, r1: T, r2: T|
            compose.ensures((a, b), r1) && compose.ensures((a, b), r2) ==> r1 == r2
    }

    /// Every id below `slots()` is the same entity in `self` and in `other`,
    /// and both hand out the same ids.
    pub open spec fn same_entities(&self, other: &Self) -> bool {
        &&& self.slots() == other.slots()
        &&& forall|x: int|
            #![trigger self.same_entity(other, x)]
            #![trigger self.alive(x)]
            #![trigger self.parent(x)]
            #![trigger self.local(x)]
            #![trigger self.global(x)]
            #![trigger self.camera(x)]
            #![trigger self.mesh(x)]
            #![trigger self.texture(x)]
            #![trigger self.shader(x)]
            #![trigger self.name(x)]
            0 <= x < self.slots() ==> self.same_entity(other, x)
    }

    /// Every entity but `e` is the same in `self` and in `other`, and both
    /// hand out the same ids.
    pub open spec fn others_unchanged(&self, other: &Self, e: int) -> bool {
        &&& self.slots() == other.slots()
        &&& forall|x: int|
            #![trigger self.same_entity(other, x)]
            #![trigger self.alive(x)]
            #![trigger self.parent(x)]
            #![trigger self.local(x)]
            #![trigger self.global(x)]
            #![trigger self.camera(x)]
            #![trigger self.mesh(x)]
            #![trigger self.texture(x)]
            #![trigger self.shader(x)]
            #![trigger self.name(x)]
            0 <= x < self.slots() && x != e ==> self.same_entity(other, x)
    }

    /// An empty world. New entities start with `identity` as their world
    /// transform; the active camera starts at `origin` with identity matrices.
    pub fn new(identity: T, origin: P) -> (r: Self)
        ensures
            r.wf(),
            r.slots() == 0,
            r.identity() == identity,
            r.camera_data() == (ActiveCameraData { pos: origin, view: identity, projection: identity }),
            r.stage() == FrameStage::Stale,
    {
        Ecs {
            alive: Vec::new(),
            names: Vec::new(),
            parents: Vec::new(),
            locals: Vec::new(),
            globals: Vec::new(),
            cameras: Vec::new(),
            meshes: Vec::new(),
            textures: Vec::new(),
            shaders: Vec::new(),
            identity,
            active_camera: ActiveCameraData { pos: origin, view: identity, projection: identity },
            stage: FrameStage::Stale,
            rank: Ghost(Seq::empty()),
        }
    }

    /// Adds a live entity with the given name, local transform and optional
    /// parent, an identity world transform and no components. Returns its id.
    pub fn create_entity(&mut self, name: &str, local: T, parent: Option<usize>) -> (e: usize)
        requires
            old(self).wf(),
            parent matches Some(p) ==> old(self).alive(p as int),
        ensures
            final(self).wf(),
            e == old(self).slots(),
            final(self).slots() == old(self).slots() + 1,
            final(self).alive(e as int),
            final(self).name(e as int) == name@,
            final(self).parent(e as int) == parent,
            final(self).local(e as int) == local,
            final(self).global(e as int) == old(self).identity(),
            final(self).camera(e as int) is None,
            final(self).mesh(e as int) is None,
            final(self).texture(e as int) is None,
            final(self).shader(e as int) is None,
            forall|x: int|
                #![trigger final(self).same_entity(old(self), x)]
                #![trigger final(self).alive(x)]
                #![trigger final(self).parent(x)]
                #![trigger final(self).local(x)]
                #![trigger final(self).global(x)]
                #![trigger final(self).camera(x)]
                #![trigger final(self).mesh(x)]
                #![trigger final(self).texture(x)]
                #![trigger final(self).shader(x)]
                #![trigger final(self).name(x)]
                0 <= x < old(self).slots() ==> final(self).same_entity(old(self), x),
            final(self).identity() == old(self).identity(),
            final(self).camera_data() == old(self).camera_data(),
            final(self).stage() == FrameStage::Stale,
    {
        let e = self.alive.len();
        let ghost r = match parent {
            Some(p) => self.rank@[p as int] + 1,
            None => 0nat,
        };
        self.alive.push(true);
        self.names.push(name.to_owned());
        self.parents.push(parent);
        self.locals.push(local);
        self.globals.push(self.identity);
        self.cameras.push(None);
        self.meshes.push(None);
        self.textures.push(None);
        self.shaders.push(None);
        self.rank = Ghost(self.rank@.push(r));
        self.stage = FrameStage::Stale;
        e
    }

    pub fn is_alive(&self, e: usize) -> (r: bool)
        requires
            self.wf(),
        ensures
            r == self.alive(e as int),
    {
        e < self.alive.len() && self.alive[e]
    }

    /// The parent of a live entity; `None` for a root or an unknown id.
    pub fn parent_of(&self, e: usize) -> (r: Option<usize>)
        requires
            self.wf(),
        ensures
            r == (if self.alive(e as int) { self.parent(e as int) } else { None }),
    {
        if self.is_alive(e) {
            self.parents[e]
        } else {
            None
        }
    }

    /// The name of a live entity.
    pub fn name_of(&self, e: usize) -> (r: Option<&str>)
        requires
            self.wf(),
        ensures
            r is Some <==> self.alive(e as int),
            r matches Some(s) ==> s@ == self.name(e as int),
    {
        if self.is_alive(e) {
            Some(self.names[e].as_str())
        } else {
            None
        }
    }

    /// The local transform of a live entity.
    pub fn local_of(&self, e: usize) -> (r: Option<T>)
        requires
            self.wf(),
        ensures
            r == (if self.alive(e as int) { Some(self.local(e as int)) } else { None }),
    {
        if self.is_alive(e) {
            Some(self.locals[e])
        } else {
            None
        }
    }

    /// The world transform of a live entity, as last propagated.
    pub fn global_of(&self, e: usize) -> (r: Option<T>)
        requires
            self.wf(),
        ensures
            r == (if self.alive(e as int) { Some(self.global(e as int)) } else { None }),
    {
        if self.is_alive(e) {
            Some(self.globals[e])
        } else {
            None
        }
    }

    /// The camera component of a live entity.
    pub fn camera_of(&self, e: usize) -> (r: Option<Camera<T>>)
        requires
            self.wf(),
        ensures
            r == (if self.alive(e as int) { self.camera(e as int) } else { None }),
    {
        if self.is_alive(e) {
            self.cameras[e]
        } else {
            None
        }
    }

    /// The active camera record as last extracted.
    pub fn active_camera(&self) -> (r: ActiveCameraData<T, P>)
        ensures
            r == self.camera_data(),
    {
        self.active_camera
    }

    /// Going up one level: the `k + 1`-th ancestor of `e` is the `k`-th
    /// ancestor of its parent.
    proof fn lemma_ancestor_of_parent(&self, e: int, p: usize, k: nat)
        requires
            self.parent(e) == Some(p),
        ensures
            self.ancestor(e, k + 1) == self.ancestor(p as int, k),
        decreases k,
    {
        if k > 0 {
            self.lemma_ancestor_of_parent(e, p, (k - 1) as nat);
            assert(self.ancestor(e, k + 1) == self.ancestor(p as int, k));
        } else {
            assert(self.ancestor(e, 0) == Some(e));
            assert(self.ancestor(e, 1) == self.ancestor(p as int, 0));
        }
    }

    /// A root has no ancestor above itself.
    proof fn lemma_root_ancestors(&self, e: int, k: nat, j: nat)
        requires
            self.ancestor(e, k) matches Some(r) && self.parent(r) is None,
            j > k,
        ensures
            self.ancestor(e, j) is None,
        decreases j,
    {
        if j > k + 1 {
            self.lemma_root_ancestors(e, k, (j - 1) as nat);
        }
    }

    /// `e` descends from `a` exactly when it is `a` or has a parent that
    /// descends from `a`.
    pub proof fn lemma_descends_step(&self, e: int, a: int)
        ensures
            self.descends(e, a) <==> (e == a || (self.parent(e) matches Some(p) && self.descends(p as int, a))),
    {
        if self.parent(e) is None {
            assert(self.ancestor(e, 0) == Some(e));
            if self.descends(e, a) {
                let k = choose|k: nat| self.ancestor(e, k) == Some(a);
                if k > 0 {
                    self.lemma_root_ancestors(e, 0, k);
                }
            }
            return;
        }
        let p = self.parent(e).unwrap();
        if self.descends(e, a) && e != a {
            let k = choose|k: nat| self.ancestor(e, k) == Some(a);
            assert(k > 0);
            self.lemma_ancestor_of_parent(e, p, (k - 1) as nat);
            assert(self.ancestor(p as int, (k - 1) as nat) == Some(a));
        }
        if self.descends(p as int, a) {
            let k = choose|k: nat| self.ancestor(p as int, k) == Some(a);
            self.lemma_ancestor_of_parent(e, p, k);
            assert(self.ancestor(e, k + 1) == Some(a));
        }
        if e == a {
            assert(self.ancestor(e, 0) == Some(a));
        }
    }

    /// Whether live entity `e` is `a` or one of its descendants.
    pub fn is_descendant(&self, e: usize, a: usize) -> (r: bool)
        requires
            self.wf(),
            self.alive(e as int),
        ensures
            r == self.descends(e as int, a as int),
    {
        let mut cur = e;
        let ghost mut k: nat = 0;
        loop
            invariant
                self.wf(),
                self.alive(cur as int),
                self.ancestor(e as int, k) == Some(cur as int),
                forall|j: nat| j < k ==> self.ancestor(e as int, j) != Some(a as int),
            decreases self.rank_of(cur as int),
        {
            if cur == a {
                return true;
            }
            match self.parents[cur] {
                None => {
                    proof {
                        assert forall|j: nat| self.ancestor(e as int, j) != Some(a as int) by {
                            if j > k {
                                self.lemma_root_ancestors(e as int, k, j);
                            }
                        }
                    }
                    return false;
                },
                Some(p) => {
                    assert(self.parents@[cur as int] is Some);
                    proof {
                        k = k + 1;
                    }
                    cur = p;
                },
            }
        }
    }

    /// Makes `parent` the parent of `child`. Refused, with the world left as
    /// it was, when either id is not a live entity or when `parent` is `child`
    /// or one of its descendants.
    pub fn set_parent(&mut self, child: usize, parent: usize) -> (r: Result<(), HierarchyError>)
        requires
            old(self).wf(),
        ensures
            final(self).wf(),
            r == Err::<(), HierarchyError>(HierarchyError::UnknownEntity) <==> !(old(self).alive(child as int)
                && old(self).alive(parent as int)),
            r == Err::<(), HierarchyError>(HierarchyError::Cycle) <==> old(self).alive(child as int)
                && old(self).alive(parent as int) && old(self).descends(parent as int, child as int),
            r is Err ==> *final(self) == *old(self),
            r is Ok ==> {
                &&& final(self).parent(child as int) == Some(parent)
                &&& final(self).others_unchanged(old(self), child as int)
                &&& final(self).alive(child as int)
                &&& final(self).same_record_but_parent(old(self), child as int)
                &&& final(self).global(child as int) == old(self).global(child as int)
                &&& final(self).identity() == old(self).identity()
                &&& final(self).camera_data() == old(self).camera_data()
                &&& final(self).stage() == FrameStage::Stale
            },
    {
        if !self.is_alive(child) || !self.is_alive(parent) {
            return Err(HierarchyError::UnknownEntity);
        }
        if self.is_descendant(parent, child) {
            return Err(HierarchyError::Cycle);
        }
        let ghost old_self = *self;
        let ghost shift = self.rank@[parent as int] + 1;
        let ghost new_rank = Seq::new(
            self.rank@.len(),
            |x: int| if old_self.descends(x, child as int) { old_self.rank@[x] + shift } else { old_self.rank@[x] },
        );
        self.parents[child] = Some(parent);
        self.rank = Ghost(new_rank);
        self.stage = FrameStage::Stale;
        proof {
            assert(old_self.descends(child as int, child as int)) by {
                assert(old_self.ancestor(child as int, 0) == Some(child as int));
            }
            assert forall|x: int|
                #![trigger self.parents@[x]]
                0 <= x < self.alive@.len() && self.alive@[x] && self.parents@[x] is Some implies {
                    let p = self.parents@[x].unwrap() as int;
                    &&& p < self.alive@.len()
                    &&& self.alive@[p]
                    &&& self.rank@[p] < self.rank@[x]
                } by {
                if x != child {
                    let p = self.parents@[x].unwrap() as int;
                    assert(old_self.parents@[x] is Some);
                    old_self.lemma_descends_step(x, child as int);
                }
            }
        }
        Ok(())
    }

    /// The entities marked in `done` are live, resolved, and their parents
    /// are marked too.
    spec fn done_closed<F: Fn(T, T) -> T>(&self, done: Seq<bool>, compose: F) -> bool {
        &&& done.len() == self.slots()
        &&& forall|x: int|
            0 <= x < done.len() && #[trigger] done[x] ==> {
                &&& self.alive(x)
                &&& self.resolved_at(x, compose)
                &&& (self.parent(x) matches Some(p) ==> done[p as int])
            }
    }

    /// `self` and `other` differ at most in world transforms.
    spec fn same_but_globals(&self, other: &Self) -> bool {
        &&& self.alive == other.alive
        &&& self.names == other.names
        &&& self.parents == other.parents
        &&& self.locals == other.locals
        &&& self.globals@.len() == other.globals@.len()
        &&& self.cameras == other.cameras
        &&& self.meshes == other.meshes
        &&& self.textures == other.textures
        &&& self.shaders == other.shaders
        &&& self.identity == other.identity
        &&& self.active_camera == other.active_camera
        &&& self.stage == other.stage
        &&& self.rank == other.rank
    }

    /// Resolves `e` after resolving, parent first, those of its ancestors not
    /// yet marked in `done`.
    fn resolve<F: Fn(T, T) -> T>(&mut self, e: usize, done: &mut Vec<bool>, compose: &F)
        requires
            old(self).wf(),
            old(self).alive(e as int),
            !old(done)@[e as int],
            old(self).done_closed(old(done)@, *compose),
            forall|a: T, b: T| compose.requires((a, b)),
        ensures
            final(self).wf(),
            final(self).same_but_globals(old(self)),
            final(self).done_closed(final(done)@, *compose),
            final(done)@[e as int],
            forall|x: int| 0 <= x < old(done)@.len() && #[trigger] old(done)@[x] ==> final(done)@[x],
            forall|x: int|
                0 <= x < old(done)@.len() && #[trigger] final(done)@[x] && !old(done)@[x]
                    ==> old(self).rank_of(x) <= old(self).rank_of(e as int),
        decreases old(self).rank_of(e as int),
    {
        let g = match self.parents[e] {
            Some(p) => {
                assert(self.parents@[e as int] is Some);
                if !done[p] {
                    self.resolve(p, done, compose);
                }
                compose(self.globals[p], self.locals[e])
            },
            None => self.locals[e],
        };
        let ghost mid_done = done@;
        self.globals[e] = g;
        done[e] = true;
        proof {
            assert forall|x: int| 0 <= x < done@.len() && #[trigger] done@[x] implies {
                &&& self.alive(x)
                &&& self.resolved_at(x, *compose)
                &&& (self.parent(x) matches Some(p) ==> done@[p as int])
            } by {
                if x != e {
                    assert(mid_done[x]);
                    assert(self.parents@[x] is Some ==> mid_done[self.parents@[x].unwrap() as int]);
                }
            }
        }
    }

    /// Transform propagation: gives every live entity the world transform
    /// `compose(parent's world transform, local transform)`, or its local
    /// transform where it is a root. A parent is always resolved before any
    /// child reads it. Nothing but world transforms changes.
    pub fn update_system<F: Fn(T, T) -> T>(&mut self, compose: F)
        requires
            old(self).wf(),
            forall|a: T, b: T| compose.requires((a, b)),
        ensures
            final(self).wf(),
            final(self).transforms_resolved(compose),
            final(self).slots() == old(self).slots(),
            forall|x: int|
                #![trigger final(self).same_but_global(old(self), x)]
                #![trigger final(self).alive(x)]
                #![trigger final(self).parent(x)]
                #![trigger final(self).local(x)]
                #![trigger final(self).global(x)]
                #![trigger final(self).camera(x)]
                #![trigger final(self).mesh(x)]
                #![trigger final(self).texture(x)]
                #![trigger final(self).shader(x)]
                #![trigger final(self).name(x)]
                0 <= x < old(self).slots() ==> final(self).same_but_global(old(self), x),
            final(self).identity() == old(self).identity(),
            final(self).camera_data() == old(self).camera_data(),
            final(self).stage() == FrameStage::Resolved,
            old(self).transforms_resolved(compose) && Self::deterministic(compose) ==> forall|x: int|
                #[trigger] final(self).alive(x) ==> final(self).global(x) == old(self).global(x),
    {
        let n = self.alive.len();
        let mut done: Vec<bool> = Vec::new();
        for i in 0..n
            invariant
                done@.len() == i,
                forall|x: int| 0 <= x < i ==> !done@[x],
        {
            done.push(false);
        }
        let ghost start = *self;
        for e in 0..n
            invariant
                n == self.alive@.len(),
                self.wf(),
                self.same_but_globals(&start),
                self.done_closed(done@, compose),
                forall|x: int| 0 <= x < e && self.alive(x) ==> done@[x],
                forall|a: T, b: T| compose.requires((a, b)),
        {
            let ghost before = done@;
            if self.alive[e] && !done[e] {
                self.resolve(e, &mut done, &compose);
            }
            assert forall|x: int| 0 <= x <= e && self.alive(x) implies done@[x] by {
                if x < e {
                    assert(before[x]);
                }
            }
        }
        let ghost mid = *self;
        self.stage = FrameStage::Resolved;
        proof {
            assert forall|x: int| #[trigger] self.alive(x) implies self.resolved_at(x, compose) by {
                assert(done@[x]);
            }
            if start.transforms_resolved(compose) && Self::deterministic(compose) {
                assert(mid.same_but_globals(&start));
                assert forall|y: int| 0 <= y < self.slots() implies #[trigger] self.same_but_global(&start, y) by {}
                Self::lemma_propagation_idempotent(self, &start, compose);
            }
        }
    }

    proof fn lemma_same_global<F: Fn(T, T) -> T>(w1: &Self, w2: &Self, compose: F, x: int)
        requires
            w1.wf(),
            w1.slots() == w2.slots(),
            forall|y: int| 0 <= y < w1.slots() ==> #[trigger] w1.same_but_global(w2, y),
            w1.transforms_resolved(compose),
            w2.transforms_resolved(compose),
            Self::deterministic(compose),
            w1.alive(x),
        ensures
            w1.global(x) == w2.global(x),
        decreases w1.rank_of(x),
    {
        assert(w1.same_but_global(w2, x));
        assert(w1.resolved_at(x, compose));
        assert(w2.alive(x));
        assert(w2.resolved_at(x, compose));
        if w1.parents@[x] is Some {
            let p = w1.parent(x).unwrap() as int;
            Self::lemma_same_global(w1, w2, compose, p);
        }
    }

    /// Propagation has a single outcome: two worlds with the same live
    /// entities, parent links and local transforms, both fully propagated with
    /// the same deterministic composition, agree on every world transform. So
    /// running propagation a second time, with no local transform changed in
    /// between, leaves every world transform as it was.
    pub proof fn lemma_propagation_idempotent<F: Fn(T, T) -> T>(w1: &Self, w2: &Self, compose: F)
        requires
            w1.wf(),
            w2.wf(),
            w1.slots() == w2.slots(),
            forall|y: int| 0 <= y < w1.slots() ==> #[trigger] w1.same_but_global(w2, y),
            w1.transforms_resolved(compose),
            w2.transforms_resolved(compose),
            Self::deterministic(compose),
        ensures
            forall|x: int| #[trigger] w1.alive(x) ==> w1.global(x) == w2.global(x),
    {
        assert forall|x: int| #[trigger] w1.alive(x) implies w1.global(x) == w2.global(x) by {
            Self::lemma_same_global(w1, w2, compose, x);
        }
    }

    /// Makes live entity `e` a root; its descendants stay below it.
    pub fn detach(&mut self, e: usize)
        requires
            old(self).wf(),
            old(self).alive(e as int),
        ensures
            final(self).wf(),
            final(self).parent(e as int) is None,
            final(self).alive(e as int),
            final(self).same_record_but_parent(old(self), e as int),
            final(self).global(e as int) == old(self).global(e as int),
            final(self).others_unchanged(old(self), e as int),
            final(self).identity() == old(self).identity(),
            final(self).camera_data() == old(self).camera_data(),
            final(self).stage() == FrameStage::Stale,
    {
        self.parents[e] = None;
        self.stage = FrameStage::Stale;
    }

    /// Removes live entity `e` together with all its descendants and returns
    /// the removed ids in increasing order, so that their owners can release
    /// what those entities referred to. An id that is not live removes nothing.
    pub fn destroy(&mut self, e: usize) -> (removed: Vec<usize>)
        requires
            old(self).wf(),
        ensures
            final(self).wf(),
            lists_exactly(removed@, old(self).slots() as int, |x: int| old(self).alive(x) && old(self).descends(x, e as int)),
            final(self).slots() == old(self).slots(),
            forall|x: int|
                0 <= x < old(self).slots() ==> #[trigger] final(self).alive(x) == (old(self).alive(x) && !old(self).descends(x, e as int)),
            forall|x: int|
                #![trigger final(self).same_record(old(self), x)]
                #![trigger final(self).alive(x)]
                #![trigger final(self).parent(x)]
                #![trigger final(self).local(x)]
                #![trigger final(self).global(x)]
                #![trigger final(self).camera(x)]
                #![trigger final(self).mesh(x)]
                #![trigger final(self).texture(x)]
                #![trigger final(self).shader(x)]
                #![trigger final(self).name(x)]
                0 <= x < old(self).slots() ==> final(self).same_record(old(self), x)
                    && final(self).global(x) == old(self).global(x),
            final(self).identity() == old(self).identity(),
            final(self).camera_data() == old(self).camera_data(),
            !old(self).alive(e as int) ==> *final(self) == *old(self),
            old(self).alive(e as int) ==> final(self).stage() == FrameStage::Stale,
    {
        let mut removed: Vec<usize> = Vec::new();
        if !self.is_alive(e) {
            proof {
                assert forall|x: int| 0 <= x < self.slots() && self.alive(x) implies !self.descends(x, e as int) by {
                    if self.descends(x, e as int) {
                        let k = choose|k: nat| self.ancestor(x, k) == Some(e as int);
                        self.lemma_ancestor_alive(x, k);
                    }
                }
            }
            return removed;
        }
        let n = self.alive.len();
        let ghost pred = |x: int| self.alive(x) && self.descends(x, e as int);
        let mut doomed: Vec<bool> = Vec::new();
        for x in 0..n
            invariant
                n == self.alive@.len(),
                self.wf(),
                pred == (|x: int| self.alive(x) && self.descends(x, e as int)),
                doomed@.len() == x,
                forall|y: int| 0 <= y < x ==> #[trigger] doomed@[y] == pred(y),
                lists_exactly(removed@, x as int, pred),
        {
            let d = self.alive[x] && self.is_descendant(x, e);
            let ghost prev = removed@;
            doomed.push(d);
            if d {
                removed.push(x);
                proof {
                    assert forall|y: int| 0 <= y < x + 1 && #[trigger] pred(y) implies exists|i: int|
                        0 <= i < removed@.len() && removed@[i] == y by {
                        if y < x {
                            let i = choose|i: int| 0 <= i < prev.len() && prev[i] == y;
                            assert(removed@[i] == y);
                        } else {
                            assert(removed@[removed@.len() - 1] == y);
                        }
                    }
                }
            }
        }
        let ghost before = *self;
        for x in 0..n
            invariant
                n == self.alive@.len(),
                doomed@.len() == n,
                before.wf(),
                self.same_but_alive(&before),
                forall|y: int| 0 <= y < n ==> #[trigger] self.alive@[y] == if y < x {
                    before.alive@[y] && !doomed@[y]
                } else {
                    before.alive@[y]
                },
        {
            if doomed[x] {
                self.alive[x] = false;
            }
        }
        self.stage = FrameStage::Stale;
        proof {
            assert forall|x: int|
                #![trigger self.parents@[x]]
                0 <= x < self.alive@.len() && self.alive@[x] && self.parents@[x] is Some implies {
                    let p = self.parents@[x].unwrap() as int;
                    &&& p < self.alive@.len()
                    &&& self.alive@[p]
                    &&& self.rank@[p] < self.rank@[x]
                } by {
                assert(before.parents@[x] is Some);
                before.lemma_descends_step(x, e as int);
            }
        }
        removed
    }

    /// Ancestors of a live entity are live.
    proof fn lemma_ancestor_alive(&self, x: int, k: nat)
        requires
            self.wf(),
            self.alive(x),
            self.ancestor(x, k) is Some,
        ensures
            self.alive(self.ancestor(x, k).unwrap()),
        decreases k,
    {
        if k > 0 {
            self.lemma_ancestor_alive(x, (k - 1) as nat);
            let a = self.ancestor(x, (k - 1) as nat).unwrap();
            assert(self.parents@[a] is Some);
        }
    }

    /// `self` and `other` differ at most in which entities are live and in the stage.
    spec fn same_but_alive(&self, other: &Self) -> bool {
        &&& self.alive@.len() == other.alive@.len()
        &&& self.names == other.names
        &&& self.parents == other.parents
        &&& self.locals == other.locals
        &&& self.globals == other.globals
        &&& self.cameras == other.cameras
        &&& self.meshes == other.meshes
        &&& self.textures == other.textures
        &&& self.shaders == other.shaders
        &&& self.identity == other.identity
        &&& self.active_camera == other.active_camera
        &&& self.rank == other.rank
    }

    /// Replaces the local transform of live entity `e`; world transforms are
    /// stale until the next propagation.
    pub fn set_local(&mut self, e: usize, local: T)
        requires
            old(self).wf(),
            old(self).alive(e as int),
        ensures
            final(self).wf(),
            final(self).local(e as int) == local,
            final(self).alive(e as int),
            final(self).name(e as int) == old(self).name(e as int),
            final(self).parent(e as int) == old(self).parent(e as int),
            final(self).global(e as int) == old(self).global(e as int),
            final(self).camera(e as int) == old(self).camera(e as int),
            final(self).mesh(e as int) == old(self).mesh(e as int),
            final(self).texture(e as int) == old(self).texture(e as int),
            final(self).shader(e as int) == old(self).shader(e as int),
            final(self).others_unchanged(old(self), e as int),
            final(self).identity() == old(self).identity(),
            final(self).camera_data() == old(self).camera_data(),
            final(self).stage() == FrameStage::Stale,
    {
        self.locals[e] = local;
        self.stage = FrameStage::Stale;
    }

    /// Attaches `mesh` to live entity `e` by handle, and `texture` where one is
    /// given (an earlier texture stays otherwise).
    pub fn add_mesh<V>(&mut self, e: usize, mesh: &Mesh<V>, texture: Option<Texture>)
        requires
            old(self).wf(),
            old(self).alive(e as int),
        ensures
            final(self).wf(),
            final(self).mesh(e as int) == Some(MeshHandle { vao: mesh.vao, index_count: mesh.indices@.len() as usize }),
            final(self).texture(e as int) == (if texture is Some { texture } else { old(self).texture(e as int) }),
            final(self).alive(e as int),
            final(self).name(e as int) == old(self).name(e as int),
            final(self).parent(e as int) == old(self).parent(e as int),
            final(self).local(e as int) == old(self).local(e as int),
            final(self).global(e as int) == old(self).global(e as int),
            final(self).camera(e as int) == old(self).camera(e as int),
            final(self).shader(e as int) == old(self).shader(e as int),
            final(self).others_unchanged(old(self), e as int),
            final(self).identity() == old(self).identity(),
            final(self).camera_data() == old(self).camera_data(),
            final(self).stage() == old(self).stage(),
    {
        self.meshes[e] = Some(mesh.handle());
        if texture.is_some() {
            self.textures[e] = texture;
        }
    }

    /// Makes live entity `e` drawn with `shader`.
    pub fn add_pbr_shader(&mut self, e: usize, shader: Shader)
        requires
            old(self).wf(),
            old(self).alive(e as int),
        ensures
            final(self).wf(),
            final(self).shader(e as int) == Some(PBRShader(shader)),
            final(self).alive(e as int),
            final(self).name(e as int) == old(self).name(e as int),
            final(self).parent(e as int) == old(self).parent(e as int),
            final(self).local(e as int) == old(self).local(e as int),
            final(self).global(e as int) == old(self).global(e as int),
            final(self).camera(e as int) == old(self).camera(e as int),
            final(self).mesh(e as int) == old(self).mesh(e as int),
            final(self).texture(e as int) == old(self).texture(e as int),
            final(self).others_unchanged(old(self), e as int),
            final(self).identity() == old(self).identity(),
            final(self).camera_data() == old(self).camera_data(),
            final(self).stage() == old(self).stage(),
    {
        self.shaders[e] = Some(PBRShader(shader));
    }

    /// Gives live entity `e` a camera. The active camera must be extracted
    /// again before the next render.
    pub fn add_camera(&mut self, e: usize, camera: Camera<T>)
        requires
            old(self).wf(),
            old(self).alive(e as int),
        ensures
            final(self).wf(),
            final(self).camera(e as int) == Some(camera),
            final(self).alive(e as int),
            final(self).name(e as int) == old(self).name(e as int),
            final(self).parent(e as int) == old(self).parent(e as int),
            final(self).local(e as int) == old(self).local(e as int),
            final(self).global(e as int) == old(self).global(e as int),
            final(self).mesh(e as int) == old(self).mesh(e as int),
            final(self).texture(e as int) == old(self).texture(e as int),
            final(self).shader(e as int) == old(self).shader(e as int),
            final(self).others_unchanged(old(self), e as int),
            final(self).identity() == old(self).identity(),
            final(self).camera_data() == old(self).camera_data(),
            final(self).stage() == (if old(self).stage() == FrameStage::Stale {
                FrameStage::Stale
            } else {
                FrameStage::Resolved
            }),
    {
        self.cameras[e] = Some(camera);
        if self.stage != FrameStage::Stale {
            self.stage = FrameStage::Resolved;
        }
    }

    /// Live entity `e` carries a camera.
    pub open spec fn has_camera(&self, e: int) -> bool {
        self.alive(e) && self.camera(e) is Some
    }

    /// Camera extraction: from the single live camera entity `c`, sets the
    /// active camera's view to `inverse(world transform of c)`, its position
    /// to `position(world transform of c)` and its projection to the camera's
    /// projection, and returns `c`. Refused, with nothing changed, when world
    /// transforms are stale, or when there is no camera entity or more than one.
    pub fn camera_system<F: Fn(T) -> T, G: Fn(T) -> P>(&mut self, inverse: F, position: G) -> (r: Result<usize, FrameError>)
        requires
            old(self).wf(),
            forall|t: T| inverse.requires((t,)),
            forall|t: T| position.requires((t,)),
        ensures
            final(self).wf(),
            r == Err::<usize, FrameError>(FrameError::TransformsStale) <==> old(self).stage() == FrameStage::Stale,
            r == Err::<usize, FrameError>(FrameError::NoCamera) <==> old(self).stage() != FrameStage::Stale
                && !exists|c: int| #[trigger] old(self).has_camera(c),
            r == Err::<usize, FrameError>(FrameError::MultipleCameras) <==> old(self).stage() != FrameStage::Stale
                && exists|c: int, d: int| c != d && #[trigger] old(self).has_camera(c) && #[trigger] old(self).has_camera(d),
            r != Err::<usize, FrameError>(FrameError::CameraStale),
            r is Err ==> *final(self) == *old(self),
            r matches Ok(c) ==> {
                &&& old(self).has_camera(c as int)
                &&& final(self).camera_data().projection == old(self).camera(c as int).unwrap().projection
                &&& inverse.ensures((old(self).global(c as int),), final(self).camera_data().view)
                &&& position.ensures((old(self).global(c as int),), final(self).camera_data().pos)
                &&& final(self).stage() == FrameStage::CameraReady
                &&& final(self).same_entities(old(self))
                &&& final(self).identity() == old(self).identity()
            },
    {
        if self.stage == FrameStage::Stale {
            return Err(FrameError::TransformsStale);
        }
        let n = self.alive.len();
        let mut found: Option<usize> = None;
        for x in 0..n
            invariant
                n == self.alive@.len(),
                self.wf(),
                self.stage() != FrameStage::Stale,
                found is None ==> forall|y: int| 0 <= y < x ==> !#[trigger] self.has_camera(y),
                found matches Some(c) ==> c < x && self.has_camera(c as int) && forall|y: int|
                    0 <= y < x && y != c ==> !#[trigger] self.has_camera(y),
        {
            if self.alive[x] && self.cameras[x].is_some() {
                if let Some(c) = found {
                    assert(self.has_camera(c as int) && self.has_camera(x as int));
                    return Err(FrameError::MultipleCameras);
                }
                found = Some(x);
            }
        }
        match found {
            None => Err(FrameError::NoCamera),
            Some(c) => {
                let world = self.globals[c];
                let projection = self.cameras[c].unwrap().projection;
                let view = inverse(world);
                let pos = position(world);
                self.active_camera = ActiveCameraData { pos, view, projection };
                self.stage = FrameStage::CameraReady;
                Ok(c)
            },
        }
    }

    /// Live entity `e` has a mesh and a shader, so it is drawn.
    pub open spec fn renderable(&self, e: int) -> bool {
        self.alive(e) && self.mesh(e) is Some && self.shader(e) is Some
    }

    /// The draw of renderable entity `e`.
    pub open spec fn render_item(&self, e: int) -> RenderItem<T> {
        RenderItem {
            entity: e as usize,
            model: self.global(e),
            mesh: self.mesh(e).unwrap(),
            texture: self.texture(e),
            shader: self.shader(e).unwrap().0,
        }
    }

    /// The render list: one draw for each renderable entity, in increasing id
    /// order, with its current world transform as model matrix. Refused while
    /// the active camera has not been extracted since the last propagation.
    pub fn render_system(&self) -> (r: Result<Vec<RenderItem<T>>, FrameError>)
        requires
            self.wf(),
        ensures
            self.stage() != FrameStage::CameraReady ==> r == Err::<Vec<RenderItem<T>>, FrameError>(FrameError::CameraStale),
            self.stage() == FrameStage::CameraReady ==> r is Ok,
            r matches Ok(items) ==> {
                &&& lists_exactly(items@.map_values(|it: RenderItem<T>| it.entity), self.slots() as int, |e: int| self.renderable(e))
                &&& forall|i: int| 0 <= i < items@.len() ==> #[trigger] items@[i] == self.render_item(items@[i].entity as int)
            },
    {
        if self.stage != FrameStage::CameraReady {
            return Err(FrameError::CameraStale);
        }
        let n = self.alive.len();
        let mut items: Vec<RenderItem<T>> = Vec::new();
        let ghost pred = |e: int| self.renderable(e);
        for x in 0..n
            invariant
                n == self.alive@.len(),
                self.wf(),
                pred == (|e: int| self.renderable(e)),
                lists_exactly(items@.map_values(|it: RenderItem<T>| it.entity), x as int, pred),
                forall|i: int| 0 <= i < items@.len() ==> #[trigger] items@[i] == self.render_item(items@[i].entity as int),
        {
            if self.alive[x] {
                match (self.meshes[x], self.shaders[x]) {
                    (Some(mesh), Some(shader)) => {
                        let ghost prev = items@.map_values(|it: RenderItem<T>| it.entity);
                        items.push(RenderItem { entity: x, model: self.globals[x], mesh, texture: self.textures[x], shader: shader.0 });
                        proof {
                            let ids = items@.map_values(|it: RenderItem<T>| it.entity);
                            assert(ids =~= prev.push(x));
                            assert forall|y: int| 0 <= y < x + 1 && #[trigger] pred(y) implies exists|i: int|
                                0 <= i < ids.len() && ids[i] == y by {
                                if y < x {
                                    let i = choose|i: int| 0 <= i < prev.len() && prev[i] == y;
                                    assert(ids[i] == y);
                                } else {
                                    assert(ids[ids.len() - 1] == y);
                                }
                            }
                        }
                    },
                    _ => {
                        proof {
                            let ids = items@.map_values(|it: RenderItem<T>| it.entity);
                            assert forall|y: int| 0 <= y < x + 1 && #[trigger] pred(y) implies exists|i: int|
                                0 <= i < ids.len() && ids[i] == y by {
                                assert(y < x);
                            }
                        }
                    },
                }
            }
        }
        Ok(items)
    }

    pub fn frame_stage(&self) -> (r: FrameStage)
        ensures
            r == self.stage(),
    {
        self.stage
    }
}

} // verus!
