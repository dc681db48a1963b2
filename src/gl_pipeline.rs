use vstd::prelude::*;

verus! {

/// The render pipelines, in the order of their slots.
#[derive(Debug, Clone, Copy, PartialEq, Eq, Structural)]
pub enum GlPipelineType {
    Colored,
    MSDFTex,
    RGBATex,
}

pub open spec fn pipeline_slot(p: GlPipelineType) -> usize {
    match p {
        GlPipelineType::Colored => 0,
        GlPipelineType::MSDFTex => 1,
        GlPipelineType::RGBATex => 2,
    }
}

impl From<GlPipelineType> for usize {
    fn from(p: GlPipelineType) -> (r: usize) {
        match p {
            GlPipelineType::Colored => 0,
            GlPipelineType::MSDFTex => 1,
            GlPipelineType::RGBATex => 2,
        }
    }
}

impl vstd::std_specs::convert::FromSpecImpl<GlPipelineType> for usize {
    open spec fn obeys_from_spec() -> bool {
        true
    }

    open spec fn from_spec(p: GlPipelineType) -> usize {
        pipeline_slot(p)
    }
}

/// Handles of the buffers that hold a mesh on the graphics device.
#[derive(Debug, Clone, Copy, PartialEq, Eq, Structural)]
pub struct GlMesh {
    pub vao_vertices: u32,
    pub vbo_vertices: u32,
    pub vbo_indices: u32,
    pub num_indices: i32,
    pub num_vertices: i32,
    pub primitive_type: u32,
    pub has_indices: bool,
    pub is_debug: bool,
}

/// Meshes stored under small integer ids. A removed mesh leaves its slot
/// empty, and the most recently emptied slot is the next one reused.
#[derive(Debug)]
pub struct GlMeshes {
    meshes: Vec<Option<GlMesh>>,
    free_ids: Vec<usize>,
}

impl GlMeshes {
    /// The content of each slot, by id.
    pub closed spec fn slots(&self) -> Seq<Option<GlMesh>> {
        self.meshes@
    }

    /// The empty slots in the order they were emptied.
    pub closed spec fn free(&self) -> Seq<usize> {
        self.free_ids@
    }

    /// Every empty slot is listed once among the free ids, and nothing else is.
    pub open spec fn wf(&self) -> bool {
        &&& self.free().no_duplicates()
        &&& forall|k: int| 0 <= k < self.free().len() ==> #[trigger] self.free()[k] < self.slots().len()
        &&& forall|i: int|
            0 <= i < self.slots().len() ==> (#[trigger] self.slots()[i] is None <==> self.free().contains(
                i as usize,
            ))
    }

    pub fn new(initial: &[GlMesh]) -> (r: Self)
        ensures
            r.wf(),
            r.slots() == initial@.map_values(|m: GlMesh| Some(m)),
            r.free().len() == 0,
    {
        let mut meshes: Vec<Option<GlMesh>> = Vec::new();
        let mut i: usize = 0;
        while i < initial.len()
            invariant
                i <= initial@.len(),
                meshes@ == initial@.subrange(0, i as int).map_values(|m: GlMesh| Some(m)),
            decreases initial@.len() - i,
        {
            meshes.push(Some(initial[i]));
            assert(meshes@ =~= initial@.subrange(0, i + 1).map_values(|m: GlMesh| Some(m)));
            i = i + 1;
        }
        assert(initial@.subrange(0, initial@.len() as int) =~= initial@);
        GlMeshes { meshes, free_ids: Vec::new() }
    }

    /// Stores a mesh, in the most recently emptied slot if there is one and
    /// in a new slot at the end otherwise; returns its id.
    pub fn insert(&mut self, mesh: GlMesh) -> (id: usize)
        requires
            old(self).wf(),
        ensures
            final(self).wf(),
            old(self).free().len() > 0 ==> {
                &&& id == old(self).free().last()
                &&& final(self).slots() == old(self).slots().update(id as int, Some(mesh))
                &&& final(self).free() == old(self).free().drop_last()
            },
            old(self).free().len() == 0 ==> {
                &&& id == old(self).slots().len()
                &&& final(self).slots() == old(self).slots().push(Some(mesh))
                &&& final(self).free() == old(self).free()
            },
    {
        if self.free_ids.len() > 0 {
            let id = self.free_ids.pop().unwrap();
            let ghost old_free = old(self).free();
            proof {
                assert(old_free.contains(id));
                assert(old_free =~= self.free_ids@.push(id));
            }
            self.meshes.set(id, Some(mesh));
            let n = self.meshes.len();
            proof {
                assert forall|i: int| 0 <= i < self.slots().len() implies (#[trigger] self.slots()[i] is None <==> self.free().contains(i as usize)) by {
                    if i == id {
                        assert(!self.free_ids@.contains(id)) by {
                            if self.free_ids@.contains(id) {
                                let k = choose|k: int| 0 <= k < self.free_ids@.len() && self.free_ids@[k] == id;
                                assert(old_free[k] == old_free[old_free.len() - 1]);
                            }
                        }
                    } else {
                        assert(old(self).slots()[i] == self.slots()[i]);
                        if old_free.contains(i as usize) {
                            let k = choose|k: int| 0 <= k < old_free.len() && old_free[k] == i as usize;
                            assert(i < n);
                            assert(old_free[old_free.len() - 1] == id);
                            assert(k != old_free.len() - 1);
                            assert(self.free_ids@[k] == old_free[k]);
                            assert(self.free().contains(i as usize));
                        }
                        if self.free_ids@.contains(i as usize) {
                            let k = choose|k: int| 0 <= k < self.free_ids@.len() && self.free_ids@[k] == i as usize;
                            assert(old_free[k] == i as usize);
                        }
                    }
                }
                assert forall|k: int| 0 <= k < self.free().len() implies #[trigger] self.free()[k] < self.slots().len() by {
                    assert(old_free[k] == self.free()[k]);
                }
                assert(self.free().no_duplicates()) by {
                    assert forall|a: int, b: int| 0 <= a < b < self.free().len() implies self.free()[a] != self.free()[b] by {
                        assert(old_free[a] == self.free()[a]);
                        assert(old_free[b] == self.free()[b]);
                    }
                }
            }
            id
        } else {
            self.meshes.push(Some(mesh));
            proof {
                assert forall|i: int| 0 <= i < self.slots().len() implies (#[trigger] self.slots()[i] is None <==> self.free().contains(i as usize)) by {
                    if i < old(self).slots().len() {
                        assert(old(self).slots()[i] == self.slots()[i]);
                    }
                }
            }
            self.meshes.len() - 1
        }
    }

    /// Takes the mesh stored under `id` out of its slot, which becomes the
    /// next to be reused; `None`, and nothing changes, if none is stored there.
    pub fn remove(&mut self, id: usize) -> (r: Option<GlMesh>)
        requires
            old(self).wf(),
        ensures
            final(self).wf(),
            id < old(self).slots().len() && old(self).slots()[id as int] is Some ==> {
                &&& r == old(self).slots()[id as int]
                &&& final(self).slots() == old(self).slots().update(id as int, None)
                &&& final(self).free() == old(self).free().push(id)
            },
            !(id < old(self).slots().len() && old(self).slots()[id as int] is Some) ==> {
                &&& r is None
                &&& final(self).slots() == old(self).slots()
                &&& final(self).free() == old(self).free()
            },
    {
        if id < self.meshes.len() && self.meshes[id].is_some() {
            let m = self.meshes[id];
            let ghost old_free = old(self).free();
            proof {
                assert(!old_free.contains(id));
            }
            self.meshes.set(id, None);
            self.free_ids.push(id);
            proof {
                assert forall|i: int| 0 <= i < self.slots().len() implies (#[trigger] self.slots()[i] is None <==> self.free().contains(i as usize)) by {
                    if i != id {
                        assert(old(self).slots()[i] == self.slots()[i]);
                        if old_free.contains(i as usize) {
                            let k = choose|k: int| 0 <= k < old_free.len() && old_free[k] == i as usize;
                            assert(self.free_ids@[k] == i as usize);
                        }
                        if self.free_ids@.contains(i as usize) {
                            let k = choose|k: int| 0 <= k < self.free_ids@.len() && self.free_ids@[k] == i as usize;
                            assert(old_free[k] == i as usize);
                        }
                    } else {
                        assert(self.free_ids@[old_free.len() as int] == id);
                    }
                }
                assert forall|k: int| 0 <= k < self.free().len() implies #[trigger] self.free()[k] < self.slots().len() by {
                    if k < old_free.len() {
                        assert(old_free[k] == self.free()[k]);
                    }
                }
                assert(self.free().no_duplicates()) by {
                    assert forall|a: int, b: int| 0 <= a < b < self.free().len() implies self.free()[a] != self.free()[b] by {
                        if b == old_free.len() {
                            assert(old_free[a] == self.free()[a]);
                            assert(old_free.contains(self.free()[a]));
                        } else {
                            assert(old_free[a] == self.free()[a]);
                            assert(old_free[b] == self.free()[b]);
                        }
                    }
                }
            }
            m
        } else {
            None
        }
    }

    /// The mesh stored under `id`, if any.
    pub fn get(&self, id: usize) -> (r: Option<&GlMesh>)
        ensures
            id < self.slots().len() ==> r == match self.slots()[id as int] {
                Some(m) => Some(&m),
                None => None::<&GlMesh>,
            },
            id >= self.slots().len() ==> r is None,
    {
        if id < self.meshes.len() {
            match &self.meshes[id] {
                Some(m) => Some(m),
                None => None,
            }
        } else {
            None
        }
    }
}

} // verus!
