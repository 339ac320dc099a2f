//! Render graph: an immediate-mode graph of passes.
//!
//! Passes are declared in execution order with the resources they read and write. The graph
//! computes resource lifetimes and assigns them to pool slots so that resources of one
//! specification whose lifetimes do not overlap share a slot. It is the plain sibling of
//! [`crate::frame_plan::FramePlan`]: nothing is cached, every `build` recomputes.
use vstd::prelude::*;
#[allow(unused_imports)]
use vstd::string::*;

use crate::compile::{check_first_touch, compile_layout, ReadBeforeWrite};
#[allow(unused_imports)]
use crate::compile::is_first_offence;
pub use crate::declarations::{
    Color, PassId, ResourceId, SizePolicy, TextureFormat, TextureSpec,
};
use crate::declarations::{PassNode, ResourceNode};
#[allow(unused_imports)]
use crate::declarations::{
    frame_of, ids_in_range, is_used, pass_decls, reads_of, resource_decls, touches, writes_of, PassDecl,
    ResourceDecl,
};
pub use crate::layout::{GraphLayout, PassLayout, PoolSlot, ResourceLayout};
#[allow(unused_imports)]
use crate::layout::{alive_ok, entry_ok, slot_ok, window_ok};
#[allow(unused_imports)]
use crate::transient_pool::declarations_ok;

verus! {

/// View of a [`RenderGraph`].
#[verifier::ext_equal]
pub struct GraphView {
    pub resources: Seq<ResourceDecl>,
    pub passes: Seq<PassDecl>,
    pub surface_size: (u32, u32),
}

impl GraphView {
    /// The layout is the one of these declarations.
    pub open spec fn compiles_to(self, layout: GraphLayout) -> bool {
        layout.describes(self.resources, self.passes, Seq::empty(), self.surface_size)
    }

    /// The declarations compile.
    pub open spec fn ok(self) -> bool {
        declarations_ok(self.resources, self.passes)
    }

    /// The view with one more resource.
    pub open spec fn with_resource(self, r: ResourceDecl) -> GraphView {
        GraphView { resources: self.resources.push(r), ..self }
    }

    /// The view with pass `p` replaced.
    pub open spec fn with_pass(self, p: PassId, pass: PassDecl) -> GraphView {
        GraphView { passes: self.passes.update(p.0 as int, pass), ..self }
    }

    /// The declaration of pass `p`.
    pub open spec fn pass(self, p: PassId) -> PassDecl {
        self.passes[p.0 as int]
    }
}

/// Every resource that an executing pass uses has a slot.
pub open spec fn every_use_is_pooled(layout: GraphLayout) -> bool {
    forall|i: int|
        0 <= i < layout.resources@.len() && is_used(layout.frame(), ResourceId(i as u32)) ==> (
        #[trigger] layout.resources@[i]).slot is Some && layout.resources@[i].slot->0
            < layout.slots@.len()
}

/// The pass graph being assembled.
#[derive(Debug)]
pub struct RenderGraph {
    resources: Vec<ResourceNode>,
    passes: Vec<PassNode>,
    surface_size: (u32, u32),
}

impl View for RenderGraph {
    type V = GraphView;

    closed spec fn view(&self) -> GraphView {
        GraphView {
            resources: resource_decls(self.resources@),
            passes: pass_decls(self.passes@),
            surface_size: self.surface_size,
        }
    }
}

impl RenderGraph {
    /// Handles fit, the graph owns or imports every resource, so that a used one is pooled, and
    /// every access names a registered resource.
    pub open spec fn wf(self) -> bool {
        &&& self@.resources.len() <= u32::MAX + 1
        &&& forall|i: int|
            0 <= i < self@.resources.len() ==> !(#[trigger] self@.resources[i]).external
        &&& self@.passes.len() <= u32::MAX + 1
        &&& ids_in_range(self@.passes, self@.resources.len())
    }

    /// Creates an empty graph; `surface_size` feeds `SizePolicy::MatchSurface`.
    pub fn new(surface_size: (u32, u32)) -> (g: RenderGraph)
        ensures
            g.wf(),
            g@ == (GraphView {
                resources: Seq::empty(),
                passes: Seq::empty(),
                surface_size,
            }),
    {
        RenderGraph { resources: Vec::new(), passes: Vec::new(), surface_size }
    }

    /// Updates the surface size (window resize) before the next `build()`.
    pub fn set_surface_size(&mut self, width: u32, height: u32)
        requires
            old(self).wf(),
        ensures
            final(self).wf(),
            final(self)@ == (GraphView { surface_size: (width, height), ..old(self)@ }),
    {
        self.surface_size = (width, height);
    }

    fn register(&mut self, name: &str, spec: TextureSpec, imported: bool) -> (id: ResourceId)
        requires
            old(self).wf(),
            old(self)@.resources.len() <= u32::MAX,
        ensures
            final(self).wf(),
            id.0 == old(self)@.resources.len(),
            final(self)@ == old(self)@.with_resource(
                ResourceDecl { name: name@, spec, imported, external: false },
            ),
    {
        let id: ResourceId = ResourceId(self.resources.len() as u32);
        let ghost before = self@;
        self.resources.push(
            ResourceNode { name: name.to_owned(), spec, imported, external: false },
        );
        proof {
            let node = self.resources@.last();
            assert(node@ == (ResourceDecl { name: name@, spec, imported, external: false }));
            assert(self@.resources =~= before.resources.push(node@));
        }
        id
    }

    /// Registers a graph-owned resource (texture).
    pub fn create_resource(&mut self, name: &str, spec: TextureSpec) -> (id: ResourceId)
        requires
            old(self).wf(),
            old(self)@.resources.len() <= u32::MAX,
        ensures
            final(self).wf(),
            id.0 == old(self)@.resources.len(),
            final(self)@ == old(self)@.with_resource(
                ResourceDecl { name: name@, spec, imported: false, external: false },
            ),
    {
        self.register(name, spec, false)
    }

    /// Registers an imported resource that passes only read (an uploaded shadow map): the
    /// first-touch rule does not apply to it.
    pub fn import_resource(&mut self, name: &str, spec: TextureSpec) -> (id: ResourceId)
        requires
            old(self).wf(),
            old(self)@.resources.len() <= u32::MAX,
        ensures
            final(self).wf(),
            id.0 == old(self)@.resources.len(),
            final(self)@ == old(self)@.with_resource(
                ResourceDecl { name: name@, spec, imported: true, external: false },
            ),
    {
        self.register(name, spec, true)
    }

    /// Starts declaring a pass; passes execute in insertion order.
    pub fn add_pass(&mut self, name: &str) -> (b: PassBuilder<'_>)
        requires
            old(self).wf(),
            old(self)@.passes.len() <= u32::MAX,
        ensures
            b.wf(),
            b.id.0 == old(self)@.passes.len(),
            b.graph@ == (GraphView {
                passes: old(self)@.passes.push(
                    PassDecl {
                        name: name@,
                        reads: Seq::empty(),
                        writes: Seq::empty(),
                        enabled: true,
                    },
                ),
                ..old(self)@
            }),
            *final(b.graph) == *final(self),
    {
        let id: PassId = PassId(self.passes.len() as u32);
        let ghost before = self@;
        self.passes.push(
            PassNode {
                name: name.to_owned(),
                reads: Vec::new(),
                writes: Vec::new(),
                enabled: true,
            },
        );
        proof {
            let node = self.passes@.last();
            let decl = PassDecl {
                name: name@,
                reads: Seq::empty(),
                writes: Seq::empty(),
                enabled: true,
            };
            assert(node@ =~= decl);
            assert(self@.passes =~= before.passes.push(decl));
            assert forall|p: int, r: ResourceId| 0 <= p < self@.passes.len() && #[trigger] touches(
                self@.passes[p],
                r,
            ) implies r.0 < self@.resources.len() by {
                if p < before.passes.len() {
                    assert(touches(before.passes[p], r));
                }
            }
        }
        PassBuilder { graph: self, id }
    }

    /// Enables or disables a pass (culling): a disabled pass is dropped from the layout, and its
    /// resources get no slots unless used elsewhere.
    pub fn set_pass_enabled(&mut self, id: PassId, enabled: bool)
        requires
            old(self).wf(),
            id.0 < old(self)@.passes.len(),
        ensures
            final(self).wf(),
            final(self)@ == old(self)@.with_pass(
                id,
                PassDecl { enabled, ..old(self)@.pass(id) },
            ),
    {
        let ghost before = self@;
        self.passes[id.0 as usize].enabled = enabled;
        proof {
            let i = id.0 as int;
            let decl = PassDecl { enabled, ..before.passes[i] };
            assert(self.passes@[i]@ =~= decl);
            assert(self@.passes =~= before.passes.update(i, decl));
            assert forall|p: int, r: ResourceId| 0 <= p < self@.passes.len() && #[trigger] touches(
                self@.passes[p],
                r,
            ) implies r.0 < self@.resources.len() by {
                assert(touches(before.passes[p], r));
            }
        }
    }

    /// Checks the first-touch rule: whether the graph builds, and which read breaks the rule
    /// first if it does not.
    pub fn check(&self) -> (res: Result<(), ReadBeforeWrite>)
        requires
            self.wf(),
        ensures
            res is Ok <==> self@.ok(),
            res is Err ==> exists|i: int, k: int| #[trigger]
                is_first_offence(
                    self@.resources,
                    frame_of(self@.passes),
                    res->Err_0,
                    i,
                    k,
                ),
    {
        check_first_touch(&self.resources, &self.passes)
    }

    /// Computes the frame layout (lifetimes and pool slots) from the current graph.
    pub fn build(&self) -> (layout: GraphLayout)
        requires
            self.wf(),
            self@.ok(),
        ensures
            self@.compiles_to(layout),
            every_use_is_pooled(layout),
    {
        let layout = self.compute_layout();
        proof {
            assert forall|i: int| 0 <= i < layout.resources@.len() && is_used(
                layout.frame(),
                ResourceId(i as u32),
            ) implies (#[trigger] layout.resources@[i]).slot is Some && layout.resources@[i].slot->0
                < layout.slots@.len() by {
                let rl = layout.resources@[i];
                assert(rl.id.0 == i);
                assert(entry_ok(self@.resources[i], rl));
                assert(!self@.resources[i].external);
                assert(window_ok(layout.frame(), rl));
                assert(layout.passes.len() == layout.passes@.len());
                assert(slot_ok(layout.resources@, i));
            }
        }
        layout
    }

    fn compute_layout(&self) -> (layout: GraphLayout)
        requires
            self.wf(),
            self@.ok(),
        ensures
            self@.compiles_to(layout),
    {
        let ordering: Vec<(PassId, PassId)> = Vec::new();
        assert(ordering@ =~= Seq::<(PassId, PassId)>::empty());
        compile_layout(&self.resources, &self.passes, &ordering, self.surface_size)
    }

    /// One context per pass of the layout, in execution order: what a caller walks to run the
    /// frame.
    pub fn execute<'a>(&self, layout: &'a GraphLayout) -> (contexts: Vec<PassContext<'a>>)
        requires
            layout.wf(),
        ensures
            contexts@.len() == layout.passes@.len(),
            forall|i: int|
                0 <= i < contexts@.len() ==> (#[trigger] contexts@[i]).index == i
                    && contexts@[i].layout == layout,
    {
        let mut contexts: Vec<PassContext<'a>> = Vec::new();
        for index in 0..layout.passes.len()
            invariant
                contexts@.len() == index,
                forall|i: int|
                    0 <= i < index ==> (#[trigger] contexts@[i]).index == i && contexts@[i].layout
                        == layout,
        {
            contexts.push(PassContext { layout, index });
        }
        contexts
    }
}

/// Context of the pass being executed: live resources and their pool slots.
#[derive(Debug, Clone, Copy)]
pub struct PassContext<'a> {
    pub layout: &'a GraphLayout,
    pub index: usize,
}

impl<'a> PassContext<'a> {
    /// The context stands on a pass of a layout.
    pub open spec fn wf(self) -> bool {
        self.layout.wf() && self.index < self.layout.passes@.len()
    }

    /// The pass in execution order.
    pub fn pass(&self) -> (pass: &'a PassLayout)
        requires
            self.wf(),
        ensures
            *pass == self.layout.passes@[self.index as int],
    {
        &self.layout.passes[self.index]
    }

    /// Index of the pass within the layout.
    pub fn pass_index(&self) -> (i: usize)
        ensures
            i == self.index,
    {
        self.index
    }

    /// Resources alive on this pass, in registration order.
    pub fn alive(&self) -> (ids: &'a [ResourceId])
        requires
            self.wf(),
        ensures
            ids@ == self.layout.pass_alive@[self.index as int]@,
            alive_ok(self.layout.resources@, self.index as int, ids@),
    {
        self.layout.pass_alive[self.index].as_slice()
    }

    /// Resource metadata.
    pub fn resource(&self, id: ResourceId) -> (rl: &'a ResourceLayout)
        requires
            id.0 < self.layout.resources@.len(),
        ensures
            *rl == self.layout.resources@[id.0 as int],
    {
        &self.layout.resources[id.0 as usize]
    }

    /// Pool slot for the resource, if it is alive and pooled on this pass.
    pub fn slot_of(&self, id: ResourceId) -> (slot: Option<usize>)
        requires
            id.0 < self.layout.resources@.len(),
        ensures
            slot == if self.layout.resources@[id.0 as int].is_alive_at(self.index as int) {
                self.layout.resources@[id.0 as int].slot
            } else {
                None
            },
    {
        let rl = self.resource(id);
        if rl.alive_at(self.index) {
            rl.slot
        } else {
            None
        }
    }
}

/// Builder for declaring a pass.
#[derive(Debug)]
pub struct PassBuilder<'a> {
    pub graph: &'a mut RenderGraph,
    pub id: PassId,
}

impl<'a> PassBuilder<'a> {
    /// The builder stands on a pass of its graph.
    pub open spec fn wf(self) -> bool {
        self.graph.wf() && self.id.0 < self.graph@.passes.len()
    }

    /// Id of the pass being declared.
    pub fn id(&self) -> (id: PassId)
        ensures
            id == self.id,
    {
        self.id
    }

    /// Declares a resource as read by the pass.
    pub fn read(self, id: ResourceId) -> (b: PassBuilder<'a>)
        requires
            self.wf(),
            id.0 < self.graph@.resources.len(),
        ensures
            b.wf(),
            b.id == self.id,
            b.graph@ == old(self.graph)@.with_pass(
                self.id,
                PassDecl {
                    reads: old(self.graph)@.pass(self.id).reads.push(id),
                    ..old(self.graph)@.pass(self.id)
                },
            ),
            *final(b.graph) == *final(self.graph),
    {
        let b = self;
        let ghost before = b.graph@;
        let i: usize = b.id.0 as usize;
        b.graph.passes[i].reads.push(id);
        proof {
            let pass = before.passes[i as int];
            let decl = PassDecl { reads: pass.reads.push(id), ..pass };
            assert(b.graph.passes@[i as int]@ =~= decl);
            assert(b.graph@.passes =~= before.passes.update(i as int, decl));
            assert forall|p: int, r: ResourceId| 0 <= p < b.graph@.passes.len()
                && #[trigger] touches(b.graph@.passes[p], r) implies r.0
                < b.graph@.resources.len() by {
                if p == i {
                    if decl.reads.contains(r) && r != id {
                        let k = choose|k: int| 0 <= k < decl.reads.len() && decl.reads[k] == r;
                        assert(pass.reads[k] == r);
                        assert(touches(before.passes[p], r));
                    } else if r != id {
                        assert(writes_of(pass, r));
                        assert(touches(before.passes[p], r));
                    }
                } else {
                    assert(touches(before.passes[p], r));
                }
            }
        }
        b
    }

    fn declare_write(self, id: ResourceId, clear: Option<Color>) -> (b: PassBuilder<'a>)
        requires
            self.wf(),
            id.0 < self.graph@.resources.len(),
        ensures
            b.wf(),
            b.id == self.id,
            b.graph@ == old(self.graph)@.with_pass(
                self.id,
                PassDecl {
                    writes: old(self.graph)@.pass(self.id).writes.push((id, clear)),
                    ..old(self.graph)@.pass(self.id)
                },
            ),
            *final(b.graph) == *final(self.graph),
    {
        let b = self;
        let ghost before = b.graph@;
        let i: usize = b.id.0 as usize;
        b.graph.passes[i].writes.push((id, clear));
        proof {
            let pass = before.passes[i as int];
            let decl = PassDecl { writes: pass.writes.push((id, clear)), ..pass };
            assert(b.graph.passes@[i as int]@ =~= decl);
            assert(b.graph@.passes =~= before.passes.update(i as int, decl));
            assert forall|p: int, r: ResourceId| 0 <= p < b.graph@.passes.len()
                && #[trigger] touches(b.graph@.passes[p], r) implies r.0
                < b.graph@.resources.len() by {
                if p == i {
                    if writes_of(decl, r) && r != id {
                        let k = choose|k: int|
                            0 <= k < decl.writes.len() && (#[trigger] decl.writes[k]).0 == r;
                        assert(pass.writes[k].0 == r);
                        assert(touches(before.passes[p], r));
                    } else if r != id {
                        assert(reads_of(pass, r));
                        assert(touches(before.passes[p], r));
                    }
                } else {
                    assert(touches(before.passes[p], r));
                }
            }
        }
        b
    }

    /// Declares a resource as written by the pass (no clear).
    pub fn write(self, id: ResourceId) -> (b: PassBuilder<'a>)
        requires
            self.wf(),
            id.0 < self.graph@.resources.len(),
        ensures
            b.wf(),
            b.id == self.id,
            b.graph@ == old(self.graph)@.with_pass(
                self.id,
                PassDecl {
                    writes: old(self.graph)@.pass(self.id).writes.push((id, None)),
                    ..old(self.graph)@.pass(self.id)
                },
            ),
            *final(b.graph) == *final(self.graph),
    {
        self.declare_write(id, None)
    }

    /// Declares a resource as written by the pass with a clear value (typically the frame
    /// background).
    pub fn write_clear(self, id: ResourceId, clear: Color) -> (b: PassBuilder<'a>)
        requires
            self.wf(),
            id.0 < self.graph@.resources.len(),
        ensures
            b.wf(),
            b.id == self.id,
            b.graph@ == old(self.graph)@.with_pass(
                self.id,
                PassDecl {
                    writes: old(self.graph)@.pass(self.id).writes.push((id, Some(clear))),
                    ..old(self.graph)@.pass(self.id)
                },
            ),
            *final(b.graph) == *final(self.graph),
    {
        self.declare_write(id, Some(clear))
    }
}

} // verus!
