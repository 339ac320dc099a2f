//! The compiled frame layout: which pass uses which texture when, and which pool slot backs it.
use vstd::prelude::*;

use crate::declarations::{Color, PassId, ResourceId, TextureSpec};
#[allow(unused_imports)]
use crate::declarations::{enabled_ids, is_used, touches, PassDecl, ResourceDecl};

verus! {

/// Per-resource information in a layout.
#[derive(Debug)]
pub struct ResourceLayout {
    pub id: ResourceId,
    pub name: String,
    pub spec: TextureSpec,
    /// Backed by a caller-provided view; never pooled.
    pub external: bool,
    /// Index of the first pass that uses the resource; `usize::MAX` if unused.
    pub first_use: usize,
    /// Index of the last pass that uses the resource; `0` if unused.
    pub last_use: usize,
    /// Pool slot (`None`: unused by every enabled pass, or external).
    pub slot: Option<usize>,
}

/// Pool slot: resources of one [`TextureSpec`] whose lifetime windows do not overlap.
#[derive(Debug)]
pub struct PoolSlot {
    pub index: usize,
    pub spec: TextureSpec,
    /// Resources sharing the slot, in order of their windows.
    pub resources: Vec<ResourceId>,
    pub first_pass: usize,
    pub last_pass: usize,
}

/// A pass in the executable layout.
#[derive(Debug)]
pub struct PassLayout {
    pub id: PassId,
    pub name: String,
    /// Resources read by the pass.
    pub reads: Vec<ResourceId>,
    /// Resources written by the pass; `Some` carries a clear value.
    pub writes: Vec<(ResourceId, Option<Color>)>,
}

impl ResourceLayout {
    /// Whether the resource is alive at the pass with `pass_index`.
    pub fn alive_at(&self, pass_index: usize) -> (alive: bool)
        ensures
            alive == self.is_alive_at(pass_index as int),
    {
        self.first_use != usize::MAX && self.first_use <= pass_index && pass_index <= self.last_use
    }

    /// The window of the resource holds pass `i`.
    pub open spec fn is_alive_at(self, i: int) -> bool {
        self.first_use != usize::MAX && self.first_use <= i <= self.last_use
    }

    /// Some enabled pass uses the resource and the layout has to back it with a texture.
    pub open spec fn pooled(self) -> bool {
        self.first_use != usize::MAX && !self.external
    }
}

impl PassLayout {
    /// The declaration that the entry carries.
    pub open spec fn decl(self) -> PassDecl {
        PassDecl { name: self.name@, reads: self.reads@, writes: self.writes@, enabled: true }
    }
}

/// `rl` carries the lifetime window of its resource over the executing passes: the least and
/// the greatest index of a pass that touches it.
pub open spec fn window_ok(frame: Seq<PassDecl>, rl: ResourceLayout) -> bool {
    if is_used(frame, rl.id) {
        &&& rl.first_use <= rl.last_use < frame.len()
        &&& touches(frame[rl.first_use as int], rl.id)
        &&& touches(frame[rl.last_use as int], rl.id)
        &&& forall|i: int|
            0 <= i < frame.len() && #[trigger] touches(frame[i], rl.id) ==> rl.first_use <= i
                <= rl.last_use
    } else {
        rl.first_use == usize::MAX && rl.last_use == 0
    }
}

/// Order in which slots are handed out: by first use, then last use, then registration.
pub open spec fn before(a: ResourceLayout, b: ResourceLayout) -> bool {
    ||| a.first_use < b.first_use
    ||| a.first_use == b.first_use && a.last_use < b.last_use
    ||| a.first_use == b.first_use && a.last_use == b.last_use && a.id.0 < b.id.0
}

/// `b` may follow `a` in one slot.
pub open spec fn can_follow(a: ResourceLayout, b: ResourceLayout) -> bool {
    a.spec == b.spec && a.last_use < b.first_use
}

/// Every resource that slot `j` held before `r` was placed can be followed by `r`.
pub open spec fn slot_free_for(rs: Seq<ResourceLayout>, j: int, r: ResourceLayout) -> bool {
    forall|q: int|
        0 <= q < rs.len() && (#[trigger] rs[q]).pooled() && before(rs[q], r) && rs[q].slot
            is Some && rs[q].slot->0 == j ==> can_follow(rs[q], r)
}

/// First fit: resource `i` sits in the least slot that is free for it, and in none if it needs
/// no texture.
pub open spec fn slot_ok(rs: Seq<ResourceLayout>, i: int) -> bool {
    if rs[i].pooled() {
        &&& rs[i].slot is Some
        &&& slot_free_for(rs, rs[i].slot->0 as int, rs[i])
        &&& forall|j: int|
            0 <= j < rs[i].slot->0 ==> !#[trigger] slot_free_for(rs, j, rs[i])
    } else {
        rs[i].slot is None
    }
}

/// `slots[j]` lists the resources of slot `j` in the order of their windows, with their common
/// specification and the passes that the slot spans.
pub open spec fn pool_slot_ok(slots: Seq<PoolSlot>, rs: Seq<ResourceLayout>, j: int) -> bool {
    let s = slots[j];
    let members = s.resources@;
    &&& s.index == j
    &&& members.len() > 0
    &&& forall|k: int|
        0 <= k < members.len() ==> (#[trigger] members[k]).0 < rs.len()
            && rs[members[k].0 as int].slot == Some(j as usize)
    &&& forall|i: int|
        0 <= i < rs.len() && #[trigger] rs[i].slot == Some(j as usize) ==> members.contains(
            rs[i].id,
        )
    &&& forall|a: int, b: int|
        0 <= a < b < members.len() ==> before(
            rs[(#[trigger] members[a]).0 as int],
            rs[(#[trigger] members[b]).0 as int],
        )
    &&& s.spec == rs[members[0].0 as int].spec
    &&& s.first_pass == rs[members[0].0 as int].first_use
    &&& s.last_pass == rs[members.last().0 as int].last_use
}

/// Every resource carries its own position as its id.
pub open spec fn ids_ok(rs: Seq<ResourceLayout>) -> bool {
    forall|i: int| 0 <= i < rs.len() ==> (#[trigger] rs[i]).id.0 == i
}

/// Strictly ascending ids.
pub open spec fn ascending(ids: Seq<ResourceId>) -> bool {
    forall|a: int, b: int|
        0 <= a < b < ids.len() ==> (#[trigger] ids[a]).0 < (#[trigger] ids[b]).0
}

/// `alive` lists the resources whose windows hold pass `i`, in registration order.
pub open spec fn alive_ok(rs: Seq<ResourceLayout>, i: int, alive: Seq<ResourceId>) -> bool {
    &&& ascending(alive)
    &&& forall|k: int|
        0 <= k < alive.len() ==> (#[trigger] alive[k]).0 < rs.len()
            && rs[alive[k].0 as int].is_alive_at(i)
    &&& forall|r: int|
        0 <= r < rs.len() && (#[trigger] rs[r]).is_alive_at(i) ==> alive.contains(rs[r].id)
}

/// The passes of a layout carry the enabled declarations, with their registration ids.
pub open spec fn passes_ok(passes: Seq<PassDecl>, out: Seq<PassLayout>) -> bool {
    &&& out.len() == enabled_ids(passes).len()
    &&& forall|k: int|
        0 <= k < out.len() ==> (#[trigger] out[k]).id.0 == enabled_ids(passes)[k]
            && out[k].decl() == passes[enabled_ids(passes)[k]]
}

/// The declarations of a list of layout passes.
pub open spec fn frame_view(passes: Seq<PassLayout>) -> Seq<PassDecl> {
    passes.map_values(|p: PassLayout| p.decl())
}

/// The layout entry says of the resource what was declared.
pub open spec fn entry_ok(decl: ResourceDecl, rl: ResourceLayout) -> bool {
    rl.name@ == decl.name && rl.spec == decl.spec && rl.external == decl.external
}

/// The compiled frame layout.
#[derive(Debug)]
pub struct GraphLayout {
    /// Surface size that `SizePolicy` values are resolved against.
    pub surface_size: (u32, u32),
    /// Passes in execution order (insertion order, disabled passes dropped).
    pub passes: Vec<PassLayout>,
    /// Resources, in registration order.
    pub resources: Vec<ResourceLayout>,
    /// Pool slots.
    pub slots: Vec<PoolSlot>,
    /// Live resources per pass (by index into `passes`).
    pub pass_alive: Vec<Vec<ResourceId>>,
    /// Explicit ordering edges between registered passes.
    pub ordering: Vec<(PassId, PassId)>,
}

impl GraphLayout {
    /// The executing passes as declared.
    pub open spec fn frame(self) -> Seq<PassDecl> {
        frame_view(self.passes@)
    }

    /// What every layout keeps, whatever it was compiled from: ids, windows, slots and live
    /// lists agree with the passes.
    pub open spec fn wf(self) -> bool {
        let rs = self.resources@;
        &&& ids_ok(rs)
        &&& forall|i: int, r: ResourceId|
            0 <= i < self.passes@.len() && #[trigger] touches(self.passes@[i].decl(), r) ==> r.0
                < rs.len()
        &&& forall|i: int| 0 <= i < rs.len() ==> window_ok(self.frame(), #[trigger] rs[i])
        &&& forall|i: int| 0 <= i < rs.len() ==> #[trigger] slot_ok(rs, i)
        &&& forall|i: int|
            0 <= i < rs.len() && (#[trigger] rs[i]).slot is Some ==> rs[i].slot->0
                < self.slots@.len()
        &&& forall|j: int|
            0 <= j < self.slots@.len() ==> #[trigger] pool_slot_ok(self.slots@, rs, j)
        &&& self.pass_alive@.len() == self.passes@.len()
        &&& forall|i: int|
            0 <= i < self.pass_alive@.len() ==> alive_ok(rs, i, (#[trigger] self.pass_alive@[i])@)
    }

    /// The layout is the one of these declarations.
    pub open spec fn describes(
        self,
        resources: Seq<ResourceDecl>,
        passes: Seq<PassDecl>,
        ordering: Seq<(PassId, PassId)>,
        surface_size: (u32, u32),
    ) -> bool {
        &&& self.wf()
        &&& self.surface_size == surface_size
        &&& self.ordering@ == ordering
        &&& passes_ok(passes, self.passes@)
        &&& self.resources@.len() == resources.len()
        &&& forall|i: int|
            0 <= i < resources.len() ==> entry_ok(resources[i], #[trigger] self.resources@[i])
    }
}

} // verus!
