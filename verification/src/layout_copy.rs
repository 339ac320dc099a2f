//! Owned snapshots of layouts.
use vstd::prelude::*;

use crate::compile::{copy_edges, copy_ids, copy_writes};
use crate::declarations::ResourceId;
#[allow(unused_imports)]
use crate::declarations::{touches, PassDecl, PassId, ResourceDecl};
use crate::layout::{GraphLayout, PassLayout, PoolSlot, ResourceLayout};
#[allow(unused_imports)]
use crate::layout::{alive_ok, passes_ok, pool_slot_ok};
#[allow(unused_imports)]
use crate::layout_laws::same_layout;

verus! {

fn copy_passes(passes: &Vec<PassLayout>) -> (out: Vec<PassLayout>)
    ensures
        out@.len() == passes@.len(),
        forall|i: int|
            #![trigger out@[i]]
            #![trigger passes@[i]]
            0 <= i < out@.len() ==> out@[i].id == passes@[i].id && out@[i].decl()
                == passes@[i].decl(),
{
    let mut out: Vec<PassLayout> = Vec::new();
    for i in 0..passes.len()
        invariant
            out@.len() == i,
            forall|k: int|
                #![trigger out@[k]]
                #![trigger passes@[k]]
                0 <= k < i ==> out@[k].id == passes@[k].id && out@[k].decl() == passes@[k].decl(),
    {
        let p = &passes[i];
        let copy = PassLayout {
            id: p.id,
            name: p.name.clone(),
            reads: copy_ids(&p.reads),
            writes: copy_writes(&p.writes),
        };
        assert(copy.decl() =~= p.decl());
        out.push(copy);
    }
    out
}

fn copy_resources(resources: &Vec<ResourceLayout>) -> (out: Vec<ResourceLayout>)
    ensures
        out@ == resources@,
{
    let mut out: Vec<ResourceLayout> = Vec::new();
    for i in 0..resources.len()
        invariant
            out@ == resources@.subrange(0, i as int),
    {
        let r = &resources[i];
        out.push(
            ResourceLayout {
                id: r.id,
                name: r.name.clone(),
                spec: r.spec,
                external: r.external,
                first_use: r.first_use,
                last_use: r.last_use,
                slot: r.slot,
            },
        );
        assert(resources@.subrange(0, i + 1) == resources@.subrange(0, i as int).push(
            resources@[i as int],
        ));
    }
    assert(resources@.subrange(0, resources@.len() as int) == resources@);
    out
}

fn copy_slots(slots: &Vec<PoolSlot>) -> (out: Vec<PoolSlot>)
    ensures
        out@.len() == slots@.len(),
        forall|j: int|
            #![trigger out@[j]]
            #![trigger slots@[j]]
            0 <= j < out@.len() ==> {
                &&& out@[j].index == slots@[j].index
                &&& out@[j].spec == slots@[j].spec
                &&& out@[j].resources@ == slots@[j].resources@
                &&& out@[j].first_pass == slots@[j].first_pass
                &&& out@[j].last_pass == slots@[j].last_pass
            },
{
    let mut out: Vec<PoolSlot> = Vec::new();
    for i in 0..slots.len()
        invariant
            out@.len() == i,
            forall|j: int|
                #![trigger out@[j]]
                #![trigger slots@[j]]
                0 <= j < i ==> {
                    &&& out@[j].index == slots@[j].index
                    &&& out@[j].spec == slots@[j].spec
                    &&& out@[j].resources@ == slots@[j].resources@
                    &&& out@[j].first_pass == slots@[j].first_pass
                    &&& out@[j].last_pass == slots@[j].last_pass
                },
    {
        let s = &slots[i];
        out.push(
            PoolSlot {
                index: s.index,
                spec: s.spec,
                resources: copy_ids(&s.resources),
                first_pass: s.first_pass,
                last_pass: s.last_pass,
            },
        );
    }
    out
}

fn copy_lists(lists: &Vec<Vec<ResourceId>>) -> (out: Vec<Vec<ResourceId>>)
    ensures
        out@.len() == lists@.len(),
        forall|i: int|
            #![trigger out@[i]]
            #![trigger lists@[i]]
            0 <= i < out@.len() ==> out@[i]@ == lists@[i]@,
{
    let mut out: Vec<Vec<ResourceId>> = Vec::new();
    for i in 0..lists.len()
        invariant
            out@.len() == i,
            forall|k: int|
                #![trigger out@[k]]
                #![trigger lists@[k]]
                0 <= k < i ==> out@[k]@ == lists@[k]@,
    {
        out.push(copy_ids(&lists[i]));
    }
    out
}

/// A layout with the same values describes the same declarations.
proof fn lemma_copy_keeps(x: GraphLayout, y: GraphLayout)
    requires
        same_layout(x, y),
        x.resources@ == y.resources@,
    ensures
        x.wf() ==> y.wf(),
        forall|rs: Seq<ResourceDecl>, ps: Seq<PassDecl>, o: Seq<(PassId, PassId)>, s: (u32, u32)| #[trigger]
            x.describes(rs, ps, o, s) ==> y.describes(rs, ps, o, s),
{
    assert(x.frame() =~= y.frame()) by {
        assert forall|k: int| 0 <= k < x.passes@.len() implies x.frame()[k] == y.frame()[k] by {
            assert(x.passes@[k].decl() == y.passes@[k].decl());
        }
    }
    if x.wf() {
        let rs = x.resources@;
        assert forall|i: int, r: ResourceId| 0 <= i < y.passes@.len() && #[trigger] touches(
            y.passes@[i].decl(),
            r,
        ) implies r.0 < rs.len() by {
            assert(x.passes@[i].decl() == y.passes@[i].decl());
            assert(touches(x.passes@[i].decl(), r));
        }
        assert forall|j: int| 0 <= j < y.slots@.len() implies #[trigger] pool_slot_ok(
            y.slots@,
            rs,
            j,
        ) by {
            assert(pool_slot_ok(x.slots@, rs, j));
            assert(x.slots@[j].resources@ == y.slots@[j].resources@);
        }
        assert forall|i: int| 0 <= i < y.pass_alive@.len() implies alive_ok(
            rs,
            i,
            (#[trigger] y.pass_alive@[i])@,
        ) by {
            assert(alive_ok(rs, i, x.pass_alive@[i]@));
        }
        assert(y.wf());
    }
    assert forall|rs: Seq<ResourceDecl>, ps: Seq<PassDecl>, o: Seq<(PassId, PassId)>, s: (
        u32,
        u32,
    )| #[trigger] x.describes(rs, ps, o, s) implies y.describes(rs, ps, o, s) by {
        assert forall|k: int| 0 <= k < y.passes@.len() implies (#[trigger] y.passes@[k]).id.0
            == crate::declarations::enabled_ids(ps)[k] && y.passes@[k].decl()
            == ps[crate::declarations::enabled_ids(ps)[k]] by {
            assert(x.passes@[k].decl() == y.passes@[k].decl());
            assert(x.passes@[k].id == y.passes@[k].id);
        }
        assert(passes_ok(ps, y.passes@));
    }
}

impl Clone for GraphLayout {
    /// An owned copy with the same values.
    fn clone(&self) -> (copy: GraphLayout)
        ensures
            same_layout(*self, copy),
            self.wf() ==> copy.wf(),
            forall|
                rs: Seq<ResourceDecl>,
                ps: Seq<PassDecl>,
                o: Seq<(PassId, PassId)>,
                s: (u32, u32),
            | #[trigger]
                self.describes(rs, ps, o, s) ==> copy.describes(rs, ps, o, s),
    {
        let copy = GraphLayout {
            surface_size: self.surface_size,
            passes: copy_passes(&self.passes),
            resources: copy_resources(&self.resources),
            slots: copy_slots(&self.slots),
            pass_alive: copy_lists(&self.pass_alive),
            ordering: copy_edges(&self.ordering),
        };
        proof {
            lemma_copy_keeps(*self, copy);
        }
        copy
    }
}

} // verus!
