//! Compiling declarations into a layout: lifetimes, first-fit slots, live lists.
use vstd::prelude::*;

use crate::declarations::{Color, PassId, PassNode, ResourceId, ResourceNode};
#[allow(unused_imports)]
use crate::declarations::{
    enabled_ids, first_touch_ok, frame_of, ids_in_range, is_used, lemma_enabled_ids, pass_decls,
    reads_of, reads_unwritten, resource_decls, touches, writes_of, PassDecl, ResourceDecl,
};
#[allow(unused_imports)]
use crate::layout::{
    alive_ok, ascending, before, can_follow, entry_ok, frame_view, ids_ok, passes_ok,
    pool_slot_ok, slot_free_for, slot_ok, window_ok,
};
use crate::layout::{GraphLayout, PassLayout, PoolSlot, ResourceLayout};
use crate::text::push_decimal;
#[allow(unused_imports)]
use crate::text::decimal;
#[allow(unused_imports)]
use vstd::string::*;

verus! {

/// A copy of a list of handles.
pub(crate) fn copy_ids(ids: &Vec<ResourceId>) -> (out: Vec<ResourceId>)
    ensures
        out@ == ids@,
{
    let mut out: Vec<ResourceId> = Vec::new();
    for i in 0..ids.len()
        invariant
            out@ == ids@.subrange(0, i as int),
    {
        out.push(ids[i]);
        assert(ids@.subrange(0, i + 1) == ids@.subrange(0, i as int).push(ids@[i as int]));
    }
    assert(ids@.subrange(0, ids@.len() as int) == ids@);
    out
}

/// A copy of a list of writes.
pub(crate) fn copy_writes(writes: &Vec<(ResourceId, Option<Color>)>) -> (out: Vec<
    (ResourceId, Option<Color>),
>)
    ensures
        out@ == writes@,
{
    let mut out: Vec<(ResourceId, Option<Color>)> = Vec::new();
    for i in 0..writes.len()
        invariant
            out@ == writes@.subrange(0, i as int),
    {
        out.push(writes[i]);
        assert(writes@.subrange(0, i + 1) == writes@.subrange(0, i as int).push(
            writes@[i as int],
        ));
    }
    assert(writes@.subrange(0, writes@.len() as int) == writes@);
    out
}

/// The enabled passes in registration order.
pub(crate) fn enabled_passes(passes: &Vec<PassNode>) -> (out: Vec<PassLayout>)
    requires
        passes@.len() <= u32::MAX + 1,
    ensures
        passes_ok(pass_decls(passes@), out@),
{
    let mut out: Vec<PassLayout> = Vec::new();
    let ghost decls = pass_decls(passes@);
    assert(decls.subrange(0, 0) == Seq::<PassDecl>::empty());
    for i in 0..passes.len()
        invariant
            decls == pass_decls(passes@),
            passes@.len() <= u32::MAX + 1,
            passes_ok(decls.subrange(0, i as int), out@),
    {
        let ghost done = decls.subrange(0, i as int);
        let ghost next = decls.subrange(0, i + 1);
        assert(next.drop_last() == done);
        assert(next.last() == passes@[i as int]@);
        proof {
            lemma_enabled_ids(done);
        }
        if passes[i].enabled {
            let ghost old_out = out@;
            out.push(
                PassLayout {
                    id: PassId(i as u32),
                    name: passes[i].name.clone(),
                    reads: copy_ids(&passes[i].reads),
                    writes: copy_writes(&passes[i].writes),
                },
            );
            assert(out@.last().decl() == next.last());
            assert forall|k: int| 0 <= k < out@.len() implies (#[trigger] out@[k]).id.0
                == enabled_ids(next)[k] && out@[k].decl() == next[enabled_ids(next)[k]] by {
                if k < old_out.len() {
                    assert(out@[k] == old_out[k]);
                }
            }
        } else {
            assert forall|k: int| 0 <= k < out@.len() implies (#[trigger] out@[k]).id.0
                == enabled_ids(next)[k] && out@[k].decl() == next[enabled_ids(next)[k]] by {
                assert(enabled_ids(next) == enabled_ids(done));
            }
        }
    }
    assert(decls.subrange(0, decls.len() as int) == decls);
    out
}

/// Whether the pass declares a read of `r`.
pub(crate) fn pass_reads(pass: &PassLayout, r: ResourceId) -> (yes: bool)
    ensures
        yes == reads_of(pass.decl(), r),
{
    for i in 0..pass.reads.len()
        invariant
            forall|k: int| 0 <= k < i ==> pass.reads@[k] != r,
    {
        if pass.reads[i] == r {
            assert(pass.reads@[i as int] == r);
            return true;
        }
    }
    false
}

/// Whether the pass declares a write of `r`.
pub(crate) fn pass_writes(pass: &PassLayout, r: ResourceId) -> (yes: bool)
    ensures
        yes == writes_of(pass.decl(), r),
{
    for i in 0..pass.writes.len()
        invariant
            forall|k: int| 0 <= k < i ==> (#[trigger] pass.writes@[k]).0 != r,
    {
        if pass.writes[i].0 == r {
            assert(pass.decl().writes[i as int].0 == r);
            return true;
        }
    }
    false
}

/// Lifetime window of one resource: the first and the last pass that touches it, or
/// `(usize::MAX, 0)`.
fn window_of(passes: &Vec<PassLayout>, r: ResourceId) -> (w: (usize, usize))
    ensures
        forall|rl: ResourceLayout|
            rl.id == r && rl.first_use == w.0 && rl.last_use == w.1 ==> #[trigger] window_ok(
                frame_view(passes@),
                rl,
            ),
{
    let ghost frame = frame_view(passes@);
    let mut first: usize = usize::MAX;
    let mut last: usize = 0;
    for pi in 0..passes.len()
        invariant
            frame == frame_view(passes@),
            first == usize::MAX ==> last == 0 && forall|i: int|
                0 <= i < pi ==> !#[trigger] touches(frame[i], r),
            first != usize::MAX ==> {
                &&& first <= last < pi
                &&& touches(frame[first as int], r)
                &&& touches(frame[last as int], r)
                &&& forall|i: int|
                    0 <= i < pi && #[trigger] touches(frame[i], r) ==> first <= i <= last
            },
    {
        assert(frame[pi as int] == passes@[pi as int].decl());
        if pass_reads(&passes[pi], r) || pass_writes(&passes[pi], r) {
            assert(touches(frame[pi as int], r));
            if first == usize::MAX {
                first = pi;
            }
            last = pi;
        }
    }
    assert(first != usize::MAX ==> is_used(frame, r));
    (first, last)
}

/// One entry per resource with its window, no slot handed out yet.
pub(crate) fn resource_windows(resources: &Vec<ResourceNode>, passes: &Vec<PassLayout>) -> (rs: Vec<
    ResourceLayout,
>)
    requires
        resources@.len() <= u32::MAX + 1,
    ensures
        rs@.len() == resources@.len(),
        ids_ok(rs@),
        forall|i: int|
            #![trigger rs@[i]]
            0 <= i < rs@.len() ==> entry_ok(resources@[i]@, rs@[i]) && window_ok(
                frame_view(passes@),
                rs@[i],
            ) && rs@[i].slot is None,
{
    let mut rs: Vec<ResourceLayout> = Vec::new();
    for i in 0..resources.len()
        invariant
            resources@.len() <= u32::MAX + 1,
            rs@.len() == i,
            forall|k: int|
                #![trigger rs@[k]]
                0 <= k < i ==> rs@[k].id.0 == k && entry_ok(resources@[k]@, rs@[k]) && window_ok(
                    frame_view(passes@),
                    rs@[k],
                ) && rs@[k].slot is None,
    {
        let id: ResourceId = ResourceId(i as u32);
        let (first_use, last_use) = window_of(passes, id);
        let rl = ResourceLayout {
            id,
            name: resources[i].name.clone(),
            spec: resources[i].spec,
            external: resources[i].external,
            first_use,
            last_use,
            slot: None,
        };
        assert(window_ok(frame_view(passes@), rl));
        rs.push(rl);
    }
    rs
}

/// Whether `a` is handed a slot before `b`.
fn comes_before(a: &ResourceLayout, b: &ResourceLayout) -> (yes: bool)
    ensures
        yes == before(*a, *b),
{
    a.first_use < b.first_use || (a.first_use == b.first_use && (a.last_use < b.last_use || (
    a.last_use == b.last_use && a.id.0 < b.id.0)))
}

/// `order` lists the positions of the pooled entries in the order in which slots are handed out.
pub open spec fn order_ok(rs: Seq<ResourceLayout>, order: Seq<usize>) -> bool {
    &&& forall|a: int|
        0 <= a < order.len() ==> (#[trigger] order[a]) < rs.len() && rs[order[a] as int].pooled()
    &&& forall|a: int, b: int|
        0 <= a < b < order.len() ==> before(
            rs[(#[trigger] order[a]) as int],
            rs[(#[trigger] order[b]) as int],
        )
    &&& forall|i: int|
        0 <= i < rs.len() && (#[trigger] rs[i]).pooled() ==> order.contains(i as usize)
}

/// The pooled entries, sorted.
fn slot_order(rs: &Vec<ResourceLayout>) -> (order: Vec<usize>)
    requires
        ids_ok(rs@),
    ensures
        order_ok(rs@, order@),
{
    let mut order: Vec<usize> = Vec::new();
    for i in 0..rs.len()
        invariant
            ids_ok(rs@),
            forall|a: int|
                0 <= a < order@.len() ==> (#[trigger] order@[a]) < i
                    && rs@[order@[a] as int].pooled(),
            forall|a: int, b: int|
                0 <= a < b < order@.len() ==> before(
                    rs@[(#[trigger] order@[a]) as int],
                    rs@[(#[trigger] order@[b]) as int],
                ),
            forall|k: int|
                0 <= k < i && (#[trigger] rs@[k]).pooled() ==> order@.contains(k as usize),
    {
        if rs[i].first_use != usize::MAX && !rs[i].external {
            let ghost old_order = order@;
            let mut pos: usize = 0;
            while pos < order.len() && comes_before(&rs[order[pos]], &rs[i])
                invariant
                    ids_ok(rs@),
                    i < rs@.len(),
                    pos <= order@.len(),
                    forall|a: int|
                        0 <= a < order@.len() ==> (#[trigger] order@[a]) < i
                            && rs@[order@[a] as int].pooled(),
                    forall|a: int|
                        0 <= a < pos ==> before(rs@[(#[trigger] order@[a]) as int], rs@[i as int]),
                decreases order@.len() - pos,
            {
                pos = pos + 1;
            }
            order.insert(pos, i);
            assert forall|k: int| 0 <= k < i + 1 && (
            #[trigger] rs@[k]).pooled() implies order@.contains(k as usize) by {
                if k < i {
                    let a = choose|a: int| 0 <= a < old_order.len() && old_order[a] == k as usize;
                    if a < pos {
                        assert(order@[a] == k as usize);
                    } else {
                        assert(order@[a + 1] == k as usize);
                    }
                } else {
                    assert(order@[pos as int] == k as usize);
                }
            }
            assert forall|a: int, b: int| 0 <= a < b < order@.len() implies before(
                rs@[(#[trigger] order@[a]) as int],
                rs@[(#[trigger] order@[b]) as int],
            ) by {
                let x = if a < pos {
                    old_order[a]
                } else {
                    old_order[a - 1]
                };
                let y = if b < pos {
                    old_order[b]
                } else {
                    old_order[b - 1]
                };
                if a == pos {
                    assert(order@[b] == y);
                    if b > pos + 1 {
                        assert(before(
                            rs@[old_order[pos as int] as int],
                            rs@[old_order[b - 1] as int],
                        ));
                    }
                } else if b == pos {
                    assert(order@[a] == x);
                } else {
                    assert(order@[a] == x && order@[b] == y);
                }
            }
        }
    }
    order
}

/// No window ends before it begins.
pub open spec fn spans_ok(rs: Seq<ResourceLayout>) -> bool {
    forall|i: int|
        0 <= i < rs.len() && (#[trigger] rs[i]).pooled() ==> rs[i].first_use <= rs[i].last_use
}

/// `b` is `a` with another slot.
pub open spec fn same_but_slot(a: ResourceLayout, b: ResourceLayout) -> bool {
    &&& a.id == b.id
    &&& a.name@ == b.name@
    &&& a.spec == b.spec
    &&& a.external == b.external
    &&& a.first_use == b.first_use
    &&& a.last_use == b.last_use
}

/// Placing entry `idx` changes nothing for an entry that comes no later than it.
proof fn lemma_free_stable(
    rs: Seq<ResourceLayout>,
    rs2: Seq<ResourceLayout>,
    idx: int,
    j: int,
    r: ResourceLayout,
    r2: ResourceLayout,
)
    requires
        0 <= idx < rs.len(),
        rs2.len() == rs.len(),
        forall|i: int| 0 <= i < rs.len() && i != idx ==> rs[i] == #[trigger] rs2[i],
        same_but_slot(rs[idx], rs2[idx]),
        same_but_slot(r, r2),
        rs[idx].slot is None,
        !before(rs[idx], r),
    ensures
        slot_free_for(rs, j, r) == slot_free_for(rs2, j, r2),
{
    if slot_free_for(rs, j, r) {
        assert forall|q: int|
            0 <= q < rs2.len() && (#[trigger] rs2[q]).pooled() && before(rs2[q], r2)
                && rs2[q].slot is Some && rs2[q].slot->0 == j implies can_follow(rs2[q], r2) by {
            if q != idx {
                assert(rs[q] == rs2[q]);
            }
        }
    }
    if slot_free_for(rs2, j, r2) {
        assert forall|q: int|
            0 <= q < rs.len() && (#[trigger] rs[q]).pooled() && before(rs[q], r) && rs[q].slot
                is Some && rs[q].slot->0 == j implies can_follow(rs[q], r) by {
            if q != idx {
                assert(rs[q] == rs2[q]);
            }
        }
    }
}

/// What holds after the first `k` entries of `order` have been placed.
spec fn placed(
    rs0: Seq<ResourceLayout>,
    rs: Seq<ResourceLayout>,
    order: Seq<usize>,
    k: int,
    slots: Seq<PoolSlot>,
) -> bool {
    &&& rs.len() == rs0.len()
    &&& forall|i: int| 0 <= i < rs.len() ==> same_but_slot(rs0[i], #[trigger] rs[i])
    &&& forall|a: int|
        0 <= a < k ==> rs[(#[trigger] order[a]) as int].slot is Some
            && rs[order[a] as int].slot->0 < slots.len() && slot_ok(rs, order[a] as int)
    &&& forall|a: int| k <= a < order.len() ==> rs[(#[trigger] order[a]) as int].slot is None
    &&& forall|i: int|
        0 <= i < rs.len() && !rs[i].pooled() ==> (#[trigger] rs[i]).slot is None
    &&& forall|j: int| 0 <= j < slots.len() ==> #[trigger] pool_slot_ok(slots, rs, j)
    &&& forall|i: int|
        0 <= i < rs.len() && (#[trigger] rs[i]).slot is Some ==> {
            let s = slots[rs[i].slot->0 as int];
            rs[i].slot->0 < slots.len() && rs[i].spec == s.spec && rs[i].last_use <= s.last_pass
        }
}

/// A slot takes the next entry exactly if it is free for it.
proof fn lemma_slot_accepts(
    rs0: Seq<ResourceLayout>,
    rs: Seq<ResourceLayout>,
    order: Seq<usize>,
    k: int,
    slots: Seq<PoolSlot>,
    j: int,
)
    requires
        ids_ok(rs0),
        order_ok(rs0, order),
        placed(rs0, rs, order, k, slots),
        0 <= k < order.len(),
        0 <= j < slots.len(),
    ensures
        slot_free_for(rs, j, rs[order[k] as int]) <==> slots[j].spec == rs[order[k] as int].spec
            && slots[j].last_pass < rs[order[k] as int].first_use,
{
    let r = rs[order[k] as int];
    let s = slots[j];
    assert(pool_slot_ok(slots, rs, j));
    assert(same_but_slot(rs0[order[k] as int], r));
    if slot_free_for(rs, j, r) {
        let m = s.resources@.last();
        assert(m == s.resources@[s.resources@.len() - 1]);
        let q = m.0 as int;
        let l = rs[q];
        assert(l.slot == Some(j as usize));
        assert(same_but_slot(rs0[q], l));
        assert(rs0[q].pooled());
        let a = choose|a: int| 0 <= a < order.len() && order[a] == q as usize;
        assert(a < k);
        assert(before(rs0[order[a] as int], rs0[order[k] as int]));
        assert(can_follow(l, r));
    }
    if s.spec == r.spec && s.last_pass < r.first_use {
        assert forall|q: int|
            0 <= q < rs.len() && (#[trigger] rs[q]).pooled() && before(rs[q], r) && rs[q].slot
                is Some && rs[q].slot->0 == j implies can_follow(rs[q], r) by {}
    }
}

/// Placing entry `k` in slot `j` keeps everything that was placed before.
proof fn lemma_place(
    rs0: Seq<ResourceLayout>,
    rs: Seq<ResourceLayout>,
    rs2: Seq<ResourceLayout>,
    order: Seq<usize>,
    k: int,
    slots: Seq<PoolSlot>,
    slots2: Seq<PoolSlot>,
    j: int,
)
    requires
        ids_ok(rs0),
        spans_ok(rs0),
        order_ok(rs0, order),
        placed(rs0, rs, order, k, slots),
        0 <= k < order.len(),
        0 <= j <= slots.len() <= usize::MAX,
        j <= usize::MAX,
        forall|c: int|
            0 <= c < j ==> !#[trigger] slot_free_for(rs, c, rs[order[k] as int]),
        slot_free_for(rs, j, rs[order[k] as int]),
        rs2.len() == rs.len(),
        forall|i: int|
            0 <= i < rs.len() && i != order[k] ==> rs[i] == #[trigger] rs2[i],
        same_but_slot(rs[order[k] as int], rs2[order[k] as int]),
        rs2[order[k] as int].slot == Some(j as usize),
        slots2.len() == if j < slots.len() { slots.len() } else { slots.len() + 1 },
        forall|c: int| 0 <= c < slots.len() && c != j ==> slots[c] == #[trigger] slots2[c],
        slots2[j].index == j,
        slots2[j].spec == rs[order[k] as int].spec,
        slots2[j].last_pass == rs[order[k] as int].last_use,
        j < slots.len() ==> slots2[j].resources@ == slots[j].resources@.push(
            rs[order[k] as int].id,
        ) && slots2[j].first_pass == slots[j].first_pass && slots2[j].spec == slots[j].spec,
        j == slots.len() ==> slots2[j].resources@ == seq![rs[order[k] as int].id]
            && slots2[j].first_pass == rs[order[k] as int].first_use,
    ensures
        placed(rs0, rs2, order, k + 1, slots2),
{
    let idx = order[k] as int;
    let r = rs[idx];
    let r2 = rs2[idx];
    assert(same_but_slot(rs0[idx], r));
    assert(rs[order[k] as int].slot is None);
    assert forall|i: int| 0 <= i < rs2.len() implies same_but_slot(rs0[i], #[trigger] rs2[i]) by {
        assert(same_but_slot(rs0[i], rs[i]));
    }
    assert forall|a: int| 0 <= a < k + 1 implies rs2[(#[trigger] order[a]) as int].slot is Some
        && rs2[order[a] as int].slot->0 < slots2.len() && slot_ok(rs2, order[a] as int) by {
        let e = rs[order[a] as int];
        let e2 = rs2[order[a] as int];
        assert(same_but_slot(rs0[order[a] as int], e));
        assert(same_but_slot(e, e2));
        if a < k {
            assert(before(rs0[order[a] as int], rs0[order[k] as int]));
            assert(order[a] != order[k]);
        }
        let t = e2.slot->0 as int;
        lemma_free_stable(rs, rs2, idx, t, e, e2);
        assert forall|c: int| 0 <= c < t implies !#[trigger] slot_free_for(rs2, c, e2) by {
            lemma_free_stable(rs, rs2, idx, c, e, e2);
            assert(!slot_free_for(rs, c, e));
        }
    }
    assert forall|a: int| k + 1 <= a < order.len() implies rs2[(#[trigger] order[a]) as int].slot
        is None by {
        assert(before(rs0[order[k] as int], rs0[order[a] as int]));
        assert(order[a] != order[k]);
        assert(rs[order[a] as int].slot is None);
    }
    assert forall|i: int| 0 <= i < rs2.len() && !rs2[i].pooled() implies (#[trigger] rs2[i]).slot
        is None by {
        assert(rs0[idx].pooled());
        if i != idx {
            assert(rs[i] == rs2[i]);
        }
    }
    assert forall|c: int| 0 <= c < slots2.len() implies #[trigger] pool_slot_ok(slots2, rs2, c) by {
        if c != j {
            assert(pool_slot_ok(slots, rs, c));
            let members = slots[c].resources@;
            assert(slots2[c] == slots[c]);
            assert(!members.contains(r.id));
            assert forall|m: int| 0 <= m < members.len() implies (#[trigger] members[m]).0
                < rs2.len() && rs2[members[m].0 as int].slot == Some(c as usize) by {
                assert(members[m].0 != idx);
            }
            assert forall|i: int| 0 <= i < rs2.len() && #[trigger] rs2[i].slot == Some(
                c as usize,
            ) implies members.contains(rs2[i].id) by {
                assert(i != idx);
                assert(rs[i] == rs2[i]);
            }
            assert forall|a: int, b: int| 0 <= a < b < members.len() implies before(
                rs2[(#[trigger] members[a]).0 as int],
                rs2[(#[trigger] members[b]).0 as int],
            ) by {
                assert(members[a].0 != idx && members[b].0 != idx);
            }
            assert(members[0].0 != idx);
            assert(members.last() == members[members.len() - 1]);
        } else {
            let members = slots2[j].resources@;
            assert(rs2[idx].id.0 == idx);
            if j < slots.len() {
                assert(pool_slot_ok(slots, rs, j));
                let earlier = slots[j].resources@;
                assert forall|m: int| 0 <= m < members.len() implies (#[trigger] members[m]).0
                    < rs2.len() && rs2[members[m].0 as int].slot == Some(j as usize) by {
                    if m < earlier.len() {
                        assert(members[m] == earlier[m]);
                        assert(rs[earlier[m].0 as int].slot == Some(j as usize));
                    }
                }
                assert forall|i: int| 0 <= i < rs2.len() && #[trigger] rs2[i].slot == Some(
                    j as usize,
                ) implies members.contains(rs2[i].id) by {
                    if i != idx {
                        assert(rs[i] == rs2[i]);
                        let m = choose|m: int| 0 <= m < earlier.len() && earlier[m] == rs[i].id;
                        assert(members[m] == rs2[i].id);
                    } else {
                        assert(members[members.len() - 1] == rs2[i].id);
                    }
                }
                assert forall|a: int, b: int| 0 <= a < b < members.len() implies before(
                    rs2[(#[trigger] members[a]).0 as int],
                    rs2[(#[trigger] members[b]).0 as int],
                ) by {
                    assert(members[a] == earlier[a]);
                    let qa = earlier[a].0 as int;
                    assert(rs[qa].slot == Some(j as usize));
                    assert(qa != idx);
                    if b < earlier.len() {
                        assert(members[b] == earlier[b]);
                        assert(rs[earlier[b].0 as int].slot == Some(j as usize));
                        assert(earlier[b].0 != idx);
                    } else {
                        assert(same_but_slot(rs0[qa], rs[qa]));
                        assert(rs0[qa].pooled());
                        let x = choose|x: int| 0 <= x < order.len() && order[x] == qa as usize;
                        assert(x < k);
                        assert(before(rs0[order[x] as int], rs0[order[k] as int]));
                    }
                }
                assert(members[0] == earlier[0]);
                assert(rs[earlier[0].0 as int].slot == Some(j as usize));
                assert(members.last() == r.id);
            } else {
                assert(members[0] == r.id);
                assert forall|i: int| 0 <= i < rs2.len() && #[trigger] rs2[i].slot == Some(
                    j as usize,
                ) implies members.contains(rs2[i].id) by {
                    if i != idx {
                        assert(rs[i] == rs2[i]);
                        assert(rs[i].slot->0 < slots.len());
                    }
                }
            }
        }
    }
    assert forall|i: int| 0 <= i < rs2.len() && (#[trigger] rs2[i]).slot is Some implies {
        let s = slots2[rs2[i].slot->0 as int];
        rs2[i].slot->0 < slots2.len() && rs2[i].spec == s.spec && rs2[i].last_use <= s.last_pass
    } by {
        if i != idx {
            assert(rs[i] == rs2[i]);
            let c = rs[i].slot->0 as int;
            if c == j {
                assert(same_but_slot(rs0[i], rs[i]));
                assert(rs0[i].pooled());
                let x = choose|x: int| 0 <= x < order.len() && order[x] == i as usize;
                assert(x < k);
                assert(before(rs0[order[x] as int], rs0[order[k] as int]));
                assert(can_follow(rs[i], r));
            }
        }
    }
}

/// Greedy first fit: every pooled entry gets the least slot that is free for it.
pub(crate) fn assign_slots(rs: &mut Vec<ResourceLayout>) -> (slots: Vec<PoolSlot>)
    requires
        ids_ok(old(rs)@),
        spans_ok(old(rs)@),
        forall|i: int| 0 <= i < old(rs)@.len() ==> (#[trigger] old(rs)@[i]).slot is None,
    ensures
        final(rs)@.len() == old(rs)@.len(),
        forall|i: int|
            0 <= i < old(rs)@.len() ==> same_but_slot(old(rs)@[i], #[trigger] final(rs)@[i]),
        forall|i: int| 0 <= i < final(rs)@.len() ==> #[trigger] slot_ok(final(rs)@, i),
        forall|j: int| 0 <= j < slots@.len() ==> #[trigger] pool_slot_ok(slots@, final(rs)@, j),
        forall|i: int|
            0 <= i < final(rs)@.len() && (#[trigger] final(rs)@[i]).slot is Some
                ==> final(rs)@[i].slot->0 < slots@.len(),
{
    let ghost rs0 = rs@;
    let order = slot_order(rs);
    let mut slots: Vec<PoolSlot> = Vec::new();
    for k in 0..order.len()
        invariant
            ids_ok(rs0),
            spans_ok(rs0),
            order_ok(rs0, order@),
            placed(rs0, rs@, order@, k as int, slots@),
    {
        let idx: usize = order[k];
        assert(same_but_slot(rs0[idx as int], rs@[idx as int]));
        let mut j: usize = 0;
        while j < slots.len() && !(slots[j].spec == rs[idx].spec && slots[j].last_pass
            < rs[idx].first_use)
            invariant
                ids_ok(rs0),
                order_ok(rs0, order@),
                placed(rs0, rs@, order@, k as int, slots@),
                k < order@.len(),
                idx == order@[k as int],
                idx < rs@.len(),
                j <= slots@.len(),
                forall|c: int|
                    0 <= c < j ==> !#[trigger] slot_free_for(rs@, c, rs@[idx as int]),
            decreases slots@.len() - j,
        {
            proof {
                lemma_slot_accepts(rs0, rs@, order@, k as int, slots@, j as int);
            }
            j = j + 1;
        }
        let ghost rs1 = rs@;
        let ghost slots1 = slots@;
        let id: ResourceId = rs[idx].id;
        let first_use: usize = rs[idx].first_use;
        let last_use: usize = rs[idx].last_use;
        if j < slots.len() {
            proof {
                lemma_slot_accepts(rs0, rs1, order@, k as int, slots1, j as int);
                assert(pool_slot_ok(slots1, rs1, j as int));
            }
            slots[j].resources.push(id);
            slots[j].last_pass = last_use;
        } else {
            assert(slot_free_for(rs1, j as int, rs1[idx as int]));
            let mut resources: Vec<ResourceId> = Vec::new();
            resources.push(id);
            slots.push(
                PoolSlot {
                    index: j,
                    spec: rs[idx].spec,
                    resources,
                    first_pass: first_use,
                    last_pass: last_use,
                },
            );
            assert(slots@[j as int].resources@ == seq![id]);
        }
        rs[idx].slot = Some(j);
        proof {
            lemma_place(
                rs0,
                rs1,
                rs@,
                order@,
                k as int,
                slots1,
                slots@,
                j as int,
            );
        }
    }
    assert forall|i: int| 0 <= i < rs@.len() implies #[trigger] slot_ok(rs@, i) by {
        assert(same_but_slot(rs0[i], rs@[i]));
        if rs@[i].pooled() {
            assert(rs0[i].pooled());
            let a = choose|a: int| 0 <= a < order@.len() && order@[a] == i as usize;
            assert(slot_ok(rs@, order@[a] as int));
        }
    }
    slots
}

/// The resources that are alive at pass `pi`, in registration order.
fn live_at(rs: &Vec<ResourceLayout>, pi: usize) -> (alive: Vec<ResourceId>)
    requires
        ids_ok(rs@),
    ensures
        alive_ok(rs@, pi as int, alive@),
{
    let mut alive: Vec<ResourceId> = Vec::new();
    for i in 0..rs.len()
        invariant
            ids_ok(rs@),
            ascending(alive@),
            forall|k: int|
                0 <= k < alive@.len() ==> (#[trigger] alive@[k]).0 < i
                    && rs@[alive@[k].0 as int].is_alive_at(pi as int),
            forall|r: int|
                0 <= r < i && (#[trigger] rs@[r]).is_alive_at(pi as int) ==> alive@.contains(
                    rs@[r].id,
                ),
    {
        if rs[i].alive_at(pi) {
            let ghost earlier = alive@;
            alive.push(rs[i].id);
            assert forall|r: int| 0 <= r < i + 1 && (#[trigger] rs@[r]).is_alive_at(
                pi as int,
            ) implies alive@.contains(rs@[r].id) by {
                if r < i {
                    let k = choose|k: int| 0 <= k < earlier.len() && earlier[k] == rs@[r].id;
                    assert(alive@[k] == rs@[r].id);
                } else {
                    assert(alive@[earlier.len() as int] == rs@[r].id);
                }
            }
        }
    }
    alive
}

/// The live resources of every pass.
fn live_lists(rs: &Vec<ResourceLayout>, passes: usize) -> (lists: Vec<Vec<ResourceId>>)
    requires
        ids_ok(rs@),
    ensures
        lists@.len() == passes,
        forall|i: int|
            0 <= i < lists@.len() ==> alive_ok(rs@, i, (#[trigger] lists@[i])@),
{
    let mut lists: Vec<Vec<ResourceId>> = Vec::new();
    for pi in 0..passes
        invariant
            ids_ok(rs@),
            lists@.len() == pi,
            forall|i: int| 0 <= i < pi ==> alive_ok(rs@, i, (#[trigger] lists@[i])@),
    {
        lists.push(live_at(rs, pi));
    }
    lists
}

/// A copy of a list of ordering edges.
pub(crate) fn copy_edges(edges: &Vec<(PassId, PassId)>) -> (out: Vec<(PassId, PassId)>)
    ensures
        out@ == edges@,
{
    let mut out: Vec<(PassId, PassId)> = Vec::new();
    for i in 0..edges.len()
        invariant
            out@ == edges@.subrange(0, i as int),
    {
        out.push(edges[i]);
        assert(edges@.subrange(0, i + 1) == edges@.subrange(0, i as int).push(edges@[i as int]));
    }
    assert(edges@.subrange(0, edges@.len() as int) == edges@);
    out
}

/// Compiles declarations into the layout that they describe.
pub fn compile_layout(
    resources: &Vec<ResourceNode>,
    passes: &Vec<PassNode>,
    ordering: &Vec<(PassId, PassId)>,
    surface_size: (u32, u32),
) -> (layout: GraphLayout)
    requires
        resources@.len() <= u32::MAX + 1,
        passes@.len() <= u32::MAX + 1,
        ids_in_range(pass_decls(passes@), resources@.len()),
    ensures
        layout.describes(
            resource_decls(resources@),
            pass_decls(passes@),
            ordering@,
            surface_size,
        ),
{
    let ghost decls = pass_decls(passes@);
    let out = enabled_passes(passes);
    let mut rs = resource_windows(resources, &out);
    let ghost rs0 = rs@;
    assert(spans_ok(rs0));
    let slots = assign_slots(&mut rs);
    proof {
        lemma_enabled_ids(decls);
        let frame = frame_view(out@);
        assert forall|i: int| 0 <= i < rs@.len() implies (#[trigger] rs@[i]).id.0 == i
            && window_ok(frame, rs@[i]) && entry_ok(resource_decls(resources@)[i], rs@[i]) by {
            assert(same_but_slot(rs0[i], rs@[i]));
            assert(window_ok(frame, rs0[i]));
        }
        assert forall|i: int, r: ResourceId| 0 <= i < out@.len() && #[trigger] touches(
            out@[i].decl(),
            r,
        ) implies r.0 < rs@.len() by {
            assert(touches(decls[enabled_ids(decls)[i]], r));
        }
    }
    let pass_alive = live_lists(&rs, out.len());
    GraphLayout {
        surface_size,
        passes: out,
        resources: rs,
        slots,
        pass_alive,
        ordering: copy_edges(ordering),
    }
}

/// A resource is read in a pass although nothing has written it by then.
#[derive(Debug)]
pub struct ReadBeforeWrite {
    /// Name of the resource.
    pub resource: String,
    /// Name of the pass.
    pub pass: String,
    /// Index of the pass among the enabled ones.
    pub index: usize,
}

impl ReadBeforeWrite {
    /// The error as text.
    pub open spec fn text(self) -> Seq<char> {
        "resource '"@ + self.resource@ + "' is read in pass '"@ + self.pass@ + "' (index "@
            + decimal(self.index as nat)
            + ") before any write; use import_resource() for external inputs, or write it in an earlier pass"@
    }

    /// The error as text.
    pub fn message(&self) -> (out: String)
        ensures
            out@ == self.text(),
    {
        let mut out = String::new();
        out.append("resource '");
        out.append(self.resource.as_str());
        out.append("' is read in pass '");
        out.append(self.pass.as_str());
        out.append("' (index ");
        push_decimal(&mut out, self.index as u64);
        out.append(
            ") before any write; use import_resource() for external inputs, or write it in an earlier pass",
        );
        out
    }
}

/// Read `k` of pass `i` breaks the first-touch rule.
pub open spec fn breaks_first_touch(
    resources: Seq<ResourceDecl>,
    frame: Seq<PassDecl>,
    i: int,
    k: int,
) -> bool {
    &&& 0 <= i < frame.len()
    &&& 0 <= k < frame[i].reads.len()
    &&& reads_unwritten(frame, i, frame[i].reads[k])
    &&& !resources[frame[i].reads[k].0 as int].imported
}

/// The error names the first offending read, in the order of passes and reads.
pub open spec fn is_first_offence(
    resources: Seq<ResourceDecl>,
    frame: Seq<PassDecl>,
    e: ReadBeforeWrite,
    i: int,
    k: int,
) -> bool {
    &&& breaks_first_touch(resources, frame, i, k)
    &&& forall|a: int, b: int| #[trigger]
        breaks_first_touch(resources, frame, a, b) ==> i < a || (i == a && k <= b)
    &&& e.index == i
    &&& e.pass@ == frame[i].name
    &&& e.resource@ == resources[frame[i].reads[k].0 as int].name
}

/// Whether one of the first `upto` passes writes `r`.
fn written_by(passes: &Vec<PassLayout>, upto: usize, r: ResourceId) -> (yes: bool)
    requires
        upto <= passes@.len(),
    ensures
        yes == exists|k: int| 0 <= k < upto && #[trigger] writes_of(frame_view(passes@)[k], r),
{
    let ghost frame = frame_view(passes@);
    for k in 0..upto
        invariant
            upto <= passes@.len(),
            frame == frame_view(passes@),
            forall|c: int| 0 <= c < k ==> !#[trigger] writes_of(frame[c], r),
    {
        assert(frame[k as int] == passes@[k as int].decl());
        if pass_writes(&passes[k], r) {
            assert(writes_of(frame[k as int], r));
            return true;
        }
    }
    false
}

/// The frame of a compiled pass list is the frame of the declarations.
pub(crate) proof fn lemma_frame_view(passes: Seq<PassDecl>, out: Seq<PassLayout>)
    requires
        passes_ok(passes, out),
    ensures
        frame_view(out) == frame_of(passes),
{
    assert(frame_view(out) =~= frame_of(passes)) by {
        assert forall|k: int| 0 <= k < out.len() implies frame_view(out)[k] == frame_of(
            passes,
        )[k] by {
            assert(out[k].decl() == passes[enabled_ids(passes)[k]]);
        }
    }
}

/// Checks the first-touch rule: a resource that is not imported is not read before it is
/// written.
pub fn check_first_touch(resources: &Vec<ResourceNode>, passes: &Vec<PassNode>) -> (res: Result<
    (),
    ReadBeforeWrite,
>)
    requires
        passes@.len() <= u32::MAX + 1,
        ids_in_range(pass_decls(passes@), resources@.len()),
    ensures
        res is Ok <==> first_touch_ok(resource_decls(resources@), frame_of(pass_decls(passes@))),
        res is Err ==> exists|i: int, k: int| #[trigger]
            is_first_offence(
                resource_decls(resources@),
                frame_of(pass_decls(passes@)),
                res->Err_0,
                i,
                k,
            ),
{
    let ghost decls = pass_decls(passes@);
    let ghost rs = resource_decls(resources@);
    let out = enabled_passes(passes);
    let ghost frame = frame_view(out@);
    proof {
        lemma_enabled_ids(decls);
        lemma_frame_view(decls, out@);
    }
    for i in 0..out.len()
        invariant
            decls == pass_decls(passes@),
            rs == resource_decls(resources@),
            frame == frame_view(out@),
            frame == frame_of(decls),
            passes_ok(decls, out@),
            ids_in_range(decls, resources@.len()),
            forall|a: int|
                0 <= a < enabled_ids(decls).len() ==> 0 <= #[trigger] enabled_ids(decls)[a]
                    < decls.len(),
            forall|a: int, b: int| #[trigger] breaks_first_touch(rs, frame, a, b) ==> i <= a,
    {
        assert(frame[i as int] == out@[i as int].decl());
        let count: usize = out[i].reads.len();
        for k in 0..count
            invariant
                i < out@.len(),
                count == out@[i as int].reads@.len(),
                decls == pass_decls(passes@),
                rs == resource_decls(resources@),
                frame == frame_view(out@),
                frame == frame_of(decls),
                passes_ok(decls, out@),
                ids_in_range(decls, resources@.len()),
                forall|a: int|
                    0 <= a < enabled_ids(decls).len() ==> 0 <= #[trigger] enabled_ids(decls)[a]
                        < decls.len(),
                frame[i as int] == out@[i as int].decl(),
                forall|a: int, b: int| #[trigger]
                    breaks_first_touch(rs, frame, a, b) ==> i < a || (i == a && k <= b),
        {
            let r: ResourceId = out[i].reads[k];
            assert(frame[i as int].reads.contains(frame[i as int].reads[k as int]));
            assert(touches(decls[enabled_ids(decls)[i as int]], r));
            assert(rs[r.0 as int] == resources@[r.0 as int]@);
            assert(i < out.len());
            let written: bool = written_by(&out, i + 1, r);
            assert(!written <==> reads_unwritten(frame, i as int, r));
            if !resources[r.0 as usize].imported && !written {
                let e = ReadBeforeWrite {
                    resource: resources[r.0 as usize].name.clone(),
                    pass: out[i].name.clone(),
                    index: i,
                };
                proof {
                    assert(breaks_first_touch(rs, frame, i as int, k as int));
                    assert(is_first_offence(rs, frame, e, i as int, k as int));
                    assert(reads_unwritten(frame, i as int, r) && !rs[r.0 as int].imported);
                }
                let res: Result<(), ReadBeforeWrite> = Err(e);
                assert(is_first_offence(
                    resource_decls(resources@),
                    frame_of(pass_decls(passes@)),
                    res->Err_0,
                    i as int,
                    k as int,
                ));
                return res;
            }
        }
    }
    proof {
        assert forall|i: int, r: ResourceId| #[trigger]
            reads_unwritten(frame, i, r) implies rs[r.0 as int].imported by {
            let k = choose|k: int| 0 <= k < frame[i].reads.len() && frame[i].reads[k] == r;
            if !rs[r.0 as int].imported {
                assert(breaks_first_touch(rs, frame, i, k));
            }
        }
    }
    Ok(())
}

/// A pass reaches for a resource that it did not declare.
#[derive(Debug)]
pub struct UndeclaredAccess {
    /// Name of the pass.
    pub pass: String,
    /// Index of the pass within the layout.
    pub index: usize,
    /// Name of the resource.
    pub resource: String,
}

impl UndeclaredAccess {
    /// The error as text.
    pub open spec fn text(self) -> Seq<char> {
        "pass '"@ + self.pass@ + "' (index "@ + decimal(self.index as nat)
            + ") accesses resource '"@ + self.resource@ + "' outside its declared reads and writes"@
    }

    /// The error as text.
    pub fn message(&self) -> (out: String)
        ensures
            out@ == self.text(),
    {
        let mut out = String::new();
        out.append("pass '");
        out.append(self.pass.as_str());
        out.append("' (index ");
        push_decimal(&mut out, self.index as u64);
        out.append(") accesses resource '");
        out.append(self.resource.as_str());
        out.append("' outside its declared reads and writes");
        out
    }
}

/// Checks that the pass at `pass_index` declared an access to `id`: a read, or a write, which
/// covers reading back what was written.
pub fn assert_pass_access_declared(
    layout: &GraphLayout,
    pass_index: usize,
    id: ResourceId,
) -> (res: Result<(), UndeclaredAccess>)
    requires
        pass_index < layout.passes@.len(),
        id.0 < layout.resources@.len(),
    ensures
        res is Ok <==> touches(layout.passes@[pass_index as int].decl(), id),
        res is Err ==> {
            &&& res->Err_0.pass@ == layout.passes@[pass_index as int].name@
            &&& res->Err_0.index == pass_index
            &&& res->Err_0.resource@ == layout.resources@[id.0 as int].name@
        },
{
    let pass = &layout.passes[pass_index];
    if pass_reads(pass, id) || pass_writes(pass, id) {
        Ok(())
    } else {
        Err(
            UndeclaredAccess {
                pass: pass.name.clone(),
                index: pass_index,
                resource: layout.resources[id.0 as usize].name.clone(),
            },
        )
    }
}

} // verus!
