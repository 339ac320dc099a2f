//! What holds of every layout.
use vstd::prelude::*;
#[allow(unused_imports)]
use vstd::set_lib::{
    lemma_int_range, lemma_len_subset, lemma_map_size, lemma_map_size_bound,
    lemma_set_subset_finite, set_int_range,
};

#[allow(unused_imports)]
use crate::declarations::{
    enabled_ids, is_used, touches, PassDecl, PassId, ResourceDecl, ResourceId, TextureSpec,
};
#[allow(unused_imports)]
use crate::dump::{names_of, written_ids};
#[allow(unused_imports)]
use crate::layout::{
    alive_ok, before, can_follow, entry_ok, ids_ok, pool_slot_ok, slot_free_for, slot_ok,
    window_ok, GraphLayout, PoolSlot, ResourceLayout,
};

verus! {

/// Two resources in one slot have the same specification, and the window of one ends before
/// the window of the other begins.
pub proof fn slot_mates_never_overlap(l: GraphLayout, a: int, b: int)
    requires
        l.wf(),
        0 <= a < l.resources@.len(),
        0 <= b < l.resources@.len(),
        a != b,
        l.resources@[a].slot is Some,
        l.resources@[a].slot == l.resources@[b].slot,
    ensures
        l.resources@[a].spec == l.resources@[b].spec,
        l.resources@[a].last_use < l.resources@[b].first_use || l.resources@[b].last_use
            < l.resources@[a].first_use,
{
    let rs = l.resources@;
    assert(slot_ok(rs, a) && slot_ok(rs, b));
    assert(rs[a].id.0 == a && rs[b].id.0 == b);
    assert(before(rs[a], rs[b]) || before(rs[b], rs[a]));
}

/// Within a single pass no two live resources share a pool slot.
pub proof fn no_aliasing_within_a_pass(l: GraphLayout, pass: int, a: int, b: int)
    requires
        l.wf(),
        0 <= a < l.resources@.len(),
        0 <= b < l.resources@.len(),
        a != b,
        l.resources@[a].is_alive_at(pass),
        l.resources@[b].is_alive_at(pass),
        l.resources@[a].slot is Some,
    ensures
        l.resources@[a].slot != l.resources@[b].slot,
{
    if l.resources@[a].slot == l.resources@[b].slot {
        slot_mates_never_overlap(l, a, b);
    }
}

/// A resource that a pass touches is alive there, listed among its live resources, and backed:
/// by a slot of its own specification, or by the caller if it is external.
pub proof fn touched_resources_are_backed(l: GraphLayout, pass: int, r: ResourceId)
    requires
        l.wf(),
        0 <= pass < l.passes@.len(),
        touches(l.passes@[pass].decl(), r),
    ensures
        r.0 < l.resources@.len(),
        l.resources@[r.0 as int].is_alive_at(pass),
        l.pass_alive@[pass]@.contains(r),
        l.resources@[r.0 as int].external || (l.resources@[r.0 as int].slot is Some
            && l.resources@[r.0 as int].slot->0 < l.slots@.len()
            && l.slots@[l.resources@[r.0 as int].slot->0 as int].spec
            == l.resources@[r.0 as int].spec),
{
    let rs = l.resources@;
    let rl = rs[r.0 as int];
    assert(l.frame()[pass] == l.passes@[pass].decl());
    assert(rl.id == r);
    assert(window_ok(l.frame(), rl));
    assert(is_used(l.frame(), r));
    assert(l.passes.len() == l.passes@.len());
    assert(rl.is_alive_at(pass));
    assert(alive_ok(rs, pass, l.pass_alive@[pass]@));
    assert(slot_ok(rs, r.0 as int));
    if !rl.external {
        let j = rl.slot->0 as int;
        assert(pool_slot_ok(l.slots@, rs, j));
        let first = l.slots@[j].resources@[0].0 as int;
        if first != r.0 {
            slot_mates_never_overlap(l, first, r.0 as int);
        }
    }
}

/// A resource that no enabled pass touches has no window and no slot, and an external resource
/// is never pooled.
pub proof fn dead_and_external_resources_are_unpooled(l: GraphLayout, i: int)
    requires
        l.wf(),
        0 <= i < l.resources@.len(),
        l.resources@[i].external || !is_used(l.frame(), ResourceId(i as u32)),
    ensures
        l.resources@[i].slot is None,
        !l.resources@[i].external ==> l.resources@[i].first_use == usize::MAX
            && l.resources@[i].last_use == 0,
{
    assert(l.resources@[i].id.0 == i);
    assert(slot_ok(l.resources@, i));
    assert(window_ok(l.frame(), l.resources@[i]));
}

/// Slots of a specification.
pub open spec fn slots_with(l: GraphLayout, spec: TextureSpec) -> Set<int> {
    Set::new(|j: int| 0 <= j < l.slots@.len() && l.slots@[j].spec == spec)
}

/// Pooled resources of a specification whose windows hold the pass.
pub open spec fn overlap_at(l: GraphLayout, spec: TextureSpec, pass: int) -> Set<int> {
    Set::new(
        |i: int|
            0 <= i < l.resources@.len() && l.resources@[i].pooled() && l.resources@[i].spec == spec
                && l.resources@[i].is_alive_at(pass),
    )
}

/// The slot of a resource.
spec fn slot_number(l: GraphLayout, i: int) -> int {
    l.resources@[i].slot->0 as int
}

proof fn lemma_slot_spec(l: GraphLayout, i: int)
    requires
        l.wf(),
        0 <= i < l.resources@.len(),
        l.resources@[i].pooled(),
    ensures
        l.resources@[i].slot is Some,
        l.resources@[i].slot->0 < l.slots@.len(),
        l.slots@[slot_number(l, i)].spec == l.resources@[i].spec,
{
    let j = slot_number(l, i);
    assert(slot_ok(l.resources@, i));
    assert(pool_slot_ok(l.slots@, l.resources@, j));
    let first = l.slots@[j].resources@[0].0 as int;
    assert(l.resources@[first].slot == Some(j as usize));
    if first != i {
        slot_mates_never_overlap(l, first, i);
    }
}

/// At every pass the resources of a specification that overlap there sit in slots of their own.
proof fn lemma_overlap_needs_slots(l: GraphLayout, spec: TextureSpec, pass: int)
    requires
        l.wf(),
    ensures
        slots_with(l, spec).finite(),
        overlap_at(l, spec, pass).finite(),
        overlap_at(l, spec, pass).map(|i: int| slot_number(l, i)).subset_of(slots_with(l, spec)),
        overlap_at(l, spec, pass).len() <= slots_with(l, spec).len(),
{
    let slots = slots_with(l, spec);
    let live = overlap_at(l, spec, pass);
    let number = |i: int| slot_number(l, i);
    lemma_int_range(0, l.slots@.len() as int);
    lemma_int_range(0, l.resources@.len() as int);
    lemma_set_subset_finite(set_int_range(0, l.slots@.len() as int), slots);
    lemma_set_subset_finite(set_int_range(0, l.resources@.len() as int), live);
    let taken = live.map(number);
    assert forall|j: int| taken.contains(j) implies slots.contains(j) by {
        let i = choose|i: int| live.contains(i) && number(i) == j;
        lemma_slot_spec(l, i);
    }
    assert forall|a: int, b: int|
        live.contains(a) && live.contains(b) && #[trigger] number(a) == #[trigger] number(
            b,
        ) implies a == b by {
        lemma_slot_spec(l, a);
        lemma_slot_spec(l, b);
        if a != b {
            no_aliasing_within_a_pass(l, pass, a, b);
        }
    }
    lemma_map_size(live, taken, number);
    lemma_len_subset(taken, slots);
}

/// At the pass for which the last slot of a specification was opened, every slot of the
/// specification is taken.
proof fn lemma_last_slot_is_needed(l: GraphLayout, spec: TextureSpec, last: int) -> (pass: int)
    requires
        l.wf(),
        slots_with(l, spec).contains(last),
        forall|j: int| #[trigger] slots_with(l, spec).contains(j) ==> j <= last,
    ensures
        0 <= pass < l.passes@.len(),
        slots_with(l, spec).subset_of(
            overlap_at(l, spec, pass).map(|i: int| slot_number(l, i)),
        ),
{
    let rs = l.resources@;
    assert(pool_slot_ok(l.slots@, rs, last));
    let opener = l.slots@[last].resources@[0].0 as int;
    let r = rs[opener];
    assert(r.slot == Some(last as usize));
    assert(slot_ok(rs, opener));
    assert(window_ok(l.frame(), r));
    assert(l.passes.len() == l.passes@.len());
    let pass = r.first_use as int;
    let live = overlap_at(l, spec, pass);
    let number = |i: int| slot_number(l, i);
    assert forall|j: int| slots_with(l, spec).contains(j) implies live.map(number).contains(j) by {
        if j == last {
            assert(live.contains(opener) && number(opener) == j);
        } else {
            assert(!slot_free_for(rs, j, r));
            let q = choose|q: int|
                0 <= q < rs.len() && (#[trigger] rs[q]).pooled() && before(rs[q], r) && rs[q].slot
                    is Some && rs[q].slot->0 == j && !can_follow(rs[q], r);
            lemma_slot_spec(l, q);
            assert(window_ok(l.frame(), rs[q]));
            assert(live.contains(q) && number(q) == j);
        }
    }
    pass
}

/// A specification has as many slots as its resources overlap at most: at no pass do more of them
/// overlap, and at some pass that many do. So no assignment without aliasing has fewer.
pub proof fn slots_number_the_greatest_overlap(l: GraphLayout, spec: TextureSpec)
    requires
        l.wf(),
    ensures
        slots_with(l, spec).finite(),
        forall|pass: int| #[trigger]
            overlap_at(l, spec, pass).len() <= slots_with(l, spec).len(),
        slots_with(l, spec).len() > 0 ==> exists|pass: int|
            0 <= pass < l.passes@.len() && #[trigger] overlap_at(l, spec, pass).len()
                == slots_with(l, spec).len(),
{
    let slots = slots_with(l, spec);
    assert forall|pass: int| #[trigger] overlap_at(l, spec, pass).len() <= slots.len() by {
        lemma_overlap_needs_slots(l, spec, pass);
    }
    lemma_overlap_needs_slots(l, spec, 0);
    if slots.len() > 0 {
        let leq = |a: int, b: int| a <= b;
        let last = slots.find_unique_maximal(leq);
        slots.find_unique_maximal_ensures(leq);
        assert forall|j: int| #[trigger] slots.contains(j) implies j <= last by {
            assert(leq(last, j) ==> leq(j, last));
        }
        let pass = lemma_last_slot_is_needed(l, spec, last);
        lemma_overlap_needs_slots(l, spec, pass);
        let live = overlap_at(l, spec, pass);
        let number = |i: int| slot_number(l, i);
        assert(live.map(number) =~= slots);
        lemma_map_size_bound(live, slots, number);
    }
}

/// A strictly sorted sequence is determined by its elements.
pub(crate) proof fn lemma_sorted_unique<A>(s: Seq<A>, t: Seq<A>, lt: spec_fn(A, A) -> bool)
    requires
        forall|a: A, b: A| #[trigger] lt(a, b) ==> !lt(b, a),
        forall|i: int, j: int| 0 <= i < j < s.len() ==> lt(#[trigger] s[i], #[trigger] s[j]),
        forall|i: int, j: int| 0 <= i < j < t.len() ==> lt(#[trigger] t[i], #[trigger] t[j]),
        forall|x: A| #[trigger] s.contains(x) <==> t.contains(x),
    ensures
        s == t,
    decreases s.len(),
{
    if s.len() == 0 {
        if t.len() > 0 {
            assert(t.contains(t[0]));
            assert(!s.contains(t[0]));
        }
    } else {
        assert(s.contains(s[0]));
        let m = s.last();
        let n = t.last();
        assert(s.contains(m) && t.contains(n));
        assert(t.contains(m));
        assert(s.contains(n));
        if m != n {
            let k = choose|k: int| 0 <= k < t.len() && t[k] == m;
            assert(lt(t[k], t[t.len() - 1]));
            let q = choose|q: int| 0 <= q < s.len() && s[q] == n;
            assert(lt(s[q], s[s.len() - 1]));
            assert(false);
        }
        let s1 = s.drop_last();
        let t1 = t.drop_last();
        assert forall|x: A| #[trigger] s1.contains(x) <==> t1.contains(x) by {
            if s1.contains(x) {
                let k = choose|k: int| 0 <= k < s1.len() && s1[k] == x;
                assert(s[k] == x);
                assert(s.contains(x));
                assert(lt(s[k], s[s.len() - 1]));
                assert(t.contains(x));
                let q = choose|q: int| 0 <= q < t.len() && t[q] == x;
                assert(q != t.len() - 1);
                assert(t1[q] == x);
            }
            if t1.contains(x) {
                let k = choose|k: int| 0 <= k < t1.len() && t1[k] == x;
                assert(t[k] == x);
                assert(lt(t[k], t[t.len() - 1]));
                assert(t.contains(x));
                assert(s.contains(x));
                let q = choose|q: int| 0 <= q < s.len() && s[q] == x;
                assert(q != s.len() - 1);
                assert(s1[q] == x);
            }
        }
        lemma_sorted_unique(s1, t1, lt);
        assert(s == s1.push(m));
        assert(t == t1.push(n));
    }
}

/// Entries with the same windows are handed the same slot.
proof fn lemma_same_slot(xs: Seq<ResourceLayout>, ys: Seq<ResourceLayout>, i: int)
    requires
        xs.len() == ys.len(),
        forall|k: int|
            #![trigger xs[k]]
            #![trigger ys[k]]
            0 <= k < xs.len() ==> xs[k].id == ys[k].id && xs[k].spec == ys[k].spec
                && xs[k].external == ys[k].external && xs[k].first_use == ys[k].first_use
                && xs[k].last_use == ys[k].last_use,
        forall|k: int| 0 <= k < xs.len() ==> #[trigger] slot_ok(xs, k),
        forall|k: int| 0 <= k < ys.len() ==> #[trigger] slot_ok(ys, k),
        0 <= i < xs.len(),
    ensures
        xs[i].slot == ys[i].slot,
    decreases xs[i].first_use, xs[i].last_use, xs[i].id.0,
{
    assert(slot_ok(xs, i) && slot_ok(ys, i));
    if xs[i].pooled() {
        assert forall|q: int| 0 <= q < xs.len() && before(
            #[trigger] xs[q],
            xs[i],
        ) implies xs[q].slot == ys[q].slot by {
            lemma_same_slot(xs, ys, q);
        }
        assert forall|j: int| #[trigger] slot_free_for(xs, j, xs[i]) <==> slot_free_for(
            ys,
            j,
            ys[i],
        ) by {
            if slot_free_for(xs, j, xs[i]) {
                assert forall|q: int|
                    0 <= q < ys.len() && (#[trigger] ys[q]).pooled() && before(ys[q], ys[i])
                        && ys[q].slot is Some && ys[q].slot->0 == j implies can_follow(
                    ys[q],
                    ys[i],
                ) by {
                    assert(before(xs[q], xs[i]));
                }
            }
            if slot_free_for(ys, j, ys[i]) {
                assert forall|q: int|
                    0 <= q < xs.len() && (#[trigger] xs[q]).pooled() && before(xs[q], xs[i])
                        && xs[q].slot is Some && xs[q].slot->0 == j implies can_follow(
                    xs[q],
                    xs[i],
                ) by {
                    assert(before(ys[q], ys[i]));
                }
            }
        }
        let a = xs[i].slot->0 as int;
        let b = ys[i].slot->0 as int;
        if a < b {
            assert(slot_free_for(xs, a, xs[i]));
            assert(!slot_free_for(ys, a, ys[i]));
        }
        if b < a {
            assert(!slot_free_for(xs, b, xs[i]));
        }
    }
}

/// The two layouts hold the same values.
pub open spec fn same_layout(x: GraphLayout, y: GraphLayout) -> bool {
    &&& x.surface_size == y.surface_size
    &&& x.ordering@ == y.ordering@
    &&& x.passes@.len() == y.passes@.len()
    &&& forall|i: int|
        #![trigger x.passes@[i]]
        0 <= i < x.passes@.len() ==> x.passes@[i].id == y.passes@[i].id && x.passes@[i].decl()
            == y.passes@[i].decl()
    &&& x.resources@.len() == y.resources@.len()
    &&& forall|i: int|
        #![trigger x.resources@[i]]
        0 <= i < x.resources@.len() ==> {
            let a = x.resources@[i];
            let b = y.resources@[i];
            &&& a.id == b.id
            &&& a.name@ == b.name@
            &&& a.spec == b.spec
            &&& a.external == b.external
            &&& a.first_use == b.first_use
            &&& a.last_use == b.last_use
            &&& a.slot == b.slot
        }
    &&& x.slots@.len() == y.slots@.len()
    &&& forall|j: int|
        #![trigger x.slots@[j]]
        0 <= j < x.slots@.len() ==> {
            let a = x.slots@[j];
            let b = y.slots@[j];
            &&& a.index == b.index
            &&& a.spec == b.spec
            &&& a.resources@ == b.resources@
            &&& a.first_pass == b.first_pass
            &&& a.last_pass == b.last_pass
        }
    &&& x.pass_alive@.len() == y.pass_alive@.len()
    &&& forall|i: int|
        #![trigger x.pass_alive@[i]]
        0 <= i < x.pass_alive@.len() ==> x.pass_alive@[i]@ == y.pass_alive@[i]@
}

/// Slot `j` of one layout lists the same resources as slot `j` of the other.
proof fn lemma_same_members(
    xs: Seq<ResourceLayout>,
    ys: Seq<ResourceLayout>,
    sx: Seq<PoolSlot>,
    sy: Seq<PoolSlot>,
    j: int,
)
    requires
        xs.len() == ys.len(),
        ids_ok(xs),
        ids_ok(ys),
        forall|k: int|
            #![trigger xs[k]]
            #![trigger ys[k]]
            0 <= k < xs.len() ==> xs[k].first_use == ys[k].first_use && xs[k].last_use
                == ys[k].last_use && xs[k].slot == ys[k].slot,
        pool_slot_ok(sx, xs, j),
        pool_slot_ok(sy, ys, j),
    ensures
        sx[j].resources@ == sy[j].resources@,
{
    let a = sx[j].resources@;
    let b = sy[j].resources@;
    let n = xs.len();
    // The order of the windows, extended so that it is asymmetric on every handle.
    let lt = |p: ResourceId, q: ResourceId|
        p.0 < n && q.0 < n && before(xs[p.0 as int], xs[q.0 as int]);
    assert forall|x: ResourceId| #[trigger] a.contains(x) <==> b.contains(x) by {
        if a.contains(x) {
            let k = choose|k: int| 0 <= k < a.len() && a[k] == x;
            assert(xs[a[k].0 as int].slot == Some(j as usize));
            assert(ys[x.0 as int].slot == Some(j as usize));
            assert(ys[x.0 as int].id == x);
        }
        if b.contains(x) {
            let k = choose|k: int| 0 <= k < b.len() && b[k] == x;
            assert(ys[b[k].0 as int].slot == Some(j as usize));
            assert(xs[x.0 as int].slot == Some(j as usize));
            assert(xs[x.0 as int].id == x);
        }
    }
    assert forall|i: int, k: int| 0 <= i < k < b.len() implies lt(
        #[trigger] b[i],
        #[trigger] b[k],
    ) by {
        assert(before(ys[b[i].0 as int], ys[b[k].0 as int]));
        assert(xs[b[i].0 as int].id == ys[b[i].0 as int].id);
        assert(xs[b[k].0 as int].id == ys[b[k].0 as int].id);
    }
    lemma_sorted_unique(a, b, lt);
}

/// Declarations determine their layout: whatever compiles them, and however often, the values
/// are the same.
pub proof fn layout_is_determined(
    x: GraphLayout,
    y: GraphLayout,
    resources: Seq<ResourceDecl>,
    passes: Seq<PassDecl>,
    ordering: Seq<(PassId, PassId)>,
    surface_size: (u32, u32),
)
    requires
        x.describes(resources, passes, ordering, surface_size),
        y.describes(resources, passes, ordering, surface_size),
    ensures
        same_layout(x, y),
{
    let xs = x.resources@;
    let ys = y.resources@;
    assert(x.frame() =~= y.frame()) by {
        assert forall|k: int| 0 <= k < x.passes@.len() implies x.frame()[k] == y.frame()[k] by {
            assert(x.passes@[k].decl() == passes[enabled_ids(passes)[k]]);
            assert(y.passes@[k].decl() == passes[enabled_ids(passes)[k]]);
        }
    }
    let frame = x.frame();
    assert forall|i: int| 0 <= i < x.passes@.len() implies x.passes@[i].id == y.passes@[i].id
        && #[trigger] x.passes@[i].decl() == y.passes@[i].decl() by {
        assert(y.passes@[i].id.0 == enabled_ids(passes)[i]);
    }
    assert forall|k: int|
        #![trigger xs[k]]
        #![trigger ys[k]]
        0 <= k < xs.len() implies xs[k].id == ys[k].id && xs[k].spec == ys[k].spec
        && xs[k].external == ys[k].external && xs[k].first_use == ys[k].first_use
        && xs[k].last_use == ys[k].last_use && xs[k].name@ == ys[k].name@ by {
        assert(entry_ok(resources[k], xs[k]) && entry_ok(resources[k], ys[k]));
        assert(window_ok(frame, xs[k]) && window_ok(frame, ys[k]));
        assert(xs[k].id.0 == k && ys[k].id.0 == k);
    }
    assert forall|k: int| 0 <= k < xs.len() implies (#[trigger] xs[k]).slot == ys[k].slot by {
        lemma_same_slot(xs, ys, k);
    }
    assert(x.slots@.len() == y.slots@.len()) by {
        if x.slots@.len() < y.slots@.len() {
            let j = x.slots@.len() as int;
            assert(pool_slot_ok(y.slots@, ys, j));
            let m = y.slots@[j].resources@[0];
            assert(ys[m.0 as int].slot == Some(j as usize));
            assert(xs[m.0 as int].slot->0 < x.slots@.len());
        }
        if y.slots@.len() < x.slots@.len() {
            let j = y.slots@.len() as int;
            assert(pool_slot_ok(x.slots@, xs, j));
            let m = x.slots@[j].resources@[0];
            assert(xs[m.0 as int].slot == Some(j as usize));
            assert(ys[m.0 as int].slot->0 < y.slots@.len());
        }
    }
    assert forall|j: int| 0 <= j < x.slots@.len() implies ({
        let a = #[trigger] x.slots@[j];
        let b = y.slots@[j];
        &&& a.index == b.index
        &&& a.spec == b.spec
        &&& a.resources@ == b.resources@
        &&& a.first_pass == b.first_pass
        &&& a.last_pass == b.last_pass
    }) by {
        assert(pool_slot_ok(x.slots@, xs, j) && pool_slot_ok(y.slots@, ys, j));
        lemma_same_members(xs, ys, x.slots@, y.slots@, j);
        let members = x.slots@[j].resources@;
        assert(members[0].0 < xs.len());
        assert(members.last() == members[members.len() - 1]);
        assert(xs[members[0].0 as int].spec == ys[members[0].0 as int].spec);
        assert(xs[members.last().0 as int].last_use == ys[members.last().0 as int].last_use);
    }
    assert forall|i: int| 0 <= i < x.pass_alive@.len() implies (#[trigger] x.pass_alive@[i])@
        == y.pass_alive@[i]@ by {
        let a = x.pass_alive@[i]@;
        let b = y.pass_alive@[i]@;
        assert(alive_ok(xs, i, a) && alive_ok(ys, i, b));
        let lt = |p: ResourceId, q: ResourceId| p.0 < q.0;
        assert forall|r: ResourceId| #[trigger] a.contains(r) <==> b.contains(r) by {
            if a.contains(r) {
                let k = choose|k: int| 0 <= k < a.len() && a[k] == r;
                assert(xs[a[k].0 as int].is_alive_at(i));
                assert(ys[r.0 as int].is_alive_at(i));
                assert(ys[r.0 as int].id == r);
            }
            if b.contains(r) {
                let k = choose|k: int| 0 <= k < b.len() && b[k] == r;
                assert(ys[b[k].0 as int].is_alive_at(i));
                assert(xs[r.0 as int].is_alive_at(i));
                assert(xs[r.0 as int].id == r);
            }
        }
        lemma_sorted_unique(a, b, lt);
    }
}

/// Layouts with the same values print the same dump.
pub proof fn same_layouts_dump_alike(x: GraphLayout, y: GraphLayout)
    requires
        x.wf(),
        same_layout(x, y),
    ensures
        x.dump_text() == y.dump_text(),
{
    let xs = x.resources@;
    let ys = y.resources@;
    assert forall|ids: Seq<ResourceId>|
        (forall|k: int| 0 <= k < ids.len() ==> (#[trigger] ids[k]).0 < xs.len()) implies names_of(
        xs,
        ids,
    ) == #[trigger] names_of(ys, ids) by {
        assert forall|k: int| 0 <= k < ids.len() implies names_of(xs, ids)[k] == names_of(
            ys,
            ids,
        )[k] by {
            assert(xs[ids[k].0 as int].name@ == ys[ids[k].0 as int].name@);
        }
        assert(names_of(xs, ids) =~= names_of(ys, ids));
    }
    assert forall|i: int| 0 <= i < x.passes@.len() implies #[trigger] x.dump_pass(i)
        == y.dump_pass(i) by {
        let p = x.passes@[i].decl();
        assert(p == y.passes@[i].decl());
        let w = written_ids(p.writes);
        assert forall|k: int| 0 <= k < p.reads.len() implies (#[trigger] p.reads[k]).0
            < xs.len() by {
            assert(p.reads.contains(p.reads[k]));
            assert(touches(x.passes@[i].decl(), p.reads[k]));
        }
        assert forall|k: int| 0 <= k < w.len() implies (#[trigger] w[k]).0 < xs.len() by {
            assert(p.writes[k].0 == w[k]);
            assert(touches(x.passes@[i].decl(), w[k]));
        }
        assert(names_of(xs, p.reads) == names_of(ys, p.reads));
        assert(names_of(xs, w) == names_of(ys, w));
        assert(x.passes@[i].reads@ == p.reads && y.passes@[i].reads@ == p.reads);
        assert(x.passes@[i].writes@ == p.writes && y.passes@[i].writes@ == p.writes);
        assert(x.passes@[i].name@ == p.name && y.passes@[i].name@ == p.name);
    }
    assert forall|i: int| 0 <= i < xs.len() implies #[trigger] x.dump_resource(i)
        == y.dump_resource(i) by {
        assert(xs[i].name@ == ys[i].name@);
    }
    assert forall|j: int| 0 <= j < x.slots@.len() implies #[trigger] x.dump_slot(j)
        == y.dump_slot(j) by {
        assert(pool_slot_ok(x.slots@, xs, j));
        let ids = x.slots@[j].resources@;
        assert(names_of(xs, ids) == names_of(ys, ids));
    }
    lemma_same_lines(x, y, x.passes@.len() as int, x.resources@.len() as int, x.slots@.len() as int);
}

/// Equal lines make equal blocks.
proof fn lemma_same_lines(x: GraphLayout, y: GraphLayout, p: int, r: int, s: int)
    requires
        forall|i: int| 0 <= i < p ==> #[trigger] x.dump_pass(i) == y.dump_pass(i),
        forall|i: int| 0 <= i < r ==> #[trigger] x.dump_resource(i) == y.dump_resource(i),
        forall|i: int| 0 <= i < s ==> #[trigger] x.dump_slot(i) == y.dump_slot(i),
    ensures
        x.dump_passes(p) == y.dump_passes(p),
        x.dump_resources(r) == y.dump_resources(r),
        x.dump_slots(s) == y.dump_slots(s),
    decreases p, r, s,
{
    if p > 0 {
        lemma_same_lines(x, y, p - 1, r, s);
        assert(x.dump_pass(p - 1) == y.dump_pass(p - 1));
    } else if r > 0 {
        lemma_same_lines(x, y, p, r - 1, s);
        assert(x.dump_resource(r - 1) == y.dump_resource(r - 1));
    } else if s > 0 {
        lemma_same_lines(x, y, p, r, s - 1);
        assert(x.dump_slot(s - 1) == y.dump_slot(s - 1));
    }
}

} // verus!
