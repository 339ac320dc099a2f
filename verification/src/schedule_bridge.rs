//! Frame passes as schedule systems: every enabled pass becomes a declaration twin whose
//! accesses are resource types, so that a scheduler that knows nothing of textures levels the
//! frame exactly as the layout does.
use vstd::prelude::*;
#[allow(unused_imports)]
use vstd::string::*;

use crate::declarations::{Color, PassId, PassNode, ResourceId};
#[allow(unused_imports)]
use crate::declarations::{
    enabled_ids, frame_of, ids_in_range, lemma_enabled_ids, pass_decls, reads_of, touches,
    writes_of, PassDecl,
};
use crate::levels::levels_of;
#[allow(unused_imports)]
use crate::compile::lemma_frame_view;
#[allow(unused_imports)]
use crate::layout::{frame_view, GraphLayout};
#[allow(unused_imports)]
use crate::levels::{conflict, conflict_on, levels_are_determined, levels_ok, Dependencies};
#[allow(unused_imports)]
use crate::ordering::is_first_named;
use crate::system::SystemSet;
#[allow(unused_imports)]
use crate::system::SystemsView;
use crate::text::push_decimal;
#[allow(unused_imports)]
use crate::text::decimal;

verus! {

/// System twin of one declared pass: its name and its accesses by resource type.
#[derive(Debug)]
pub struct PassSystem {
    pub name: String,
    pub reads: Vec<u32>,
    pub writes: Vec<u32>,
}

/// View of a [`PassSystem`].
#[verifier::ext_equal]
pub struct PassSystemView {
    pub name: Seq<char>,
    pub reads: Seq<u32>,
    pub writes: Seq<u32>,
}

impl View for PassSystem {
    type V = PassSystemView;

    open spec fn view(&self) -> PassSystemView {
        PassSystemView { name: self.name@, reads: self.reads@, writes: self.writes@ }
    }
}

/// The projected systems with their ordering edges, by position.
#[derive(Debug)]
pub struct Schedule {
    pub systems: Vec<PassSystem>,
    pub edges: Vec<(usize, usize)>,
}

/// Why a pass cannot be projected.
#[derive(Debug)]
pub enum ProjectionError {
    /// The pass accesses a resource that was registered without a type.
    UntypedResource {
        /// Name of the offending pass.
        pass: String,
        /// The resource without a type.
        resource: ResourceId,
    },
}

impl ProjectionError {
    /// The error as text.
    pub open spec fn text(self) -> Seq<char> {
        match self {
            ProjectionError::UntypedResource { pass, resource } => "pass '"@ + pass@
                + "' accesses untyped resource ResourceId("@ + decimal(resource.0 as nat)
                + ") (register it with register_resource::<R> to project)"@,
        }
    }

    /// The error as text.
    pub fn message(&self) -> (out: String)
        ensures
            out@ == self.text(),
    {
        let mut out = String::new();
        match self {
            ProjectionError::UntypedResource { pass, resource } => {
                out.append("pass '");
                out.append(pass.as_str());
                out.append("' accesses untyped resource ResourceId(");
                push_decimal(&mut out, resource.0 as u64);
                out.append(") (register it with register_resource::<R> to project)");
            },
        }
        out
    }
}

/// The resources that a pass accesses, in declaration order: reads, then writes.
pub open spec fn accessed(p: PassDecl) -> Seq<ResourceId> {
    p.reads + p.writes.map_values(|w: (ResourceId, Option<Color>)| w.0)
}

/// Access `k` of the pass names a resource without a type.
pub open spec fn untyped_access(types: Seq<Option<u32>>, p: PassDecl, k: int) -> bool {
    0 <= k < accessed(p).len() && types[accessed(p)[k].0 as int] is None
}

/// The twin of a pass whose accesses are all typed.
pub open spec fn twin(types: Seq<Option<u32>>, p: PassDecl) -> PassSystemView {
    PassSystemView {
        name: p.name,
        reads: p.reads.map_values(|r: ResourceId| types[r.0 as int]->0),
        writes: p.writes.map_values(
            |w: (ResourceId, Option<Color>)| types[w.0.0 as int]->0,
        ),
    }
}

/// Every access of every executing pass is typed.
pub open spec fn all_typed(types: Seq<Option<u32>>, frame: Seq<PassDecl>) -> bool {
    forall|i: int, k: int|
        0 <= i < frame.len() ==> !#[trigger] untyped_access(types, frame[i], k)
}

/// The error names the first untyped access, in the order of passes and accesses.
pub open spec fn is_first_untyped(
    types: Seq<Option<u32>>,
    frame: Seq<PassDecl>,
    e: ProjectionError,
    i: int,
    k: int,
) -> bool {
    &&& 0 <= i < frame.len()
    &&& untyped_access(types, frame[i], k)
    &&& forall|a: int, b: int|
        0 <= a < frame.len() && #[trigger] untyped_access(types, frame[a], b) ==> i < a || (i == a
            && k <= b)
    &&& match e {
        ProjectionError::UntypedResource { pass, resource } => pass@ == frame[i].name && resource
            == accessed(frame[i])[k],
    }
}

/// The systems are the twins of the executing passes, in order.
pub open spec fn systems_ok(
    types: Seq<Option<u32>>,
    frame: Seq<PassDecl>,
    systems: Seq<PassSystem>,
) -> bool {
    &&& systems.len() == frame.len()
    &&& forall|i: int|
        0 <= i < frame.len() ==> (#[trigger] systems[i])@ == twin(types, frame[i])
}

/// Names of the systems.
pub open spec fn system_names(systems: Seq<PassSystem>) -> Seq<Seq<char>> {
    systems.map_values(|s: PassSystem| s@.name)
}

/// Name of a pass if it is enabled.
pub open spec fn enabled_name(passes: Seq<PassDecl>, id: PassId) -> Option<Seq<char>> {
    if id.0 < passes.len() && passes[id.0 as int].enabled {
        Some(passes[id.0 as int].name)
    } else {
        None
    }
}

/// Edge `e` joins the first systems that carry the names of its two passes, both enabled, and
/// leads forward.
pub open spec fn mirrors(
    passes: Seq<PassDecl>,
    names: Seq<Seq<char>>,
    e: (PassId, PassId),
    a: int,
    b: int,
) -> bool {
    &&& enabled_name(passes, e.0) is Some
    &&& enabled_name(passes, e.1) is Some
    &&& is_first_named(names, enabled_name(passes, e.0)->0, a)
    &&& is_first_named(names, enabled_name(passes, e.1)->0, b)
    &&& a < b
}

/// Some ordering edge is mirrored by `e`.
pub open spec fn mirrored(
    passes: Seq<PassDecl>,
    names: Seq<Seq<char>>,
    ordering: Seq<(PassId, PassId)>,
    e: (usize, usize),
) -> bool {
    exists|c: int|
        0 <= c < ordering.len() && #[trigger] mirrors(
            passes,
            names,
            ordering[c],
            e.0 as int,
            e.1 as int,
        )
}

/// The edges are the mirrored ordering edges; an edge that touches a disabled pass is dropped.
pub open spec fn edges_ok(
    passes: Seq<PassDecl>,
    names: Seq<Seq<char>>,
    ordering: Seq<(PassId, PassId)>,
    edges: Seq<(usize, usize)>,
) -> bool {
    &&& forall|k: int|
        0 <= k < edges.len() ==> mirrored(passes, names, ordering, #[trigger] edges[k])
    &&& forall|c: int, a: int, b: int|
        0 <= c < ordering.len() && #[trigger] mirrors(passes, names, ordering[c], a, b)
            ==> edges.contains((a as usize, b as usize))
}

/// Appends the type of one accessed resource, or reports that it has none.
fn push_typed_access(accesses: &mut Vec<u32>, set: &SystemSet, pass: &String, resource: ResourceId) -> (res: Result<
    (),
    ProjectionError,
>)
    requires
        set.wf(),
        resource.0 < set@.plan.resources.len(),
    ensures
        match set@.types[resource.0 as int] {
            Some(key) => res is Ok && final(accesses)@ == old(accesses)@.push(key),
            None => {
                &&& final(accesses)@ == old(accesses)@
                &&& res matches Err(ProjectionError::UntypedResource { pass: p, resource: r })
                    && p@ == pass@ && r == resource
            },
        },
{
    match set.resource_type(resource) {
        Some(key) => {
            accesses.push(key);
            Ok(())
        },
        None => Err(ProjectionError::UntypedResource { pass: pass.clone(), resource }),
    }
}

/// Builds the declaration twin of one pass.
fn pass_system(set: &SystemSet, node: &PassNode) -> (res: Result<PassSystem, ProjectionError>)
    requires
        set.wf(),
        forall|r: ResourceId| #[trigger] touches(node@, r) ==> r.0 < set@.plan.resources.len(),
    ensures
        match res {
            Ok(system) => {
                &&& system@ == twin(set@.types, node@)
                &&& forall|k: int| !#[trigger] untyped_access(set@.types, node@, k)
            },
            Err(ProjectionError::UntypedResource { pass, resource }) => {
                &&& pass@ == node@.name
                &&& exists|k: int| #[trigger]
                    untyped_access(set@.types, node@, k) && resource == accessed(node@)[k]
                        && forall|b: int| #[trigger]
                        untyped_access(set@.types, node@, b) ==> k <= b
            },
        },
{
    let ghost types = set@.types;
    let ghost p = node@;
    let mut reads: Vec<u32> = Vec::new();
    for k in 0..node.reads.len()
        invariant
            set.wf(),
            types == set@.types,
            p == node@,
            forall|r: ResourceId| #[trigger] touches(p, r) ==> r.0 < set@.plan.resources.len(),
            reads@.len() == k,
            forall|c: int|
                0 <= c < k ==> Some(#[trigger] reads@[c]) == types[p.reads[c].0 as int],
    {
        let r: ResourceId = node.reads[k];
        assert(p.reads.contains(p.reads[k as int]));
        assert(touches(p, r));
        assert(accessed(p)[k as int] == r);
        match push_typed_access(&mut reads, set, &node.name, r) {
            Ok(()) => {},
            Err(e) => {
                proof {
                    assert(untyped_access(types, p, k as int));
                    assert forall|b: int| #[trigger] untyped_access(types, p, b) implies k <= b by {
                        if b < k {
                            assert(accessed(p)[b] == p.reads[b]);
                            assert(Some(reads@[b]) == types[p.reads[b].0 as int]);
                        }
                    }
                }
                return Err(e);
            },
        }
    }
    let mut writes: Vec<u32> = Vec::new();
    for k in 0..node.writes.len()
        invariant
            set.wf(),
            types == set@.types,
            p == node@,
            forall|r: ResourceId| #[trigger] touches(p, r) ==> r.0 < set@.plan.resources.len(),
            reads@.len() == p.reads.len(),
            forall|c: int|
                0 <= c < reads@.len() ==> Some(#[trigger] reads@[c])
                    == types[p.reads[c].0 as int],
            writes@.len() == k,
            forall|c: int|
                0 <= c < k ==> Some(#[trigger] writes@[c]) == types[(p.writes[c].0).0 as int],
    {
        let r: ResourceId = node.writes[k].0;
        assert(p.writes[k as int].0 == r);
        assert(touches(p, r));
        let ghost at = p.reads.len() + k;
        assert(accessed(p)[at as int] == r);
        match push_typed_access(&mut writes, set, &node.name, r) {
            Ok(()) => {},
            Err(e) => {
                proof {
                    assert(untyped_access(types, p, at as int));
                    assert forall|b: int| #[trigger] untyped_access(types, p, b) implies at
                        <= b by {
                        if b < p.reads.len() {
                            assert(accessed(p)[b] == p.reads[b]);
                            assert(Some(reads@[b]) == types[p.reads[b].0 as int]);
                        } else if b < at {
                            let c = b - p.reads.len();
                            assert(accessed(p)[b] == p.writes[c].0);
                            assert(Some(writes@[c]) == types[(p.writes[c].0).0 as int]);
                        }
                    }
                }
                return Err(e);
            },
        }
    }
    proof {
        assert forall|k: int| !#[trigger] untyped_access(types, p, k) by {
            if 0 <= k < p.reads.len() {
                assert(accessed(p)[k] == p.reads[k]);
                assert(Some(reads@[k]) == types[p.reads[k].0 as int]);
            } else if p.reads.len() <= k < accessed(p).len() {
                let c = k - p.reads.len();
                assert(accessed(p)[k] == p.writes[c].0);
                assert(Some(writes@[c]) == types[(p.writes[c].0).0 as int]);
            }
        }
        let t = twin(types, p);
        assert(reads@ =~= t.reads);
        assert(writes@ =~= t.writes);
    }
    Ok(PassSystem { name: node.name.clone(), reads, writes })
}

/// The name of a pass if it is enabled, that is present in the projection.
fn edge_name<'a>(passes: &'a Vec<PassNode>, id: PassId) -> (name: Option<&'a String>)
    ensures
        match enabled_name(pass_decls(passes@), id) {
            Some(n) => name is Some && name->0@ == n,
            None => name is None,
        },
{
    let i: usize = id.0 as usize;
    if i < passes.len() && passes[i].enabled {
        Some(&passes[i].name)
    } else {
        None
    }
}

/// Position of the first system with the name.
fn system_named(systems: &Vec<PassSystem>, name: &String) -> (pos: Option<usize>)
    ensures
        match pos {
            Some(i) => is_first_named(system_names(systems@), name@, i as int),
            None => !system_names(systems@).contains(name@),
        },
{
    let ghost names = system_names(systems@);
    for i in 0..systems.len()
        invariant
            names == system_names(systems@),
            forall|k: int| 0 <= k < i ==> #[trigger] names[k] != name@,
    {
        assert(names[i as int] == systems@[i as int].name@);
        if systems[i].name == *name {
            return Some(i);
        }
    }
    None
}

/// Mirrors ordering edges onto the projected systems, by pass name.
fn mirror_ordering_edges(
    passes: &Vec<PassNode>,
    ordering: &Vec<(PassId, PassId)>,
    systems: &Vec<PassSystem>,
) -> (edges: Vec<(usize, usize)>)
    ensures
        edges_ok(pass_decls(passes@), system_names(systems@), ordering@, edges@),
{
    let ghost decls = pass_decls(passes@);
    let ghost names = system_names(systems@);
    let mut edges: Vec<(usize, usize)> = Vec::new();
    for c in 0..ordering.len()
        invariant
            decls == pass_decls(passes@),
            names == system_names(systems@),
            forall|k: int|
                0 <= k < edges@.len() ==> mirrored(
                    decls,
                    names,
                    ordering@,
                    #[trigger] edges@[k],
                ),
            forall|q: int, a: int, b: int|
                0 <= q < c && #[trigger] mirrors(decls, names, ordering@[q], a, b)
                    ==> edges@.contains((a as usize, b as usize)),
    {
        let ghost earlier = edges@;
        let ghost e = ordering@[c as int];
        if let (Some(before), Some(after)) = (
            edge_name(passes, ordering[c].0),
            edge_name(passes, ordering[c].1),
        ) {
            let b = system_named(systems, before);
            let a = system_named(systems, after);
            if let (Some(b), Some(a)) = (b, a) {
                if b < a {
                    edges.push((b, a));
                    assert(mirrors(decls, names, e, b as int, a as int));
                }
            }
        }
        assert forall|k: int| 0 <= k < edges@.len() implies mirrored(
            decls,
            names,
            ordering@,
            #[trigger] edges@[k],
        ) by {
            if k < earlier.len() {
                assert(edges@[k] == earlier[k]);
            } else {
                assert(mirrors(
                    decls,
                    names,
                    ordering@[c as int],
                    edges@[k].0 as int,
                    edges@[k].1 as int,
                ));
            }
        }
        assert forall|q: int, a: int, b: int| 0 <= q < c + 1 && #[trigger] mirrors(
            decls,
            names,
            ordering@[q],
            a,
            b,
        ) implies edges@.contains((a as usize, b as usize)) by {
            if q < c {
                assert(earlier.contains((a as usize, b as usize)));
                let k = choose|k: int|
                    0 <= k < earlier.len() && earlier[k] == (a as usize, b as usize);
                assert(edges@[k] == (a as usize, b as usize));
            } else {
                assert(names.contains(names[a]) && names.contains(names[b]));
                assert(edges@.last() == (a as usize, b as usize));
                assert(edges@[edges@.len() - 1] == (a as usize, b as usize));
            }
        }
    }
    edges
}

/// Projects the registry's passes into a schedule: registration order is kept and disabled
/// passes are skipped, so the position of a system is the position of its pass in the layout.
pub fn try_project_schedule(set: &SystemSet) -> (res: Result<Schedule, ProjectionError>)
    requires
        set.wf(),
    ensures
        match res {
            Ok(schedule) => {
                &&& all_typed(set@.types, frame_of(set@.plan.passes))
                &&& systems_ok(set@.types, frame_of(set@.plan.passes), schedule.systems@)
                &&& edges_ok(
                    set@.plan.passes,
                    system_names(schedule.systems@),
                    set@.plan.ordering,
                    schedule.edges@,
                )
            },
            Err(e) => exists|i: int, k: int| #[trigger]
                is_first_untyped(set@.types, frame_of(set@.plan.passes), e, i, k),
        },
{
    let input = set.pool_input();
    let ghost types = set@.types;
    let ghost decls = set@.plan.passes;
    proof {
        set.lemma_ids_in_range();
    }
    let mut systems: Vec<PassSystem> = Vec::new();
    assert(decls.subrange(0, 0) =~= Seq::<PassDecl>::empty());
    for index in 0..input.passes.len()
        invariant
            set.wf(),
            types == set@.types,
            decls == set@.plan.passes,
            decls == pass_decls(input.passes@),
            input.ordering@ == set@.plan.ordering,
            ids_in_range(decls, set@.plan.resources.len()),
            all_typed(types, frame_of(decls.subrange(0, index as int))),
            systems_ok(types, frame_of(decls.subrange(0, index as int)), systems@),
    {
        let ghost done = decls.subrange(0, index as int);
        let ghost next = decls.subrange(0, index + 1);
        let ghost p = decls[index as int];
        proof {
            assert(next.drop_last() == done);
            assert(next.last() == p);
            lemma_enabled_ids(done);
            lemma_enabled_ids(decls);
            lemma_frame_step(decls, index as int);
        }
        let node = &input.passes[index];
        assert(node@ == p);
        if node.enabled {
            assert forall|r: ResourceId| #[trigger] touches(node@, r) implies r.0
                < set@.plan.resources.len() by {
                assert(touches(decls[index as int], r));
            }
            match pass_system(set, node) {
                Ok(system) => {
                    let ghost earlier = systems@;
                    systems.push(system);
                    assert(frame_of(next) == frame_of(done).push(p));
                    assert forall|i: int| 0 <= i < frame_of(next).len() implies (
                    #[trigger] systems@[i])@ == twin(types, frame_of(next)[i]) by {
                        if i < earlier.len() {
                            assert(systems@[i] == earlier[i]);
                        }
                    }
                },
                Err(e) => {
                    let ghost i = frame_of(done).len() as int;
                    let ghost whole = frame_of(decls);
                    let ghost k = choose|k: int| #[trigger]
                        untyped_access(types, p, k) && (forall|b: int| #[trigger]
                            untyped_access(types, p, b) ==> k <= b) && match e {
                            ProjectionError::UntypedResource { pass, resource } => resource
                                == accessed(p)[k],
                        };
                    proof {
                        lemma_frame_prefix(decls, index + 1);
                        assert(frame_of(next)[i] == p);
                        assert(whole[i] == p);
                        assert forall|a: int, b: int|
                            0 <= a < whole.len() && #[trigger] untyped_access(
                                types,
                                whole[a],
                                b,
                            ) implies i < a || (i == a && k <= b) by {
                            if a < i {
                                assert(whole[a] == frame_of(next)[a]);
                                assert(frame_of(next)[a] == frame_of(done)[a]);
                                assert(!untyped_access(types, frame_of(done)[a], b));
                            }
                        }
                    }
                    let res: Result<Schedule, ProjectionError> = Err(e);
                    assert(is_first_untyped(types, whole, res->Err_0, i, k));
                    return res;
                },
            }
        } else {
            assert(frame_of(next) == frame_of(done));
        }
    }
    assert(decls.subrange(0, decls.len() as int) =~= decls);
    let edges = mirror_ordering_edges(input.passes, input.ordering, &systems);
    Ok(Schedule { systems, edges })
}

/// The frame of one more pass.
proof fn lemma_frame_step(decls: Seq<PassDecl>, n: int)
    requires
        0 <= n < decls.len(),
    ensures
        frame_of(decls.subrange(0, n + 1)) == if decls[n].enabled {
            frame_of(decls.subrange(0, n)).push(decls[n])
        } else {
            frame_of(decls.subrange(0, n))
        },
{
    let done = decls.subrange(0, n);
    let next = decls.subrange(0, n + 1);
    assert(next.drop_last() =~= done);
    lemma_enabled_ids(done);
    if decls[n].enabled {
        assert(frame_of(next) =~= frame_of(done).push(decls[n]));
    } else {
        assert(frame_of(next) =~= frame_of(done));
    }
}

/// The frame of a prefix is a prefix of the frame.
proof fn lemma_frame_prefix(decls: Seq<PassDecl>, n: int)
    requires
        0 <= n <= decls.len(),
    ensures
        frame_of(decls.subrange(0, n)).len() <= frame_of(decls).len(),
        forall|i: int|
            0 <= i < frame_of(decls.subrange(0, n)).len() ==> frame_of(decls)[i] == #[trigger] frame_of(
                decls.subrange(0, n),
            )[i],
    decreases decls.len() - n,
{
    if n < decls.len() {
        lemma_frame_step(decls, n);
        lemma_frame_prefix(decls, n + 1);
        assert forall|i: int| 0 <= i < frame_of(decls.subrange(0, n)).len() implies frame_of(
            decls,
        )[i] == #[trigger] frame_of(decls.subrange(0, n))[i] by {
            assert(frame_of(decls.subrange(0, n + 1))[i] == frame_of(decls.subrange(0, n))[i]);
        }
    } else {
        assert(decls.subrange(0, n) =~= decls);
    }
}

/// Both systems access the type and at least one of them writes it.
pub open spec fn type_conflict_on(p: PassSystemView, q: PassSystemView, key: u32) -> bool {
    ||| p.writes.contains(key) && (q.reads.contains(key) || q.writes.contains(key))
    ||| q.writes.contains(key) && (p.reads.contains(key) || p.writes.contains(key))
}

/// The two systems access a common type that at least one of them writes.
pub open spec fn type_conflict(p: PassSystemView, q: PassSystemView) -> bool {
    exists|key: u32| #[trigger] type_conflict_on(p, q, key)
}

fn lists_key(keys: &Vec<u32>, key: u32) -> (yes: bool)
    ensures
        yes == keys@.contains(key),
{
    for i in 0..keys.len()
        invariant
            forall|k: int| 0 <= k < i ==> keys@[k] != key,
    {
        if keys[i] == key {
            assert(keys@[i as int] == key);
            return true;
        }
    }
    false
}

fn systems_conflict(p: &PassSystem, q: &PassSystem) -> (yes: bool)
    ensures
        yes == type_conflict(p@, q@),
{
    for i in 0..p.writes.len()
        invariant
            forall|k: int|
                0 <= k < i ==> !q@.reads.contains(#[trigger] p.writes@[k]) && !q@.writes.contains(
                    p.writes@[k],
                ),
    {
        let key: u32 = p.writes[i];
        if lists_key(&q.reads, key) || lists_key(&q.writes, key) {
            assert(p@.writes[i as int] == key);
            assert(type_conflict_on(p@, q@, key));
            return true;
        }
    }
    for i in 0..q.writes.len()
        invariant
            forall|k: int|
                0 <= k < p.writes@.len() ==> !q@.reads.contains(#[trigger] p.writes@[k])
                    && !q@.writes.contains(p.writes@[k]),
            forall|k: int|
                0 <= k < i ==> !p@.reads.contains(#[trigger] q.writes@[k]) && !p@.writes.contains(
                    q.writes@[k],
                ),
    {
        let key: u32 = q.writes[i];
        if lists_key(&p.reads, key) || lists_key(&p.writes, key) {
            assert(q@.writes[i as int] == key);
            assert(type_conflict_on(p@, q@, key));
            return true;
        }
    }
    assert(!type_conflict(p@, q@)) by {
        if type_conflict(p@, q@) {
            let key = choose|key: u32| #[trigger] type_conflict_on(p@, q@, key);
            if p@.writes.contains(key) && (q@.reads.contains(key) || q@.writes.contains(key)) {
                let k = choose|k: int| 0 <= k < p@.writes.len() && p@.writes[k] == key;
                assert(!q@.reads.contains(p.writes@[k]));
            } else {
                let k = choose|k: int| 0 <= k < q@.writes.len() && q@.writes[k] == key;
                assert(!p@.reads.contains(q.writes@[k]));
            }
        }
    }
    false
}

fn lists_edge(edges: &Vec<(usize, usize)>, a: usize, b: usize) -> (yes: bool)
    ensures
        yes == edges@.contains((a, b)),
{
    for i in 0..edges.len()
        invariant
            forall|k: int| 0 <= k < i ==> edges@[k] != (a, b),
    {
        if edges[i].0 == a && edges[i].1 == b {
            assert(edges@[i as int] == (a, b));
            return true;
        }
    }
    false
}

impl Schedule {
    /// The later system must come after the earlier one: their accesses conflict, or an edge
    /// says so.
    pub open spec fn dependencies(self) -> Dependencies {
        Dependencies {
            count: self.systems@.len(),
            relation: |i: int, j: int|
                type_conflict(self.systems@[i]@, self.systems@[j]@) || self.edges@.contains(
                    (i as usize, j as usize),
                ),
        }
    }

    /// Partitions the systems into levels.
    pub fn levels(&self) -> (levels: Vec<Vec<usize>>)
        ensures
            levels_ok(self.dependencies(), levels@),
    {
        let ghost d = self.dependencies();
        let mut rows: Vec<Vec<bool>> = Vec::new();
        for j in 0..self.systems.len()
            invariant
                d == self.dependencies(),
                rows@.len() == j,
                forall|c: int| 0 <= c < j ==> (#[trigger] rows@[c])@.len() == c,
                forall|i: int, c: int|
                    0 <= i < c < j ==> #[trigger] rows@[c]@[i] == d.depends(i, c),
        {
            let mut row: Vec<bool> = Vec::new();
            for i in 0..j
                invariant
                    d == self.dependencies(),
                    j < self.systems@.len(),
                    row@.len() == i,
                    forall|k: int| 0 <= k < i ==> #[trigger] row@[k] == d.depends(k, j as int),
            {
                let yes: bool = systems_conflict(&self.systems[i], &self.systems[j])
                    || lists_edge(&self.edges, i, j);
                row.push(yes);
            }
            rows.push(row);
        }
        levels_of(&rows, Ghost(d))
    }
}

/// No two executing passes share a name.
pub open spec fn names_unique(frame: Seq<PassDecl>) -> bool {
    forall|a: int, b: int|
        0 <= a < b < frame.len() ==> (#[trigger] frame[a]).name != (#[trigger] frame[b]).name
}

/// No two resources share a type.
pub open spec fn types_unique(types: Seq<Option<u32>>) -> bool {
    forall|a: int, b: int|
        0 <= a < b < types.len() && (#[trigger] types[a]) is Some ==> types[a]
            != #[trigger] types[b]
}

/// A key is among the types of some accesses exactly if its resource is among them.
proof fn lemma_twin_access(types: Seq<Option<u32>>, p: PassDecl, r: ResourceId)
    requires
        types_unique(types),
        r.0 < types.len(),
        types[r.0 as int] is Some,
        forall|k: int| !#[trigger] untyped_access(types, p, k),
        forall|q: ResourceId| #[trigger] touches(p, q) ==> q.0 < types.len(),
    ensures
        twin(types, p).reads.contains(types[r.0 as int]->0) <==> reads_of(p, r),
        twin(types, p).writes.contains(types[r.0 as int]->0) <==> writes_of(p, r),
{
    let t = twin(types, p);
    let key = types[r.0 as int]->0;
    if t.reads.contains(key) {
        let k = choose|k: int| 0 <= k < t.reads.len() && t.reads[k] == key;
        let q = p.reads[k];
        assert(p.reads.contains(q));
        assert(touches(p, q));
        assert(accessed(p)[k] == q);
        assert(!untyped_access(types, p, k));
        assert(types[q.0 as int] == types[r.0 as int]);
        assert(q == r);
    }
    if reads_of(p, r) {
        let k = choose|k: int| 0 <= k < p.reads.len() && p.reads[k] == r;
        assert(t.reads[k] == key);
    }
    if t.writes.contains(key) {
        let k = choose|k: int| 0 <= k < t.writes.len() && t.writes[k] == key;
        let q = p.writes[k].0;
        assert(writes_of(p, q));
        assert(touches(p, q));
        assert(accessed(p)[p.reads.len() + k] == q);
        assert(!untyped_access(types, p, p.reads.len() + k));
        assert(types[q.0 as int] == types[r.0 as int]);
        assert(q == r);
    }
    if writes_of(p, r) {
        let k = choose|k: int| 0 <= k < p.writes.len() && (#[trigger] p.writes[k]).0 == r;
        assert(t.writes[k] == key);
    }
}

/// Twins conflict exactly if their passes do.
proof fn lemma_twin_conflict(types: Seq<Option<u32>>, p: PassDecl, q: PassDecl)
    requires
        types_unique(types),
        forall|k: int| !#[trigger] untyped_access(types, p, k),
        forall|k: int| !#[trigger] untyped_access(types, q, k),
        forall|r: ResourceId| #[trigger] touches(p, r) ==> r.0 < types.len(),
        forall|r: ResourceId| #[trigger] touches(q, r) ==> r.0 < types.len(),
    ensures
        type_conflict(twin(types, p), twin(types, q)) <==> conflict(p, q),
{
    let a = twin(types, p);
    let b = twin(types, q);
    if conflict(p, q) {
        let r = choose|r: ResourceId| #[trigger] conflict_on(p, q, r);
        assert(touches(p, r));
        lemma_touched_is_typed(types, p, r);
        lemma_twin_access(types, p, r);
        lemma_twin_access(types, q, r);
        assert(type_conflict_on(a, b, types[r.0 as int]->0));
    }
    if type_conflict(a, b) {
        let key = choose|key: u32| #[trigger] type_conflict_on(a, b, key);
        let r = if a.writes.contains(key) {
            let k = choose|k: int| 0 <= k < a.writes.len() && a.writes[k] == key;
            p.writes[k].0
        } else {
            let k = choose|k: int| 0 <= k < b.writes.len() && b.writes[k] == key;
            q.writes[k].0
        };
        if a.writes.contains(key) {
            let k = choose|k: int| 0 <= k < a.writes.len() && a.writes[k] == key;
            assert(p.writes[k].0 == r);
            assert(writes_of(p, r));
            assert(touches(p, r));
            lemma_touched_is_typed(types, p, r);
        } else {
            let k = choose|k: int| 0 <= k < b.writes.len() && b.writes[k] == key;
            assert(q.writes[k].0 == r);
            assert(writes_of(q, r));
            assert(touches(q, r));
            lemma_touched_is_typed(types, q, r);
        }
        assert(types[r.0 as int]->0 == key);
        lemma_twin_access(types, p, r);
        lemma_twin_access(types, q, r);
        assert(conflict_on(p, q, r));
    }
}

/// A touched resource of a fully typed pass has a type.
proof fn lemma_touched_is_typed(types: Seq<Option<u32>>, p: PassDecl, r: ResourceId)
    requires
        touches(p, r),
        forall|k: int| !#[trigger] untyped_access(types, p, k),
    ensures
        types[r.0 as int] is Some,
{
    if reads_of(p, r) {
        let k = choose|k: int| 0 <= k < p.reads.len() && p.reads[k] == r;
        assert(accessed(p)[k] == r);
        assert(!untyped_access(types, p, k));
    } else {
        let k = choose|k: int| 0 <= k < p.writes.len() && (#[trigger] p.writes[k]).0 == r;
        assert(accessed(p)[p.reads.len() + k] == r);
        assert(!untyped_access(types, p, p.reads.len() + k));
    }
}

/// The projected schedule levels the frame exactly as the layout does, provided that no two
/// resources share a type and no two executing passes share a name.
pub proof fn projected_levels_match_the_layout(
    view: SystemsView,
    layout: GraphLayout,
    schedule: Schedule,
    x: Seq<Vec<usize>>,
    y: Seq<Vec<usize>>,
)
    requires
        view.plan.compiles_to(layout),
        view.types.len() == view.plan.resources.len(),
        types_unique(view.types),
        names_unique(frame_of(view.plan.passes)),
        all_typed(view.types, frame_of(view.plan.passes)),
        systems_ok(view.types, frame_of(view.plan.passes), schedule.systems@),
        edges_ok(
            view.plan.passes,
            system_names(schedule.systems@),
            view.plan.ordering,
            schedule.edges@,
        ),
        levels_ok(layout.dependencies(), x),
        levels_ok(schedule.dependencies(), y),
    ensures
        x.len() == y.len(),
        forall|t: int| 0 <= t < x.len() ==> (#[trigger] x[t])@ == y[t]@,
{
    let types = view.types;
    let decls = view.plan.passes;
    let frame = frame_of(decls);
    let names = system_names(schedule.systems@);
    let c = layout.dependencies();
    let d = schedule.dependencies();
    assert(layout.passes.len() == layout.passes@.len());
    lemma_enabled_ids(decls);
    lemma_frame_view(decls, layout.passes@);
    assert forall|a: int| 0 <= a < frame.len() implies #[trigger] names[a] == frame[a].name by {
        assert(schedule.systems@[a]@ == twin(types, frame[a]));
    }
    assert forall|i: int, j: int| #[trigger] c.depends(i, j) == d.depends(i, j) by {
        if 0 <= i < j < frame.len() {
            assert(layout.passes@[i].decl() == frame_view(layout.passes@)[i]);
            assert(layout.passes@[j].decl() == frame_view(layout.passes@)[j]);
            assert forall|r: ResourceId| #[trigger] touches(frame[i], r) implies r.0
                < types.len() by {
                assert(touches(layout.passes@[i].decl(), r));
            }
            assert forall|r: ResourceId| #[trigger] touches(frame[j], r) implies r.0
                < types.len() by {
                assert(touches(layout.passes@[j].decl(), r));
            }
            assert forall|k: int| !#[trigger] untyped_access(types, frame[i], k) by {}
            assert forall|k: int| !#[trigger] untyped_access(types, frame[j], k) by {}
            lemma_twin_conflict(types, frame[i], frame[j]);
            assert(schedule.systems@[i]@ == twin(types, frame[i]));
            assert(schedule.systems@[j]@ == twin(types, frame[j]));
            let pi = layout.passes@[i].id;
            let pj = layout.passes@[j].id;
            assert(pi.0 == enabled_ids(decls)[i] && pj.0 == enabled_ids(decls)[j]);
            if view.plan.ordering.contains((pi, pj)) {
                let e = choose|e: int|
                    0 <= e < view.plan.ordering.len() && view.plan.ordering[e] == (pi, pj);
                assert(frame[i] == decls[enabled_ids(decls)[i]]);
                assert(frame[j] == decls[enabled_ids(decls)[j]]);
                assert(names[i] == frame[i].name && names[j] == frame[j].name);
                assert forall|k: int| 0 <= k < i implies #[trigger] names[k] != names[i] by {
                    assert(frame[k].name != frame[i].name);
                }
                assert forall|k: int| 0 <= k < j implies #[trigger] names[k] != names[j] by {
                    assert(frame[k].name != frame[j].name);
                }
                assert(mirrors(decls, names, view.plan.ordering[e], i, j));
            }
            if schedule.edges@.contains((i as usize, j as usize)) {
                let k = choose|k: int|
                    0 <= k < schedule.edges@.len() && schedule.edges@[k] == (
                        i as usize,
                        j as usize,
                    );
                assert(mirrored(decls, names, view.plan.ordering, schedule.edges@[k]));
                let e = choose|e: int|
                    0 <= e < view.plan.ordering.len() && #[trigger] mirrors(
                        decls,
                        names,
                        view.plan.ordering[e],
                        i,
                        j,
                    );
                let edge = view.plan.ordering[e];
                lemma_named_position(decls, edge.0, i);
                lemma_named_position(decls, edge.1, j);
                assert(names[i] == frame[i].name && names[j] == frame[j].name);
                assert(edge == (pi, pj));
            }
        }
    }
    levels_are_determined(c, d, x, y);
}

/// The only executing pass with the name of an enabled pass is that pass.
proof fn lemma_named_position(decls: Seq<PassDecl>, id: PassId, i: int)
    requires
        names_unique(frame_of(decls)),
        enabled_name(decls, id) is Some,
        0 <= i < frame_of(decls).len(),
        frame_of(decls)[i].name == enabled_name(decls, id)->0,
    ensures
        enabled_ids(decls)[i] == id.0,
{
    lemma_enabled_ids(decls);
    let ids = enabled_ids(decls);
    assert(decls[id.0 as int].enabled);
    assert(ids.contains(id.0 as int));
    let a = choose|a: int| 0 <= a < ids.len() && ids[a] == id.0;
    assert(frame_of(decls)[a] == decls[id.0 as int]);
    if a < i {
        assert(frame_of(decls)[a].name != frame_of(decls)[i].name);
    }
    if i < a {
        assert(frame_of(decls)[i].name != frame_of(decls)[a].name);
    }
}

} // verus!
