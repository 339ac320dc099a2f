//! Parallel levels: nodes of one level have no dependency between them and may run concurrently.
use vstd::prelude::*;

use crate::compile::{pass_reads, pass_writes};
use crate::declarations::{PassId, ResourceId};
#[allow(unused_imports)]
use crate::declarations::{touches, writes_of, PassDecl};
use crate::layout::{GraphLayout, PassLayout};

verus! {

/// A dependency relation on the positions `0..count`.
pub struct Dependencies {
    pub count: nat,
    /// The later node (second argument) must come after the earlier one.
    pub relation: spec_fn(int, int) -> bool,
}

impl Dependencies {
    /// Node `j` must come after node `i`.
    pub open spec fn depends(self, i: int, j: int) -> bool {
        0 <= i < j < self.count && (self.relation)(i, j)
    }

    /// Greatest level that a dependency of `j` among the first `bound` nodes forces on it.
    pub open spec fn level_upto(self, j: int, bound: int) -> int
        decreases j, bound,
    {
        if j < 0 || bound <= 0 || bound > j {
            0
        } else {
            let rest = self.level_upto(j, bound - 1);
            let own = self.level_upto(bound - 1, bound - 1) + 1;
            if self.depends(bound - 1, j) && own > rest {
                own
            } else {
                rest
            }
        }
    }

    /// Level of node `j`: the length of the longest chain of dependencies that ends in it.
    pub open spec fn level(self, j: int) -> int {
        self.level_upto(j, j)
    }
}

/// `level` lists the nodes of level `t` among the first `count`, ascending.
pub open spec fn level_ok(d: Dependencies, level: Seq<usize>, t: int) -> bool {
    &&& forall|a: int, b: int|
        0 <= a < b < level.len() ==> (#[trigger] level[a]) < #[trigger] level[b]
    &&& forall|a: int|
        0 <= a < level.len() ==> (#[trigger] level[a]) < d.count && d.level(level[a] as int) == t
    &&& forall|j: int|
        0 <= j < d.count && #[trigger] d.level(j) == t ==> level.contains(j as usize)
}

/// `levels[t]` lists the nodes of level `t`, ascending; no level is empty, and no node is left
/// out.
pub open spec fn levels_ok(d: Dependencies, levels: Seq<Vec<usize>>) -> bool {
    &&& forall|t: int|
        0 <= t < levels.len() ==> (#[trigger] levels[t])@.len() > 0 && level_ok(d, levels[t]@, t)
    &&& forall|j: int| 0 <= j < d.count ==> 0 <= #[trigger] d.level(j) < levels.len()
}

/// A level is bounded by the position of the node and by every dependency from below.
proof fn lemma_level_upto(d: Dependencies, j: int, bound: int)
    requires
        0 <= bound <= j,
    ensures
        0 <= d.level_upto(j, bound) <= bound,
        forall|i: int| 0 <= i < bound && d.depends(i, j) ==> #[trigger] d.level(i) < d.level_upto(
            j,
            bound,
        ),
        d.level_upto(j, bound) > 0 ==> exists|i: int|
            0 <= i < bound && d.depends(i, j) && #[trigger] d.level(i) + 1 == d.level_upto(
                j,
                bound,
            ),
    decreases j, bound,
{
    if bound > 0 {
        lemma_level_upto(d, j, bound - 1);
        lemma_level_upto(d, bound - 1, bound - 1);
        let own = d.level(bound - 1);
        assert(own == d.level_upto(bound - 1, bound - 1));
        let rest = d.level_upto(j, bound - 1);
        let now = d.level_upto(j, bound);
        assert forall|i: int| 0 <= i < bound && d.depends(i, j) implies #[trigger] d.level(i)
            < now by {}
        if now > 0 {
            if now == rest {
                let i = choose|i: int|
                    0 <= i < bound - 1 && d.depends(i, j) && #[trigger] d.level(i) + 1 == rest;
                assert(d.level(i) + 1 == now);
            } else {
                assert(d.depends(bound - 1, j) && d.level(bound - 1) + 1 == now);
            }
        }
    }
}

/// The level of a node is one more than the greatest level among its dependencies, and zero if
/// it has none.
pub proof fn level_is_the_longest_chain(d: Dependencies, j: int)
    requires
        0 <= j < d.count,
    ensures
        0 <= d.level(j) <= j,
        forall|i: int| d.depends(i, j) ==> #[trigger] d.level(i) < d.level(j),
        d.level(j) > 0 ==> exists|i: int| d.depends(i, j) && #[trigger] d.level(i) + 1 == d.level(j),
{
    lemma_level_upto(d, j, j);
}

/// No dependency joins two nodes of one level: every dependency leads from a lower level to a
/// higher one.
pub proof fn levels_respect_dependencies(d: Dependencies, levels: Seq<Vec<usize>>, i: int, j: int)
    requires
        levels_ok(d, levels),
        d.depends(i, j),
    ensures
        d.level(i) < d.level(j),
        forall|t: int, a: int, b: int|
            0 <= t < levels.len() && 0 <= a < levels[t]@.len() && 0 <= b < levels[t]@.len()
                ==> !(#[trigger] levels[t]@[a] == i && #[trigger] levels[t]@[b] == j),
{
    level_is_the_longest_chain(d, j);
    assert forall|t: int, a: int, b: int|
        0 <= t < levels.len() && 0 <= a < levels[t]@.len() && 0 <= b
            < levels[t]@.len() implies !(#[trigger] levels[t]@[a] == i && #[trigger] levels[t]@[b]
        == j) by {
        assert(level_ok(d, levels[t]@, t));
    }
}

/// Equal relations have equal levels.
pub(crate) proof fn lemma_level_ext(c: Dependencies, d: Dependencies, j: int, bound: int)
    requires
        c.count == d.count,
        forall|i: int, k: int| #[trigger] c.depends(i, k) == d.depends(i, k),
    ensures
        c.level_upto(j, bound) == d.level_upto(j, bound),
    decreases j, bound,
{
    if !(j < 0 || bound <= 0 || bound > j) {
        lemma_level_ext(c, d, j, bound - 1);
        lemma_level_ext(c, d, bound - 1, bound - 1);
        assert(c.depends(bound - 1, j) == d.depends(bound - 1, j));
    }
}

/// A dependency relation determines its levels.
pub proof fn levels_are_determined(
    c: Dependencies,
    d: Dependencies,
    x: Seq<Vec<usize>>,
    y: Seq<Vec<usize>>,
)
    requires
        c.count == d.count,
        c.count <= usize::MAX,
        forall|i: int, k: int| #[trigger] c.depends(i, k) == d.depends(i, k),
        levels_ok(c, x),
        levels_ok(d, y),
    ensures
        x.len() == y.len(),
        forall|t: int| 0 <= t < x.len() ==> (#[trigger] x[t])@ == y[t]@,
{
    assert forall|j: int| #[trigger] c.level(j) == d.level(j) by {
        lemma_level_ext(c, d, j, j);
    }
    if x.len() < y.len() {
        let t = x.len() as int;
        assert(level_ok(d, y[t]@, t));
        let j = y[t]@[0] as int;
        assert(d.level(j) == t);
        assert(c.level(j) < x.len());
    }
    if y.len() < x.len() {
        let t = y.len() as int;
        assert(level_ok(c, x[t]@, t));
        let j = x[t]@[0] as int;
        assert(c.level(j) == t);
        assert(d.level(j) < y.len());
    }
    assert forall|t: int| 0 <= t < x.len() implies (#[trigger] x[t])@ == y[t]@ by {
        assert(level_ok(c, x[t]@, t) && level_ok(d, y[t]@, t));
        let lt = |p: usize, q: usize| p < q;
        assert forall|v: usize| #[trigger] x[t]@.contains(v) <==> y[t]@.contains(v) by {
            if x[t]@.contains(v) {
                let a = choose|a: int| 0 <= a < x[t]@.len() && x[t]@[a] == v;
                assert(c.level(x[t]@[a] as int) == t);
                assert(d.level(v as int) == t);
            }
            if y[t]@.contains(v) {
                let a = choose|a: int| 0 <= a < y[t]@.len() && y[t]@[a] == v;
                assert(d.level(y[t]@[a] as int) == t);
                assert(c.level(v as int) == t);
            }
        }
        crate::layout_laws::lemma_sorted_unique(x[t]@, y[t]@, lt);
    }
}

/// Some node sits on every level up to that of `j`.
proof fn lemma_levels_dense(d: Dependencies, j: int, t: int)
    requires
        0 <= j < d.count,
        0 <= t <= d.level(j),
    ensures
        exists|i: int| 0 <= i <= j && #[trigger] d.level(i) == t,
    decreases j,
{
    level_is_the_longest_chain(d, j);
    if t < d.level(j) {
        let i = choose|i: int| d.depends(i, j) && #[trigger] d.level(i) + 1 == d.level(j);
        lemma_levels_dense(d, i, t);
        let k = choose|k: int| 0 <= k <= i && #[trigger] d.level(k) == t;
        assert(0 <= k <= j && d.level(k) == t);
    } else {
        assert(d.level(j) == t);
    }
}

/// Row `j` of the matrix says for every earlier node whether node `j` depends on it.
pub open spec fn matrix_ok(d: Dependencies, rows: Seq<Vec<bool>>) -> bool {
    &&& rows.len() == d.count
    &&& forall|j: int| 0 <= j < rows.len() ==> (#[trigger] rows[j])@.len() == j
    &&& forall|i: int, j: int|
        0 <= i < j < rows.len() ==> #[trigger] rows[j]@[i] == d.depends(i, j)
}

/// Level of every node.
fn node_levels(rows: &Vec<Vec<bool>>, Ghost(d): Ghost<Dependencies>) -> (lv: Vec<usize>)
    requires
        matrix_ok(d, rows@),
    ensures
        lv@.len() == rows@.len(),
        forall|j: int| 0 <= j < lv@.len() ==> #[trigger] lv@[j] == d.level(j),
{
    let mut lv: Vec<usize> = Vec::new();
    for j in 0..rows.len()
        invariant
            matrix_ok(d, rows@),
            lv@.len() == j,
            forall|k: int| 0 <= k < j ==> #[trigger] lv@[k] == d.level(k),
    {
        let mut own: usize = 0;
        for i in 0..j
            invariant
                matrix_ok(d, rows@),
                j < rows@.len(),
                rows@.len() == rows.len(),
                lv@.len() == j,
                forall|k: int| 0 <= k < j ==> #[trigger] lv@[k] == d.level(k),
                own == d.level_upto(j as int, i as int),
        {
            proof {
                lemma_level_upto(d, i as int, i as int);
                assert(lv@[i as int] == d.level(i as int));
                assert(rows@[j as int]@[i as int] == d.depends(i as int, j as int));
            }
            if rows[j][i] {
                if lv[i] + 1 > own {
                    own = lv[i] + 1;
                }
            }
        }
        assert(d.level(j as int) == d.level_upto(j as int, j as int));
        lv.push(own);
    }
    lv
}

/// Partitions the nodes into levels: a node sits one level above the highest node that it
/// depends on.
pub(crate) fn levels_of(rows: &Vec<Vec<bool>>, Ghost(d): Ghost<Dependencies>) -> (levels: Vec<
    Vec<usize>,
>)
    requires
        matrix_ok(d, rows@),
    ensures
        levels_ok(d, levels@),
{
    let lv = node_levels(rows, Ghost(d));
    let mut depth: usize = 0;
    for j in 0..lv.len()
        invariant
            lv@.len() == rows@.len(),
            rows@.len() == rows.len(),
            forall|k: int| 0 <= k < lv@.len() ==> #[trigger] lv@[k] == d.level(k),
            forall|k: int| 0 <= k < j ==> (#[trigger] lv@[k]) < depth,
            depth > 0 ==> exists|k: int| 0 <= k < j && #[trigger] lv@[k] + 1 == depth,
    {
        proof {
            lemma_level_upto(d, j as int, j as int);
            assert(lv@[j as int] == d.level(j as int));
        }
        if lv[j] >= depth {
            depth = lv[j] + 1;
        }
    }
    let mut levels: Vec<Vec<usize>> = Vec::new();
    for t in 0..depth
        invariant
            lv@.len() == d.count,
            forall|k: int| 0 <= k < lv@.len() ==> #[trigger] lv@[k] == d.level(k),
            depth > 0 ==> exists|k: int| 0 <= k < lv@.len() && #[trigger] lv@[k] + 1 == depth,
            levels@.len() == t,
            forall|c: int|
                0 <= c < t ==> (#[trigger] levels@[c])@.len() > 0 && level_ok(d, levels@[c]@, c),
    {
        let mut level: Vec<usize> = Vec::new();
        for j in 0..lv.len()
            invariant
                lv@.len() == d.count,
                forall|k: int| 0 <= k < lv@.len() ==> #[trigger] lv@[k] == d.level(k),
                forall|a: int, b: int|
                    0 <= a < b < level@.len() ==> (#[trigger] level@[a]) < #[trigger] level@[b],
                forall|a: int|
                    0 <= a < level@.len() ==> (#[trigger] level@[a]) < j && d.level(
                        level@[a] as int,
                    ) == t,
                forall|k: int|
                    0 <= k < j && #[trigger] d.level(k) == t ==> level@.contains(k as usize),
        {
            assert(lv@[j as int] == d.level(j as int));
            if lv[j] == t {
                let ghost earlier = level@;
                level.push(j);
                assert forall|k: int| 0 <= k < j + 1 && #[trigger] d.level(
                    k,
                ) == t implies level@.contains(k as usize) by {
                    if k < j {
                        let a = choose|a: int|
                            0 <= a < earlier.len() && earlier[a] == k as usize;
                        assert(level@[a] == k as usize);
                    } else {
                        assert(level@[earlier.len() as int] == k as usize);
                    }
                }
            }
        }
        proof {
            let top = choose|k: int| 0 <= k < lv@.len() && #[trigger] lv@[k] + 1 == depth;
            lemma_levels_dense(d, top, t as int);
            let k = choose|k: int| 0 <= k <= top && #[trigger] d.level(k) == t;
            assert(level@.contains(k as usize));
        }
        levels.push(level);
    }
    proof {
        assert forall|j: int| 0 <= j < d.count implies 0 <= #[trigger] d.level(j)
            < levels@.len() by {
            lemma_level_upto(d, j, j);
            assert(lv@[j] == d.level(j));
        }
    }
    levels
}

/// `order` lists the nodes level by level.
pub open spec fn flattened(levels: Seq<Vec<usize>>, n: int) -> Seq<usize>
    decreases n,
{
    if n <= 0 {
        Seq::empty()
    } else {
        flattened(levels, n - 1) + levels[n - 1]@
    }
}

/// The nodes level by level: the order in which a scheduler runs them.
pub fn flatten_levels(levels: &Vec<Vec<usize>>) -> (order: Vec<usize>)
    ensures
        order@ == flattened(levels@, levels@.len() as int),
{
    let mut order: Vec<usize> = Vec::new();
    for t in 0..levels.len()
        invariant
            order@ == flattened(levels@, t as int),
    {
        let ghost head = order@;
        let level = &levels[t];
        for a in 0..level.len()
            invariant
                order@ == head + level@.subrange(0, a as int),
        {
            order.push(level[a]);
            assert(level@.subrange(0, a + 1) == level@.subrange(0, a as int).push(
                level@[a as int],
            ));
        }
        assert(level@.subrange(0, level@.len() as int) == level@);
    }
    order
}

/// The order of levels: by level, then by position.
pub open spec fn comes_first(d: Dependencies, a: usize, b: usize) -> bool {
    d.level(a as int) < d.level(b as int) || (d.level(a as int) == d.level(b as int) && a < b)
}

proof fn lemma_flattened(d: Dependencies, levels: Seq<Vec<usize>>, n: int)
    requires
        levels_ok(d, levels),
        0 <= n <= levels.len(),
    ensures
        ({
            let order = flattened(levels, n);
            &&& forall|a: int|
                0 <= a < order.len() ==> (#[trigger] order[a]) < d.count && d.level(order[a] as int)
                    < n
            &&& forall|a: int, b: int|
                0 <= a < b < order.len() ==> comes_first(
                    d,
                    #[trigger] order[a],
                    #[trigger] order[b],
                )
            &&& forall|j: int|
                0 <= j < d.count && #[trigger] d.level(j) < n ==> order.contains(j as usize)
        }),
    decreases n,
{
    if n > 0 {
        lemma_flattened(d, levels, n - 1);
        let head = flattened(levels, n - 1);
        let tail = levels[n - 1]@;
        let order = flattened(levels, n);
        assert(level_ok(d, tail, n - 1));
        assert forall|a: int| 0 <= a < order.len() implies (#[trigger] order[a]) < d.count
            && d.level(order[a] as int) < n by {
            if a < head.len() {
                assert(order[a] == head[a]);
            } else {
                assert(order[a] == tail[a - head.len()]);
            }
        }
        assert forall|a: int, b: int| 0 <= a < b < order.len() implies comes_first(
            d,
            #[trigger] order[a],
            #[trigger] order[b],
        ) by {
            if b < head.len() {
                assert(order[a] == head[a] && order[b] == head[b]);
            } else if a < head.len() {
                assert(order[a] == head[a] && order[b] == tail[b - head.len()]);
            } else {
                assert(order[a] == tail[a - head.len()] && order[b] == tail[b - head.len()]);
            }
        }
        assert forall|j: int| 0 <= j < d.count && #[trigger] d.level(
            j,
        ) < n implies order.contains(j as usize) by {
            if d.level(j) < n - 1 {
                let a = choose|a: int| 0 <= a < head.len() && head[a] == j as usize;
                assert(order[a] == j as usize);
            } else {
                level_is_the_longest_chain(d, j);
                let a = choose|a: int| 0 <= a < tail.len() && tail[a] == j as usize;
                assert(order[head.len() + a] == j as usize);
            }
        }
    } else {
        assert forall|j: int| 0 <= j < d.count implies #[trigger] d.level(j) >= 0 by {
            level_is_the_longest_chain(d, j);
        }
    }
}

/// The flattened order runs every node once, and no node before one that it depends on: nodes come by
/// level and, within a level, by position.
pub proof fn flattened_levels_respect_dependencies(
    d: Dependencies,
    levels: Seq<Vec<usize>>,
    a: int,
    b: int,
)
    requires
        levels_ok(d, levels),
        0 <= a < b < flattened(levels, levels.len() as int).len(),
    ensures
        ({
            let order = flattened(levels, levels.len() as int);
            &&& comes_first(d, order[a], order[b])
            &&& order[a] != order[b]
            &&& !d.depends(order[b] as int, order[a] as int)
            &&& forall|j: int| 0 <= j < d.count ==> #[trigger] order.contains(j as usize)
        }),
{
    let order = flattened(levels, levels.len() as int);
    lemma_flattened(d, levels, levels.len() as int);
    assert(order[a] < d.count && order[b] < d.count);
    level_is_the_longest_chain(d, order[a] as int);
    assert forall|j: int| 0 <= j < d.count implies #[trigger] order.contains(j as usize) by {
        assert(d.level(j) < levels.len());
    }
}

/// Both passes access `r` and at least one of them writes it.
pub open spec fn conflict_on(p: PassDecl, q: PassDecl, r: ResourceId) -> bool {
    (writes_of(p, r) && touches(q, r)) || (touches(p, r) && writes_of(q, r))
}

/// The two passes access a common resource that at least one of them writes.
pub open spec fn conflict(p: PassDecl, q: PassDecl) -> bool {
    exists|r: ResourceId| #[trigger] conflict_on(p, q, r)
}

/// Whether two passes access a common resource that at least one of them writes.
pub(crate) fn passes_conflict(p: &PassLayout, q: &PassLayout) -> (yes: bool)
    ensures
        yes == conflict(p.decl(), q.decl()),
{
    for i in 0..p.writes.len()
        invariant
            forall|k: int|
                0 <= k < i ==> !touches(q.decl(), (#[trigger] p.writes@[k]).0),
    {
        let r: ResourceId = p.writes[i].0;
        if pass_reads(q, r) || pass_writes(q, r) {
            assert(p.decl().writes[i as int].0 == r);
            assert(conflict_on(p.decl(), q.decl(), r));
            return true;
        }
    }
    for i in 0..q.writes.len()
        invariant
            forall|k: int|
                0 <= k < p.writes@.len() ==> !touches(q.decl(), (#[trigger] p.writes@[k]).0),
            forall|k: int|
                0 <= k < i ==> !touches(p.decl(), (#[trigger] q.writes@[k]).0),
    {
        let r: ResourceId = q.writes[i].0;
        if pass_reads(p, r) || pass_writes(p, r) {
            assert(q.decl().writes[i as int].0 == r);
            assert(conflict_on(p.decl(), q.decl(), r));
            return true;
        }
    }
    assert(!conflict(p.decl(), q.decl())) by {
        if conflict(p.decl(), q.decl()) {
            let r = choose|r: ResourceId| #[trigger] conflict_on(p.decl(), q.decl(), r);
            if writes_of(p.decl(), r) && touches(q.decl(), r) {
                let k = choose|k: int|
                    0 <= k < p.decl().writes.len() && (#[trigger] p.decl().writes[k]).0 == r;
                assert(!touches(q.decl(), p.writes@[k].0));
            } else {
                let k = choose|k: int|
                    0 <= k < q.decl().writes.len() && (#[trigger] q.decl().writes[k]).0 == r;
                assert(!touches(p.decl(), q.writes@[k].0));
            }
        }
    }
    false
}

/// Whether an explicit edge leads from `before` to `after`.
pub(crate) fn has_edge(ordering: &Vec<(PassId, PassId)>, before: PassId, after: PassId) -> (yes: bool)
    ensures
        yes == ordering@.contains((before, after)),
{
    for i in 0..ordering.len()
        invariant
            forall|k: int| 0 <= k < i ==> ordering@[k] != (before, after),
    {
        if ordering[i].0 == before && ordering[i].1 == after {
            assert(ordering@[i as int] == (before, after));
            return true;
        }
    }
    false
}

impl GraphLayout {
    /// The later pass must come after the earlier one: their accesses conflict, or an explicit
    /// edge says so.
    pub open spec fn dependencies(self) -> Dependencies {
        Dependencies {
            count: self.passes@.len(),
            relation: |i: int, j: int|
                conflict(self.passes@[i].decl(), self.passes@[j].decl())
                    || self.ordering@.contains((self.passes@[i].id, self.passes@[j].id)),
        }
    }

    /// Partitions the passes into levels: a pass sits one level above the highest pass that it
    /// depends on. Execution order is registration order; levels only say what may run
    /// concurrently.
    pub fn levels(&self) -> (levels: Vec<Vec<usize>>)
        ensures
            levels_ok(self.dependencies(), levels@),
    {
        let ghost d = self.dependencies();
        let mut rows: Vec<Vec<bool>> = Vec::new();
        for j in 0..self.passes.len()
            invariant
                d == self.dependencies(),
                rows@.len() == j,
                forall|c: int| 0 <= c < j ==> (#[trigger] rows@[c])@.len() == c,
                forall|i: int, c: int|
                    0 <= i < c < j ==> #[trigger] rows@[c]@[i] == d.depends(i, c),
        {
            let mut row: Vec<bool> = Vec::new();
            for i in 0..j
                invariant
                    d == self.dependencies(),
                    j < self.passes@.len(),
                    row@.len() == i,
                    forall|k: int| 0 <= k < i ==> #[trigger] row@[k] == d.depends(k, j as int),
            {
                let yes: bool = passes_conflict(&self.passes[i], &self.passes[j]) || has_edge(
                    &self.ordering,
                    self.passes[i].id,
                    self.passes[j].id,
                );
                row.push(yes);
            }
            rows.push(row);
        }
        levels_of(&rows, Ghost(d))
    }
}

/// Passes that need each other's results sit on levels of their own, in registration order: a pass
/// that reads or writes again what an earlier one wrote, or that writes what an earlier one read,
/// and a pass that an explicit edge puts behind another, is on a later level.
pub proof fn later_accesses_sit_on_later_levels(l: GraphLayout, i: int, j: int, x: int, y: int)
    requires
        0 <= i < j < l.passes@.len(),
    ensures
        ({
            let p = l.passes@[i];
            let q = l.passes@[j];
            let later = l.dependencies().level(i) < l.dependencies().level(j);
            &&& 0 <= x < p.writes@.len() && 0 <= y < q.reads@.len() && p.writes@[x].0 == q.reads@[y]
                ==> later
            &&& 0 <= x < p.writes@.len() && 0 <= y < q.writes@.len() && p.writes@[x].0
                == q.writes@[y].0 ==> later
            &&& 0 <= x < p.reads@.len() && 0 <= y < q.writes@.len() && p.reads@[x]
                == q.writes@[y].0 ==> later
            &&& 0 <= x < l.ordering@.len() && l.ordering@[x] == (p.id, q.id) ==> later
        }),
{
    let p = l.passes@[i].decl();
    let q = l.passes@[j].decl();
    let d = l.dependencies();
    level_is_the_longest_chain(d, j);
    if 0 <= x < p.writes.len() {
        let r = p.writes[x].0;
        assert(writes_of(p, r));
        if 0 <= y < q.reads.len() && r == q.reads[y] {
            assert(q.reads.contains(r));
            assert(conflict_on(p, q, r));
            assert(d.depends(i, j));
        }
        if 0 <= y < q.writes.len() && r == q.writes[y].0 {
            assert(writes_of(q, r));
            assert(conflict_on(p, q, r));
            assert(d.depends(i, j));
        }
    }
    if 0 <= x < p.reads.len() && 0 <= y < q.writes.len() && p.reads[x] == q.writes[y].0 {
        let r = p.reads[x];
        assert(p.reads.contains(r));
        assert(writes_of(q, r));
        assert(conflict_on(p, q, r));
        assert(d.depends(i, j));
    }
    if 0 <= x < l.ordering@.len() && l.ordering@[x] == (l.passes@[i].id, l.passes@[j].id) {
        assert(l.ordering@.contains((l.passes@[i].id, l.passes@[j].id)));
        assert(d.depends(i, j));
    }
}

/// Passes that only read what they share, and that no explicit edge joins, do not wait for each
/// other.
pub proof fn shared_reads_do_not_wait(l: GraphLayout, i: int, j: int)
    requires
        0 <= i < j < l.passes@.len(),
        forall|x: int, y: int|
            #![trigger l.passes@[i].writes@[x], l.passes@[j].reads@[y]]
            0 <= x < l.passes@[i].writes@.len() && 0 <= y < l.passes@[j].reads@.len()
                ==> l.passes@[i].writes@[x].0 != l.passes@[j].reads@[y],
        forall|x: int, y: int|
            #![trigger l.passes@[i].writes@[x], l.passes@[j].writes@[y]]
            0 <= x < l.passes@[i].writes@.len() && 0 <= y < l.passes@[j].writes@.len()
                ==> l.passes@[i].writes@[x].0 != l.passes@[j].writes@[y].0,
        forall|x: int, y: int|
            #![trigger l.passes@[i].reads@[x], l.passes@[j].writes@[y]]
            0 <= x < l.passes@[i].reads@.len() && 0 <= y < l.passes@[j].writes@.len()
                ==> l.passes@[i].reads@[x] != l.passes@[j].writes@[y].0,
        !l.ordering@.contains((l.passes@[i].id, l.passes@[j].id)),
    ensures
        !l.dependencies().depends(i, j),
{
    let p = l.passes@[i].decl();
    let q = l.passes@[j].decl();
    assert forall|r: ResourceId| !#[trigger] conflict_on(p, q, r) by {
        if writes_of(p, r) {
            let x = choose|x: int| 0 <= x < p.writes.len() && (#[trigger] p.writes[x]).0 == r;
            assert(l.passes@[i].writes@[x].0 == r);
            if q.reads.contains(r) {
                let y = choose|y: int| 0 <= y < q.reads.len() && q.reads[y] == r;
                assert(l.passes@[j].reads@[y] == r);
            }
            if writes_of(q, r) {
                let y = choose|y: int| 0 <= y < q.writes.len() && (#[trigger] q.writes[y]).0 == r;
                assert(l.passes@[j].writes@[y].0 == r);
            }
        }
        if writes_of(q, r) && p.reads.contains(r) {
            let y = choose|y: int| 0 <= y < q.writes.len() && (#[trigger] q.writes[y]).0 == r;
            let x = choose|x: int| 0 <= x < p.reads.len() && p.reads[x] == r;
            assert(l.passes@[i].reads@[x] == l.passes@[j].writes@[y].0);
        }
    }
}

} // verus!
