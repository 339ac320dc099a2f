//! Laws of the dumps of a layout: nothing that the layout holds is left out.
use vstd::prelude::*;
#[allow(unused_imports)]
use vstd::string::*;

use crate::declarations::{Color, ResourceId};
use crate::dump;
use crate::layout::GraphLayout;
use crate::levels::levels_ok;
use crate::shaders::declaration_laws;
use crate::shaders::declaration_laws::has;
use crate::text;

verus! {

proof fn lemma_either(a: Seq<char>, b: Seq<char>, needle: Seq<char>)
    requires
        has(a, needle) || has(b, needle),
    ensures
        has(a + b, needle),
{
    if has(a, needle) {
        declaration_laws::lemma_has_left(a, b, needle);
    } else {
        declaration_laws::lemma_has_right(a, b, needle);
    }
}

/// The edge from a read resource to a pass.
pub open spec fn read_edge(r: ResourceId, p: int) -> Seq<char> {
    "    R"@ + text::decimal(r.0 as nat) + " --> P"@ + text::decimal(p as nat) + "\n"@
}

/// The edge from a pass to a written resource.
pub open spec fn write_edge(p: int, r: ResourceId) -> Seq<char> {
    "    P"@ + text::decimal(p as nat) + " --> R"@ + text::decimal(r.0 as nat) + "\n"@
}

proof fn lemma_reads(reads: Seq<ResourceId>, p: int, n: int, k: int)
    requires
        0 <= k < n <= reads.len(),
    ensures
        has(dump::chart_reads(reads, p, n), read_edge(reads[k], p)),
    decreases n,
{
    if k == n - 1 {
        declaration_laws::lemma_has_self(read_edge(reads[k], p));
    } else {
        lemma_reads(reads, p, n - 1, k);
    }
    lemma_either(
        dump::chart_reads(reads, p, n - 1),
        read_edge(reads[n - 1], p),
        read_edge(reads[k], p),
    );
}

proof fn lemma_writes(writes: Seq<(ResourceId, Option<Color>)>, p: int, n: int, k: int)
    requires
        0 <= k < n <= writes.len(),
    ensures
        has(dump::chart_writes(writes, p, n), write_edge(p, writes[k].0)),
    decreases n,
{
    if k == n - 1 {
        declaration_laws::lemma_has_self(write_edge(p, writes[k].0));
    } else {
        lemma_writes(writes, p, n - 1, k);
    }
    lemma_either(
        dump::chart_writes(writes, p, n - 1),
        write_edge(p, writes[n - 1].0),
        write_edge(p, writes[k].0),
    );
}

/// The edges of pass `p` are among those of the first `n` passes.
proof fn lemma_edges(l: GraphLayout, n: int, p: int, needle: Seq<char>)
    requires
        0 <= p < n <= l.passes@.len(),
        has(
            dump::chart_reads(l.passes@[p].reads@, p, l.passes@[p].reads@.len() as int),
            needle,
        ) || has(
            dump::chart_writes(l.passes@[p].writes@, p, l.passes@[p].writes@.len() as int),
            needle,
        ),
    ensures
        has(dump::chart_edges(l, n), needle),
    decreases n,
{
    let rest = dump::chart_edges(l, n - 1);
    let q = l.passes@[n - 1];
    let reads = dump::chart_reads(q.reads@, n - 1, q.reads@.len() as int);
    let writes = dump::chart_writes(q.writes@, n - 1, q.writes@.len() as int);
    if p < n - 1 {
        lemma_edges(l, n - 1, p, needle);
        lemma_either(rest, reads, needle);
        lemma_either(rest + reads, writes, needle);
    } else if has(reads, needle) {
        lemma_either(rest, reads, needle);
        lemma_either(rest + reads, writes, needle);
    } else {
        lemma_either(rest + reads, writes, needle);
    }
}

proof fn lemma_chart_has_edge(l: GraphLayout, levels: Seq<Vec<usize>>, needle: Seq<char>)
    requires
        has(dump::chart_edges(l, l.passes@.len() as int), needle),
    ensures
        has(dump::chart_text(l, levels), needle),
{
    lemma_either(
        "flowchart TD\n"@ + dump::chart_levels(l, levels, levels.len() as int)
            + dump::chart_resources(l, l.resources@.len() as int),
        dump::chart_edges(l, l.passes@.len() as int),
        needle,
    );
}

/// The flowchart draws every access as an edge: from a read resource to the pass, and from the pass to
/// a written one.
pub proof fn the_chart_draws_every_access(
    l: GraphLayout,
    levels: Seq<Vec<usize>>,
    p: int,
    k: int,
)
    requires
        0 <= p < l.passes@.len(),
    ensures
        0 <= k < l.passes@[p].reads@.len() ==> has(
            dump::chart_text(l, levels),
            read_edge(l.passes@[p].reads@[k], p),
        ),
        0 <= k < l.passes@[p].writes@.len() ==> has(
            dump::chart_text(l, levels),
            write_edge(p, l.passes@[p].writes@[k].0),
        ),
{
    let pass = l.passes@[p];
    if 0 <= k < pass.reads@.len() {
        lemma_reads(pass.reads@, p, pass.reads@.len() as int, k);
        lemma_edges(l, l.passes@.len() as int, p, read_edge(pass.reads@[k], p));
        lemma_chart_has_edge(l, levels, read_edge(pass.reads@[k], p));
    }
    if 0 <= k < pass.writes@.len() {
        lemma_writes(pass.writes@, p, pass.writes@.len() as int, k);
        lemma_edges(l, l.passes@.len() as int, p, write_edge(p, pass.writes@[k].0));
        lemma_chart_has_edge(l, levels, write_edge(p, pass.writes@[k].0));
    }
}

/// The node of a pass.
pub open spec fn pass_node(l: GraphLayout, p: int) -> Seq<char> {
    "        P"@ + text::decimal(p as nat) + "[\""@ + l.passes@[p].name@ + "\"]\n"@
}

/// The head of the box of a level.
pub open spec fn level_head(t: int) -> Seq<char> {
    "    subgraph L"@ + text::decimal(t as nat) + "[\"level "@ + text::decimal(t as nat) + "\"]\n"@
}

proof fn lemma_level_passes(l: GraphLayout, level: Seq<usize>, n: int, a: int)
    requires
        0 <= a < n <= level.len(),
    ensures
        has(dump::chart_level_passes(l, level, n), pass_node(l, level[a] as int)),
    decreases n,
{
    let needle = pass_node(l, level[a] as int);
    if a == n - 1 {
        declaration_laws::lemma_has_self(needle);
    } else {
        lemma_level_passes(l, level, n - 1, a);
    }
    lemma_either(
        dump::chart_level_passes(l, level, n - 1),
        dump::chart_pass(l, level[n - 1] as int),
        needle,
    );
}

proof fn lemma_levels(l: GraphLayout, levels: Seq<Vec<usize>>, n: int, t: int)
    requires
        0 <= t < n <= levels.len(),
    ensures
        has(dump::chart_levels(l, levels, n), dump::chart_level(l, levels, t)),
    decreases n,
{
    let needle = dump::chart_level(l, levels, t);
    if t == n - 1 {
        declaration_laws::lemma_has_self(needle);
    } else {
        lemma_levels(l, levels, n - 1, t);
    }
    lemma_either(
        dump::chart_levels(l, levels, n - 1),
        dump::chart_level(l, levels, n - 1),
        needle,
    );
}

/// A box of the flowchart: one that starts with the head of level `t`.
pub open spec fn is_box(chart: Seq<char>, level: Seq<char>, t: int) -> bool {
    &&& has(chart, level)
    &&& text::occurs_at(level, level_head(t), 0)
}

/// The flowchart shows every pass under its number and name, in the box of its level.
pub proof fn the_chart_shows_every_pass_in_its_level(
    l: GraphLayout,
    levels: Seq<Vec<usize>>,
    p: int,
)
    requires
        levels_ok(l.dependencies(), levels),
        0 <= p < l.passes@.len(),
        l.passes@.len() <= usize::MAX,
    ensures
        exists|level: Seq<char>| #[trigger]
            is_box(dump::chart_text(l, levels), level, l.dependencies().level(p)) && has(
                level,
                pass_node(l, p),
            ),
{
    let d = l.dependencies();
    let t = d.level(p);
    assert(crate::levels::level_ok(d, levels[t]@, t));
    assert(levels[t]@.contains(p as usize));
    let a = choose|a: int| 0 <= a < levels[t]@.len() && levels[t]@[a] == p as usize;
    let n = levels[t]@.len() as int;
    lemma_level_passes(l, levels[t]@, n, a);
    let level = dump::chart_level(l, levels, t);
    let head = level_head(t);
    let inner = dump::chart_level_passes(l, levels[t]@, n);
    assert(level =~= head + inner + "    end\n"@);
    lemma_either(head, inner, pass_node(l, p));
    lemma_either(head + inner, "    end\n"@, pass_node(l, p));
    assert(level.subrange(0, head.len() as int) =~= head);
    lemma_levels(l, levels, levels.len() as int, t);
    let boxes = dump::chart_levels(l, levels, levels.len() as int);
    let rest = dump::chart_resources(l, l.resources@.len() as int);
    lemma_either("flowchart TD\n"@, boxes, level);
    lemma_either("flowchart TD\n"@ + boxes, rest, level);
    lemma_either(
        "flowchart TD\n"@ + boxes + rest,
        dump::chart_edges(l, l.passes@.len() as int),
        level,
    );
    assert(is_box(dump::chart_text(l, levels), level, t));
}

/// The line of a pass, up to its accesses.
pub open spec fn pass_head(l: GraphLayout, i: int) -> Seq<char> {
    "  pass "@ + text::decimal(i as nat) + " '"@ + l.passes@[i].name@ + "' read["@
}

/// A line of the dump that starts with the head of pass `i`.
pub open spec fn is_pass_line(l: GraphLayout, line: Seq<char>, i: int) -> bool {
    &&& has(l.dump_text(), line)
    &&& text::occurs_at(line, pass_head(l, i), 0)
}

proof fn lemma_joined_holds(parts: Seq<Seq<char>>, sep: Seq<char>, i: int)
    requires
        0 <= i < parts.len(),
    ensures
        has(text::joined(parts, sep), parts[i]),
    decreases parts.len(),
{
    declaration_laws::lemma_has_self(parts[i]);
    if parts.len() > 1 {
        let rest = text::joined(parts.drop_last(), sep);
        if i < parts.len() - 1 {
            lemma_joined_holds(parts.drop_last(), sep, i);
        }
        if i < parts.len() - 1 {
            lemma_either(rest, sep, parts[i]);
        }
        lemma_either(rest + sep, parts.last(), parts[i]);
    }
}

proof fn lemma_dump_passes(l: GraphLayout, n: int, i: int)
    requires
        0 <= i < n,
    ensures
        has(l.dump_passes(n), l.dump_pass(i)),
    decreases n,
{
    if i == n - 1 {
        declaration_laws::lemma_has_self(l.dump_pass(i));
    } else {
        lemma_dump_passes(l, n - 1, i);
    }
    lemma_either(l.dump_passes(n - 1), l.dump_pass(n - 1), l.dump_pass(i));
}

/// The dump has a line for every pass, which names all that it reads and all that it writes.
pub proof fn the_dump_names_every_access(l: GraphLayout, i: int, k: int)
    requires
        0 <= i < l.passes@.len(),
    ensures
        exists|line: Seq<char>| #[trigger]
            is_pass_line(l, line, i) && (0 <= k < l.passes@[i].reads@.len() ==> has(
                line,
                l.resources@[l.passes@[i].reads@[k].0 as int].name@,
            )) && (0 <= k < l.passes@[i].writes@.len() ==> has(
                line,
                l.resources@[l.passes@[i].writes@[k].0.0 as int].name@,
            )),
{
    let p = l.passes@[i];
    let line = l.dump_pass(i);
    let head = pass_head(l, i);
    let reads = dump::names_of(l.resources@, p.reads@);
    let writes = dump::names_of(l.resources@, dump::written_ids(p.writes@));
    let a = text::joined(reads, ", "@);
    let b = text::joined(writes, ", "@);
    assert(line =~= head + a + "] write["@ + b + "]\n"@);
    assert(line.subrange(0, head.len() as int) =~= head);
    if 0 <= k < p.reads@.len() {
        let needle = l.resources@[p.reads@[k].0 as int].name@;
        assert(reads[k] == needle);
        lemma_joined_holds(reads, ", "@, k);
        lemma_either(head, a, needle);
        lemma_either(head + a, "] write["@, needle);
        lemma_either(head + a + "] write["@, b, needle);
        lemma_either(head + a + "] write["@ + b, "]\n"@, needle);
    }
    if 0 <= k < p.writes@.len() {
        let needle = l.resources@[p.writes@[k].0.0 as int].name@;
        assert(writes[k] == needle);
        lemma_joined_holds(writes, ", "@, k);
        lemma_either(head + a + "] write["@, b, needle);
        lemma_either(head + a + "] write["@ + b, "]\n"@, needle);
    }
    let passes = l.dump_passes(l.passes@.len() as int);
    let resources = l.dump_resources(l.resources@.len() as int);
    let slots = l.dump_slots(l.slots@.len() as int);
    lemma_dump_passes(l, l.passes@.len() as int, i);
    lemma_either(l.dump_head(), passes, line);
    lemma_either(l.dump_head() + passes, resources, line);
    lemma_either(l.dump_head() + passes + resources, slots, line);
    assert(is_pass_line(l, line, i));
}

} // verus!
