//! Textual projections of a layout: the debug dump and the flowchart.
use vstd::prelude::*;
#[allow(unused_imports)]
use vstd::string::*;

use crate::declarations::{ResourceId, SizePolicy, TextureFormat, TextureSpec};
use crate::layout::{GraphLayout, ResourceLayout};
#[allow(unused_imports)]
use crate::layout::pool_slot_ok;
#[allow(unused_imports)]
use crate::levels::{level_ok, levels_ok};
use crate::text::{join, push_decimal};
#[allow(unused_imports)]
use crate::text::{decimal, joined, texts};
#[allow(unused_imports)]
use crate::declarations::{touches, Color};

verus! {

impl TextureFormat {
    /// Name of the format.
    pub open spec fn name_text(self) -> Seq<char> {
        match self {
            TextureFormat::Rgba8Unorm => "Rgba8Unorm"@,
            TextureFormat::Rgba8UnormSrgb => "Rgba8UnormSrgb"@,
            TextureFormat::Bgra8Unorm => "Bgra8Unorm"@,
            TextureFormat::Bgra8UnormSrgb => "Bgra8UnormSrgb"@,
            TextureFormat::Rg16Float => "Rg16Float"@,
            TextureFormat::R32Uint => "R32Uint"@,
            TextureFormat::R32Float => "R32Float"@,
            TextureFormat::Rgba16Float => "Rgba16Float"@,
            TextureFormat::Rgba32Float => "Rgba32Float"@,
            TextureFormat::Depth32Float => "Depth32Float"@,
        }
    }

    /// Name of the format.
    pub fn name(&self) -> (s: &'static str)
        ensures
            s@ == self.name_text(),
    {
        match self {
            TextureFormat::Rgba8Unorm => "Rgba8Unorm",
            TextureFormat::Rgba8UnormSrgb => "Rgba8UnormSrgb",
            TextureFormat::Bgra8Unorm => "Bgra8Unorm",
            TextureFormat::Bgra8UnormSrgb => "Bgra8UnormSrgb",
            TextureFormat::Rg16Float => "Rg16Float",
            TextureFormat::R32Uint => "R32Uint",
            TextureFormat::R32Float => "R32Float",
            TextureFormat::Rgba16Float => "Rgba16Float",
            TextureFormat::Rgba32Float => "Rgba32Float",
            TextureFormat::Depth32Float => "Depth32Float",
        }
    }
}

/// A size policy as text.
pub open spec fn size_text(size: SizePolicy) -> Seq<char> {
    match size {
        SizePolicy::MatchSurface => "MatchSurface"@,
        SizePolicy::Fraction(d) => "Fraction("@ + decimal(d as nat) + ")"@,
        SizePolicy::Fixed { width, height } => "Fixed { width: "@ + decimal(width as nat)
            + ", height: "@ + decimal(height as nat) + " }"@,
    }
}

/// A texture specification as text.
pub open spec fn spec_text(spec: TextureSpec) -> Seq<char> {
    "TextureSpec { format: "@ + spec.format.name_text() + ", samples: "@ + decimal(
        spec.samples as nat,
    ) + ", size: "@ + size_text(spec.size) + " }"@
}

/// A slot assignment as text.
pub open spec fn slot_text(slot: Option<usize>) -> Seq<char> {
    match slot {
        None => "None"@,
        Some(j) => "Some("@ + decimal(j as nat) + ")"@,
    }
}

fn push_size(out: &mut String, size: SizePolicy)
    ensures
        final(out)@ == old(out)@ + size_text(size),
{
    match size {
        SizePolicy::MatchSurface => {
            out.append("MatchSurface");
        },
        SizePolicy::Fraction(d) => {
            out.append("Fraction(");
            push_decimal(out, d as u64);
            out.append(")");
        },
        SizePolicy::Fixed { width, height } => {
            out.append("Fixed { width: ");
            push_decimal(out, width as u64);
            out.append(", height: ");
            push_decimal(out, height as u64);
            out.append(" }");
        },
    }
}

fn push_spec(out: &mut String, spec: TextureSpec)
    ensures
        final(out)@ == old(out)@ + spec_text(spec),
{
    out.append("TextureSpec { format: ");
    out.append(spec.format.name());
    out.append(", samples: ");
    push_decimal(out, spec.samples as u64);
    out.append(", size: ");
    push_size(out, spec.size);
    out.append(" }");
}

fn push_slot(out: &mut String, slot: Option<usize>)
    ensures
        final(out)@ == old(out)@ + slot_text(slot),
{
    match slot {
        None => {
            out.append("None");
        },
        Some(j) => {
            out.append("Some(");
            push_decimal(out, j as u64);
            out.append(")");
        },
    }
}

/// Names of the listed resources.
pub open spec fn names_of(rs: Seq<ResourceLayout>, ids: Seq<ResourceId>) -> Seq<Seq<char>> {
    ids.map_values(|r: ResourceId| rs[r.0 as int].name@)
}

/// Resources that a list of writes names.
pub open spec fn written_ids(writes: Seq<(ResourceId, Option<Color>)>) -> Seq<ResourceId> {
    writes.map_values(|w: (ResourceId, Option<Color>)| w.0)
}

/// Names of the listed resources, joined with commas.
pub(crate) fn names_joined(rs: &Vec<ResourceLayout>, ids: &Vec<ResourceId>) -> (out: String)
    requires
        forall|k: int| 0 <= k < ids@.len() ==> (#[trigger] ids@[k]).0 < rs@.len(),
    ensures
        out@ == joined(names_of(rs@, ids@), ", "@),
{
    let mut names: Vec<String> = Vec::new();
    for i in 0..ids.len()
        invariant
            forall|k: int| 0 <= k < ids@.len() ==> (#[trigger] ids@[k]).0 < rs@.len(),
            names@.len() == i,
            forall|k: int|
                0 <= k < i ==> (#[trigger] names@[k])@ == rs@[ids@[k].0 as int].name@,
    {
        let r: ResourceId = ids[i];
        names.push(rs[r.0 as usize].name.clone());
    }
    assert(texts(names@) =~= names_of(rs@, ids@));
    join(&names, ", ")
}

fn written(writes: &Vec<(ResourceId, Option<Color>)>) -> (ids: Vec<ResourceId>)
    ensures
        ids@ == written_ids(writes@),
{
    let mut ids: Vec<ResourceId> = Vec::new();
    for i in 0..writes.len()
        invariant
            ids@.len() == i,
            forall|k: int| 0 <= k < i ==> #[trigger] ids@[k] == writes@[k].0,
    {
        ids.push(writes[i].0);
    }
    assert(ids@ =~= written_ids(writes@));
    ids
}

impl GraphLayout {
    /// First line of the dump.
    pub open spec fn dump_head(self) -> Seq<char> {
        "render graph: "@ + decimal(self.passes@.len()) + " passes, "@ + decimal(
            self.resources@.len(),
        ) + " resources, "@ + decimal(self.slots@.len()) + " pool slots (surface ("@ + decimal(
            self.surface_size.0 as nat,
        ) + ", "@ + decimal(self.surface_size.1 as nat) + "))\n"@
    }

    /// Line of pass `i`.
    pub open spec fn dump_pass(self, i: int) -> Seq<char> {
        let p = self.passes@[i];
        "  pass "@ + decimal(i as nat) + " '"@ + p.name@ + "' read["@ + joined(
            names_of(self.resources@, p.reads@),
            ", "@,
        ) + "] write["@ + joined(names_of(self.resources@, written_ids(p.writes@)), ", "@)
            + "]\n"@
    }

    /// Line of resource `i`.
    pub open spec fn dump_resource(self, i: int) -> Seq<char> {
        let r = self.resources@[i];
        if r.first_use == usize::MAX {
            "  resource '"@ + r.name@ + "' UNUSED\n"@
        } else {
            "  resource '"@ + r.name@ + "' ("@ + spec_text(r.spec) + ") passes "@ + decimal(
                r.first_use as nat,
            ) + "..="@ + decimal(r.last_use as nat) + " slot "@ + slot_text(r.slot) + "\n"@
        }
    }

    /// Line of slot `j`.
    pub open spec fn dump_slot(self, j: int) -> Seq<char> {
        let s = self.slots@[j];
        "  slot #"@ + decimal(s.index as nat) + " "@ + spec_text(s.spec) + " passes "@ + decimal(
            s.first_pass as nat,
        ) + "..="@ + decimal(s.last_pass as nat) + ": "@ + joined(
            names_of(self.resources@, s.resources@),
            ", "@,
        ) + "\n"@
    }

    /// Lines of the first `n` passes.
    pub open spec fn dump_passes(self, n: int) -> Seq<char>
        decreases n,
    {
        if n <= 0 {
            Seq::empty()
        } else {
            self.dump_passes(n - 1) + self.dump_pass(n - 1)
        }
    }

    /// Lines of the first `n` resources.
    pub open spec fn dump_resources(self, n: int) -> Seq<char>
        decreases n,
    {
        if n <= 0 {
            Seq::empty()
        } else {
            self.dump_resources(n - 1) + self.dump_resource(n - 1)
        }
    }

    /// Lines of the first `n` slots.
    pub open spec fn dump_slots(self, n: int) -> Seq<char>
        decreases n,
    {
        if n <= 0 {
            Seq::empty()
        } else {
            self.dump_slots(n - 1) + self.dump_slot(n - 1)
        }
    }

    /// The whole dump: a head line, then the passes, the resources and the slots.
    pub open spec fn dump_text(self) -> Seq<char> {
        self.dump_head() + self.dump_passes(self.passes@.len() as int) + self.dump_resources(
            self.resources@.len() as int,
        ) + self.dump_slots(self.slots@.len() as int)
    }

    fn push_pass(&self, out: &mut String, i: usize)
        requires
            self.wf(),
            i < self.passes@.len(),
        ensures
            final(out)@ == old(out)@ + self.dump_pass(i as int),
    {
        let pass = &self.passes[i];
        let writes = written(&pass.writes);
        proof {
            let d = pass.decl();
            assert forall|k: int| 0 <= k < pass.reads@.len() implies (#[trigger] pass.reads@[k]).0
                < self.resources@.len() by {
                assert(d.reads.contains(d.reads[k]));
                assert(touches(self.passes@[i as int].decl(), pass.reads@[k]));
            }
            assert forall|k: int| 0 <= k < writes@.len() implies (#[trigger] writes@[k]).0
                < self.resources@.len() by {
                assert(d.writes[k].0 == writes@[k]);
                assert(touches(self.passes@[i as int].decl(), writes@[k]));
            }
        }
        out.append("  pass ");
        push_decimal(out, i as u64);
        out.append(" '");
        out.append(pass.name.as_str());
        out.append("' read[");
        out.append(names_joined(&self.resources, &pass.reads).as_str());
        out.append("] write[");
        out.append(names_joined(&self.resources, &writes).as_str());
        out.append("]\n");
    }

    fn push_resource(&self, out: &mut String, i: usize)
        requires
            i < self.resources@.len(),
        ensures
            final(out)@ == old(out)@ + self.dump_resource(i as int),
    {
        let r = &self.resources[i];
        out.append("  resource '");
        out.append(r.name.as_str());
        if r.first_use == usize::MAX {
            out.append("' UNUSED\n");
        } else {
            out.append("' (");
            push_spec(out, r.spec);
            out.append(") passes ");
            push_decimal(out, r.first_use as u64);
            out.append("..=");
            push_decimal(out, r.last_use as u64);
            out.append(" slot ");
            push_slot(out, r.slot);
            out.append("\n");
        }
    }

    fn push_pool_slot(&self, out: &mut String, j: usize)
        requires
            self.wf(),
            j < self.slots@.len(),
        ensures
            final(out)@ == old(out)@ + self.dump_slot(j as int),
    {
        let s = &self.slots[j];
        assert(pool_slot_ok(self.slots@, self.resources@, j as int));
        out.append("  slot #");
        push_decimal(out, s.index as u64);
        out.append(" ");
        push_spec(out, s.spec);
        out.append(" passes ");
        push_decimal(out, s.first_pass as u64);
        out.append("..=");
        push_decimal(out, s.last_pass as u64);
        out.append(": ");
        out.append(names_joined(&self.resources, &s.resources).as_str());
        out.append("\n");
    }

    /// Textual layout dump for debugging and reporting.
    pub fn debug_dump(&self) -> (out: String)
        requires
            self.wf(),
        ensures
            out@ == self.dump_text(),
    {
        let mut out = String::new();
        out.append("render graph: ");
        push_decimal(&mut out, self.passes.len() as u64);
        out.append(" passes, ");
        push_decimal(&mut out, self.resources.len() as u64);
        out.append(" resources, ");
        push_decimal(&mut out, self.slots.len() as u64);
        out.append(" pool slots (surface (");
        push_decimal(&mut out, self.surface_size.0 as u64);
        out.append(", ");
        push_decimal(&mut out, self.surface_size.1 as u64);
        out.append("))\n");
        assert(out@ == self.dump_head());
        let ghost head = out@;
        for i in 0..self.passes.len()
            invariant
                self.wf(),
                out@ == head + self.dump_passes(i as int),
        {
            self.push_pass(&mut out, i);
            assert(out@ == head + self.dump_passes(i + 1));
        }
        let ghost head = out@;
        for i in 0..self.resources.len()
            invariant
                self.wf(),
                out@ == head + self.dump_resources(i as int),
        {
            self.push_resource(&mut out, i);
            assert(out@ == head + self.dump_resources(i + 1));
        }
        let ghost head = out@;
        for i in 0..self.slots.len()
            invariant
                self.wf(),
                out@ == head + self.dump_slots(i as int),
        {
            self.push_pool_slot(&mut out, i);
            assert(out@ == head + self.dump_slots(i + 1));
        }
        out
    }
}

/// Node of pass `p` in the flowchart.
pub open spec fn chart_pass(l: GraphLayout, p: int) -> Seq<char> {
    "        P"@ + decimal(p as nat) + "[\""@ + l.passes@[p].name@ + "\"]\n"@
}

/// Nodes of the first `n` passes of a level.
pub open spec fn chart_level_passes(l: GraphLayout, level: Seq<usize>, n: int) -> Seq<char>
    decreases n,
{
    if n <= 0 {
        Seq::empty()
    } else {
        chart_level_passes(l, level, n - 1) + chart_pass(l, level[n - 1] as int)
    }
}

/// Box of level `t`.
pub open spec fn chart_level(l: GraphLayout, levels: Seq<Vec<usize>>, t: int) -> Seq<char> {
    "    subgraph L"@ + decimal(t as nat) + "[\"level "@ + decimal(t as nat) + "\"]\n"@
        + chart_level_passes(l, levels[t]@, levels[t]@.len() as int) + "    end\n"@
}

/// Boxes of the first `n` levels.
pub open spec fn chart_levels(l: GraphLayout, levels: Seq<Vec<usize>>, n: int) -> Seq<char>
    decreases n,
{
    if n <= 0 {
        Seq::empty()
    } else {
        chart_levels(l, levels, n - 1) + chart_level(l, levels, n - 1)
    }
}

/// Node of resource `i`; nothing if no pass uses it.
pub open spec fn chart_resource(l: GraphLayout, i: int) -> Seq<char> {
    let r = l.resources@[i];
    if r.first_use == usize::MAX {
        Seq::empty()
    } else {
        "    R"@ + decimal(i as nat) + "[\""@ + r.name@ + " "@ + r.spec.format.name_text()
            + "\"]\n"@
    }
}

/// Nodes of the first `n` resources.
pub open spec fn chart_resources(l: GraphLayout, n: int) -> Seq<char>
    decreases n,
{
    if n <= 0 {
        Seq::empty()
    } else {
        chart_resources(l, n - 1) + chart_resource(l, n - 1)
    }
}

/// Edges from the first `n` read resources to pass `p`.
pub open spec fn chart_reads(reads: Seq<ResourceId>, p: int, n: int) -> Seq<char>
    decreases n,
{
    if n <= 0 {
        Seq::empty()
    } else {
        chart_reads(reads, p, n - 1) + ("    R"@ + decimal(reads[n - 1].0 as nat) + " --> P"@
            + decimal(p as nat) + "\n"@)
    }
}

/// Edges from pass `p` to the first `n` written resources.
pub open spec fn chart_writes(
    writes: Seq<(ResourceId, Option<Color>)>,
    p: int,
    n: int,
) -> Seq<char>
    decreases n,
{
    if n <= 0 {
        Seq::empty()
    } else {
        chart_writes(writes, p, n - 1) + ("    P"@ + decimal(p as nat) + " --> R"@ + decimal(
            writes[n - 1].0.0 as nat,
        ) + "\n"@)
    }
}

/// Edges of the first `n` passes.
pub open spec fn chart_edges(l: GraphLayout, n: int) -> Seq<char>
    decreases n,
{
    if n <= 0 {
        Seq::empty()
    } else {
        let p = l.passes@[n - 1];
        chart_edges(l, n - 1) + chart_reads(p.reads@, n - 1, p.reads@.len() as int)
            + chart_writes(p.writes@, n - 1, p.writes@.len() as int)
    }
}

/// The flowchart: levels as boxes of passes, live resources as nodes, accesses as edges.
pub open spec fn chart_text(l: GraphLayout, levels: Seq<Vec<usize>>) -> Seq<char> {
    "flowchart TD\n"@ + chart_levels(l, levels, levels.len() as int) + chart_resources(
        l,
        l.resources@.len() as int,
    ) + chart_edges(l, l.passes@.len() as int)
}

impl GraphLayout {
    fn push_level(&self, out: &mut String, levels: &Vec<Vec<usize>>, t: usize)
        requires
            levels_ok(self.dependencies(), levels@),
            t < levels@.len(),
        ensures
            final(out)@ == old(out)@ + chart_level(*self, levels@, t as int),
    {
        let level = &levels[t];
        out.append("    subgraph L");
        push_decimal(out, t as u64);
        out.append("[\"level ");
        push_decimal(out, t as u64);
        out.append("\"]\n");
        let ghost head = out@;
        for k in 0..level.len()
            invariant
                levels_ok(self.dependencies(), levels@),
                t < levels@.len(),
                level == levels@[t as int],
                out@ == head + chart_level_passes(*self, level@, k as int),
        {
            assert(level_ok(self.dependencies(), levels@[t as int]@, t as int));
            assert(levels@[t as int]@[k as int] < self.passes@.len());
            let p: usize = level[k];
            out.append("        P");
            push_decimal(out, p as u64);
            out.append("[\"");
            out.append(self.passes[p].name.as_str());
            out.append("\"]\n");
            assert(out@ == head + chart_level_passes(*self, level@, k + 1));
        }
        out.append("    end\n");
    }

    fn push_edges(&self, out: &mut String, p: usize)
        requires
            p < self.passes@.len(),
        ensures
            final(out)@ == old(out)@ + chart_reads(
                self.passes@[p as int].reads@,
                p as int,
                self.passes@[p as int].reads@.len() as int,
            ) + chart_writes(
                self.passes@[p as int].writes@,
                p as int,
                self.passes@[p as int].writes@.len() as int,
            ),
    {
        let pass = &self.passes[p];
        let ghost head = out@;
        for k in 0..pass.reads.len()
            invariant
                out@ == head + chart_reads(pass.reads@, p as int, k as int),
        {
            out.append("    R");
            push_decimal(out, pass.reads[k].0 as u64);
            out.append(" --> P");
            push_decimal(out, p as u64);
            out.append("\n");
            assert(out@ == head + chart_reads(pass.reads@, p as int, k + 1));
        }
        let ghost head = out@;
        for k in 0..pass.writes.len()
            invariant
                out@ == head + chart_writes(pass.writes@, p as int, k as int),
        {
            out.append("    P");
            push_decimal(out, p as u64);
            out.append(" --> R");
            push_decimal(out, pass.writes[k].0.0 as u64);
            out.append("\n");
            assert(out@ == head + chart_writes(pass.writes@, p as int, k + 1));
        }
    }

    /// The layout as a Mermaid flowchart: levels as subgraphs, live resources as nodes, reads
    /// and writes as edges.
    pub fn mermaid(&self) -> (out: String)
        ensures
            exists|levels: Seq<Vec<usize>>|
                #[trigger] levels_ok(self.dependencies(), levels) && out@ == chart_text(
                    *self,
                    levels,
                ),
    {
        let levels = self.levels();
        let mut out = String::new();
        out.append("flowchart TD\n");
        let ghost head = out@;
        assert(head == "flowchart TD\n"@);
        for t in 0..levels.len()
            invariant
                levels_ok(self.dependencies(), levels@),
                out@ == head + chart_levels(*self, levels@, t as int),
        {
            self.push_level(&mut out, &levels, t);
            assert(out@ == head + chart_levels(*self, levels@, t + 1));
        }
        let ghost head = out@;
        for i in 0..self.resources.len()
            invariant
                out@ == head + chart_resources(*self, i as int),
        {
            let r = &self.resources[i];
            if r.first_use != usize::MAX {
                out.append("    R");
                push_decimal(&mut out, i as u64);
                out.append("[\"");
                out.append(r.name.as_str());
                out.append(" ");
                out.append(r.spec.format.name());
                out.append("\"]\n");
            }
            assert(out@ == head + chart_resources(*self, i + 1));
        }
        let ghost head = out@;
        for p in 0..self.passes.len()
            invariant
                out@ == head + chart_edges(*self, p as int),
        {
            self.push_edges(&mut out, p);
            assert(out@ == head + chart_edges(*self, p + 1));
        }
        assert(out@ == chart_text(*self, levels@));
        out
    }
}

} // verus!
