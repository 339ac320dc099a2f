//! Ordered assembly of shader modules.
use vstd::prelude::*;
#[allow(unused_imports)]
use vstd::string::*;

use crate::shaders;
use crate::shaders::{resource_decls, Resource};
use crate::text;

verus! {

/// A declaration closed by `};` and a line feed.
pub open spec fn closed_decl(source: Seq<char>) -> Seq<char> {
    text::trimmed_end(source) + ";\n"@
}

/// A type declaration, closed the way modules spell it: trailing white space dropped, then `;`
/// and a line feed.
pub fn wgsl_decl(source: &str) -> (out: String)
    ensures
        out@ == closed_decl(source@),
{
    let mut out: String = text::trim_end(source).to_owned();
    out.append(";\n");
    out
}

/// Pieces of a shader module by section. [`emit`](ShaderModule::emit) owns the order of the
/// sections, so a declaration stands before its uses whatever the order of the calls.
#[derive(Debug)]
pub struct ShaderModule {
    decls: Vec<String>,
    resources: Vec<String>,
    consts: Vec<String>,
    helpers: Vec<String>,
    entries: Vec<String>,
}

/// View of a [`ShaderModule`].
#[verifier::ext_equal]
pub struct ModuleView {
    pub decls: Seq<Seq<char>>,
    pub resources: Seq<Seq<char>>,
    pub consts: Seq<Seq<char>>,
    pub helpers: Seq<Seq<char>>,
    pub entries: Seq<Seq<char>>,
}

impl ModuleView {
    /// No pieces.
    pub open spec fn empty() -> ModuleView {
        ModuleView {
            decls: Seq::empty(),
            resources: Seq::empty(),
            consts: Seq::empty(),
            helpers: Seq::empty(),
            entries: Seq::empty(),
        }
    }

    /// With one more type declaration.
    pub open spec fn with_decl(self, src: Seq<char>) -> ModuleView {
        ModuleView { decls: self.decls.push(src), ..self }
    }

    /// With one more block of resource declarations.
    pub open spec fn with_resources(self, src: Seq<char>) -> ModuleView {
        ModuleView { resources: self.resources.push(src), ..self }
    }

    /// With one more block of constants.
    pub open spec fn with_consts(self, src: Seq<char>) -> ModuleView {
        ModuleView { consts: self.consts.push(src), ..self }
    }

    /// With one more helper function.
    pub open spec fn with_helper(self, src: Seq<char>) -> ModuleView {
        ModuleView { helpers: self.helpers.push(src), ..self }
    }

    /// With several more helper functions.
    pub open spec fn with_helpers(self, srcs: Seq<Seq<char>>) -> ModuleView {
        ModuleView { helpers: self.helpers + srcs, ..self }
    }

    /// With one more entry point.
    pub open spec fn with_entry(self, src: Seq<char>) -> ModuleView {
        ModuleView { entries: self.entries.push(src), ..self }
    }

    /// All pieces in module order.
    pub open spec fn pieces(self) -> Seq<Seq<char>> {
        self.decls + self.resources + self.consts + self.helpers + self.entries
    }
}

impl View for ShaderModule {
    type V = ModuleView;

    closed spec fn view(&self) -> ModuleView {
        ModuleView {
            decls: text::texts(self.decls@),
            resources: text::texts(self.resources@),
            consts: text::texts(self.consts@),
            helpers: text::texts(self.helpers@),
            entries: text::texts(self.entries@),
        }
    }
}

/// The pieces without line feeds at their edges; pieces that hold nothing else are dropped.
pub open spec fn kept(pieces: Seq<Seq<char>>) -> Seq<Seq<char>>
    decreases pieces.len(),
{
    if pieces.len() == 0 {
        Seq::empty()
    } else {
        let rest = kept(pieces.drop_last());
        let last = text::chomped(pieces.last());
        if last.len() == 0 {
            rest
        } else {
            rest.push(last)
        }
    }
}

/// A module: a line feed, then the kept pieces, each on lines of its own.
pub open spec fn emitted(pieces: Seq<Seq<char>>) -> Seq<char> {
    let kept = kept(pieces);
    if kept.len() == 0 {
        "\n"@
    } else {
        "\n"@ + text::joined(kept, "\n"@) + "\n"@
    }
}

/// Keeping distributes over lists of pieces.
pub proof fn lemma_kept_concat(a: Seq<Seq<char>>, b: Seq<Seq<char>>)
    ensures
        kept(a + b) == kept(a) + kept(b),
    decreases b.len(),
{
    if b.len() == 0 {
        assert(a + b == a);
        assert(kept(a) + kept(b) == kept(a));
    } else {
        lemma_kept_concat(a, b.drop_last());
        assert((a + b).drop_last() == a + b.drop_last());
        assert((a + b).last() == b.last());
        assert(kept(a + b) == kept(a) + kept(b));
    }
}

/// Appends the kept pieces of one section.
fn keep_section(pieces: &mut Vec<String>, section: &Vec<String>)
    ensures
        text::texts(final(pieces)@) == text::texts(old(pieces)@) + kept(text::texts(section@)),
{
    let ghost before = text::texts(pieces@);
    let ghost all = text::texts(section@);
    assert(all.subrange(0, 0) == Seq::<Seq<char>>::empty());
    assert(before + Seq::<Seq<char>>::empty() == before);
    for i in 0..section.len()
        invariant
            all == text::texts(section@),
            text::texts(pieces@) == before + kept(all.subrange(0, i as int)),
    {
        proof {
            let next = all.subrange(0, i + 1);
            assert(next.drop_last() == all.subrange(0, i as int));
            assert(next.last() == section@[i as int]@);
        }
        let trimmed = text::trim_newlines(section[i].as_str());
        if trimmed.unicode_len() > 0 {
            let piece: String = trimmed.to_owned();
            let ghost was = pieces@;
            pieces.push(piece);
            assert(text::texts(pieces@) == text::texts(was).push(piece@));
            assert(before + kept(all.subrange(0, i as int)).push(piece@) == (before + kept(
                all.subrange(0, i as int),
            )).push(piece@));
        }
    }
    assert(all.subrange(0, all.len() as int) == all);
}

impl ShaderModule {
    /// An empty assembly.
    pub fn new() -> (m: ShaderModule)
        ensures
            m@ == ModuleView::empty(),
    {
        ShaderModule {
            decls: Vec::new(),
            resources: Vec::new(),
            consts: Vec::new(),
            helpers: Vec::new(),
            entries: Vec::new(),
        }
    }

    /// Adds one type declaration.
    pub fn decl(self, src: &str) -> (m: ShaderModule)
        ensures
            m@ == self@.with_decl(src@),
    {
        let mut m = self;
        m.decls.push(src.to_owned());
        m
    }

    /// Adds the declarations of the listed bindings of a table.
    pub fn resources(self, table: &[Resource], bindings: &[u32]) -> (m: ShaderModule)
        requires
            forall|i: int|
                0 <= i < bindings@.len() ==> #[trigger] shaders::has_binding(table@, bindings@[i]),
        ensures
            m@ == self@.with_resources(shaders::decls_text(table@, bindings@)),
    {
        let mut m = self;
        m.resources.push(resource_decls(table, bindings));
        m
    }

    /// Adds one block of constants.
    pub fn consts(self, src: &str) -> (m: ShaderModule)
        ensures
            m@ == self@.with_consts(src@),
    {
        let mut m = self;
        m.consts.push(src.to_owned());
        m
    }

    /// Adds one helper function.
    pub fn helper(self, src: &str) -> (m: ShaderModule)
        ensures
            m@ == self@.with_helper(src@),
    {
        let mut m = self;
        m.helpers.push(src.to_owned());
        m
    }

    /// Adds several helper functions.
    pub fn helpers(self, srcs: Vec<String>) -> (m: ShaderModule)
        ensures
            m@ == self@.with_helpers(text::texts(srcs@)),
    {
        let mut m = self;
        let mut srcs = srcs;
        m.helpers.append(&mut srcs);
        m
    }

    /// Adds one entry point.
    pub fn entry(self, src: &str) -> (m: ShaderModule)
        ensures
            m@ == self@.with_entry(src@),
    {
        let mut m = self;
        m.entries.push(src.to_owned());
        m
    }

    /// The module: sections in fixed order, every piece without line feeds at its edges.
    pub fn emit(self) -> (out: String)
        ensures
            out@ == emitted(self@.pieces()),
    {
        let mut pieces: Vec<String> = Vec::new();
        keep_section(&mut pieces, &self.decls);
        keep_section(&mut pieces, &self.resources);
        keep_section(&mut pieces, &self.consts);
        keep_section(&mut pieces, &self.helpers);
        keep_section(&mut pieces, &self.entries);
        proof {
            let v = self@;
            lemma_kept_concat(v.decls, v.resources);
            lemma_kept_concat(v.decls + v.resources, v.consts);
            lemma_kept_concat(v.decls + v.resources + v.consts, v.helpers);
            lemma_kept_concat(v.decls + v.resources + v.consts + v.helpers, v.entries);
            assert(text::texts(pieces@) == kept(v.pieces()));
        }
        let mut out: String = "\n".to_owned();
        if pieces.len() > 0 {
            out.append(text::join(&pieces, "\n").as_str());
            out.append("\n");
        }
        out
    }
}

impl Default for ShaderModule {
    /// An empty assembly.
    fn default() -> (m: ShaderModule)
        ensures
            m@ == ModuleView::empty(),
    {
        ShaderModule::new()
    }
}

/// The order of calls for different sections does not matter: a module is the same whether an
/// entry point is added before or after its declarations, resources, constants and helpers.
pub proof fn sections_commute(m: ModuleView, a: Seq<char>, b: Seq<char>)
    ensures
        emitted(m.with_entry(b).with_decl(a).pieces()) == emitted(
            m.with_decl(a).with_entry(b).pieces(),
        ),
        emitted(m.with_entry(b).with_resources(a).pieces()) == emitted(
            m.with_resources(a).with_entry(b).pieces(),
        ),
        emitted(m.with_entry(b).with_consts(a).pieces()) == emitted(
            m.with_consts(a).with_entry(b).pieces(),
        ),
        emitted(m.with_entry(b).with_helper(a).pieces()) == emitted(
            m.with_helper(a).with_entry(b).pieces(),
        ),
        emitted(m.with_helper(b).with_decl(a).pieces()) == emitted(
            m.with_decl(a).with_helper(b).pieces(),
        ),
        emitted(m.with_helper(b).with_resources(a).pieces()) == emitted(
            m.with_resources(a).with_helper(b).pieces(),
        ),
        emitted(m.with_helper(b).with_consts(a).pieces()) == emitted(
            m.with_consts(a).with_helper(b).pieces(),
        ),
        emitted(m.with_consts(b).with_decl(a).pieces()) == emitted(
            m.with_decl(a).with_consts(b).pieces(),
        ),
        emitted(m.with_consts(b).with_resources(a).pieces()) == emitted(
            m.with_resources(a).with_consts(b).pieces(),
        ),
        emitted(m.with_resources(b).with_decl(a).pieces()) == emitted(
            m.with_decl(a).with_resources(b).pieces(),
        ),
{
}

/// Line feeds around a piece do not matter: a piece with one more in front or behind gives the
/// same module.
pub proof fn line_feeds_around_pieces_do_not_matter(
    before: Seq<Seq<char>>,
    piece: Seq<char>,
    after: Seq<Seq<char>>,
)
    ensures
        emitted(before.push(seq!['\n'] + piece) + after) == emitted(before.push(piece) + after),
        emitted(before.push(piece.push('\n')) + after) == emitted(before.push(piece) + after),
{
    lemma_chomped_front(piece);
    lemma_chomped_back(piece);
    lemma_kept_concat(before.push(seq!['\n'] + piece), after);
    lemma_kept_concat(before.push(piece.push('\n')), after);
    lemma_kept_concat(before.push(piece), after);
    assert(before.push(seq!['\n'] + piece).drop_last() == before);
    assert(before.push(piece.push('\n')).drop_last() == before);
    assert(before.push(piece).drop_last() == before);
}

proof fn lemma_chomped_front(piece: Seq<char>)
    ensures
        text::chomped(seq!['\n'] + piece) == text::chomped(piece),
{
    assert((seq!['\n'] + piece).drop_first() == piece);
}

proof fn lemma_chomped_back(piece: Seq<char>)
    ensures
        text::chomped(piece.push('\n')) == text::chomped(piece),
    decreases piece.len(),
{
    let longer = piece.push('\n');
    if piece.len() == 0 {
        assert(longer.drop_first() == piece);
    } else if piece[0] == '\n' {
        assert(longer.drop_first() == piece.drop_first().push('\n'));
        lemma_chomped_back(piece.drop_first());
    } else {
        assert(longer.drop_last() == piece);
    }
}

} // verus!
