//! Laws of text building: what joining, trimming and replacing keep of their input.
use vstd::prelude::*;
#[allow(unused_imports)]
use vstd::string::*;

use crate::text;

verus! {

/// Trimming the end drops white space only, and all of it: what is left is the beginning of the text,
/// does not end with white space, and was followed by nothing else.
pub proof fn trimming_drops_only_trailing_white_space(s: Seq<char>)
    ensures
        ({
            let t = text::trimmed_end(s);
            &&& t.len() <= s.len()
            &&& t == s.subrange(0, t.len() as int)
            &&& forall|i: int| t.len() <= i < s.len() ==> text::is_white(#[trigger] s[i])
            &&& t.len() > 0 ==> !text::is_white(t.last())
        }),
    decreases s.len(),
{
    if s.len() > 0 && text::is_white(s.last()) {
        let rest = s.drop_last();
        trimming_drops_only_trailing_white_space(rest);
        let t = text::trimmed_end(s);
        assert(t =~= s.subrange(0, t.len() as int));
        assert forall|i: int| t.len() <= i < s.len() implies text::is_white(#[trigger] s[i]) by {
            if i < rest.len() {
                assert(rest[i] == s[i]);
            }
        }
    } else {
        assert(s =~= s.subrange(0, s.len() as int));
    }
}

proof fn lemma_chomped_end(s: Seq<char>)
    ensures
        ({
            let t = text::chomped_end(s);
            &&& t.len() <= s.len()
            &&& t == s.subrange(0, t.len() as int)
            &&& forall|i: int| t.len() <= i < s.len() ==> #[trigger] s[i] == '\n'
            &&& t.len() > 0 ==> t.last() != '\n'
        }),
    decreases s.len(),
{
    if s.len() > 0 && s.last() == '\n' {
        let rest = s.drop_last();
        lemma_chomped_end(rest);
        let t = text::chomped_end(s);
        assert(t =~= s.subrange(0, t.len() as int));
        assert forall|i: int| t.len() <= i < s.len() implies #[trigger] s[i] == '\n' by {
            if i < rest.len() {
                assert(rest[i] == s[i]);
            }
        }
    } else {
        assert(s =~= s.subrange(0, s.len() as int));
    }
}

proof fn lemma_chomped_start(s: Seq<char>) -> (from: int)
    ensures
        0 <= from <= s.len(),
        text::chomped_start(s) == s.subrange(from, s.len() as int),
        forall|i: int| 0 <= i < from ==> #[trigger] s[i] == '\n',
        from < s.len() ==> s[from] != '\n',
    decreases s.len(),
{
    if s.len() > 0 && s[0] == '\n' {
        let rest = s.drop_first();
        let at = lemma_chomped_start(rest);
        assert(rest.subrange(at, rest.len() as int) =~= s.subrange(at + 1, s.len() as int));
        assert forall|i: int| 0 <= i < at + 1 implies #[trigger] s[i] == '\n' by {
            if i > 0 {
                assert(rest[i - 1] == s[i]);
            }
        }
        if at < rest.len() {
            assert(rest[at] == s[at + 1]);
        }
        at + 1
    } else {
        assert(s =~= s.subrange(0, s.len() as int));
        0
    }
}

/// The text from `from` up to `to` is all of it but line feeds at its edges.
pub open spec fn is_core(s: Seq<char>, from: int, to: int) -> bool {
    &&& 0 <= from <= to <= s.len()
    &&& forall|i: int| 0 <= i < from ==> #[trigger] s[i] == '\n'
    &&& forall|i: int| to <= i < s.len() ==> #[trigger] s[i] == '\n'
    &&& from < to ==> s[from] != '\n' && s[to - 1] != '\n'
}

/// Dropping line feeds at the edges drops nothing else: what stands between the first and the last
/// other character is kept as it is.
pub proof fn chomping_drops_only_line_feeds_at_the_edges(s: Seq<char>)
    ensures
        exists|from: int, to: int| #[trigger]
            is_core(s, from, to) && text::chomped(s) == s.subrange(from, to),
{
    let from = lemma_chomped_start(s);
    let rest = s.subrange(from, s.len() as int);
    lemma_chomped_end(rest);
    let t = text::chomped_end(rest);
    let to = from + t.len();
    assert(t =~= s.subrange(from, to));
    assert forall|i: int| to <= i < s.len() implies #[trigger] s[i] == '\n' by {
        assert(rest[i - from] == s[i]);
    }
    if from < to {
        assert(t.last() == s[to - 1]);
    }
    assert(is_core(s, from, to));
}

/// Text without the searched one stays as it is.
pub proof fn replacing_keeps_other_text(hay: Seq<char>, needle: Seq<char>, by: Seq<char>)
    requires
        needle.len() > 0,
        forall|at: int| !#[trigger] text::occurs_at(hay, needle, at),
    ensures
        text::replaced(hay, needle, by) == hay,
    decreases hay.len(),
{
    if hay.len() > 0 {
        let rest = hay.drop_first();
        assert forall|at: int| !#[trigger] text::occurs_at(rest, needle, at) by {
            if text::occurs_at(rest, needle, at) {
                assert(rest.subrange(at, at + needle.len()) =~= hay.subrange(
                    at + 1,
                    at + 1 + needle.len(),
                ));
                assert(text::occurs_at(hay, needle, at + 1));
            }
        }
        replacing_keeps_other_text(rest, needle, by);
        assert(!text::occurs_at(hay, needle, 0));
        assert(seq![hay[0]] + rest =~= hay);
    }
}

/// The first occurrence of the searched text is replaced, what stands before it is kept, and what
/// stands behind it is treated in the same way.
pub proof fn replacing_goes_on_behind_the_first_occurrence(
    hay: Seq<char>,
    needle: Seq<char>,
    by: Seq<char>,
    at: int,
)
    requires
        needle.len() > 0,
        text::occurs_at(hay, needle, at),
        forall|earlier: int| earlier < at ==> !#[trigger] text::occurs_at(hay, needle, earlier),
    ensures
        text::replaced(hay, needle, by) == hay.subrange(0, at) + by + text::replaced(
            hay.subrange(at + needle.len(), hay.len() as int),
            needle,
            by,
        ),
    decreases hay.len(),
{
    let behind = hay.subrange(at + needle.len(), hay.len() as int);
    if at == 0 {
        assert(hay.subrange(0, 0) + by =~= by);
    } else {
        assert(!text::occurs_at(hay, needle, 0));
        let rest = hay.drop_first();
        assert(rest.subrange(at - 1, at - 1 + needle.len()) =~= hay.subrange(
            at,
            at + needle.len(),
        ));
        assert forall|earlier: int| earlier < at - 1 implies !#[trigger] text::occurs_at(
            rest,
            needle,
            earlier,
        ) by {
            if text::occurs_at(rest, needle, earlier) {
                assert(rest.subrange(earlier, earlier + needle.len()) =~= hay.subrange(
                    earlier + 1,
                    earlier + 1 + needle.len(),
                ));
                assert(text::occurs_at(hay, needle, earlier + 1));
            }
        }
        replacing_goes_on_behind_the_first_occurrence(rest, needle, by, at - 1);
        assert(rest.subrange(at - 1 + needle.len(), rest.len() as int) =~= behind);
        let tail = by + text::replaced(behind, needle, by);
        assert(text::replaced(rest, needle, by) =~= rest.subrange(0, at - 1) + tail);
        assert(seq![hay[0]] + (rest.subrange(0, at - 1) + tail) =~= hay.subrange(0, at) + tail);
    }
}

/// Joined parts stand in their order, with the separator between them and nothing else: all but the
/// last, joined, the separator, and the last; a single part stands alone.
pub proof fn joined_parts_are_separated(parts: Seq<Seq<char>>, sep: Seq<char>, k: int)
    requires
        0 < k < parts.len(),
    ensures
        text::joined(parts, sep) == text::joined(parts.subrange(0, k), sep) + sep + text::joined(
            parts.subrange(k, parts.len() as int),
            sep,
        ),
        text::joined(parts.subrange(0, 1), sep) == parts[0],
    decreases parts.len(),
{
    let front = parts.subrange(0, k);
    let back = parts.subrange(k, parts.len() as int);
    if k == parts.len() - 1 {
        assert(parts.drop_last() == front);
        assert(back[0] == parts.last());
    } else {
        let rest = parts.drop_last();
        joined_parts_are_separated(rest, sep, k);
        assert(rest.subrange(0, k) == front);
        let short = rest.subrange(k, rest.len() as int);
        assert(back.drop_last() == short);
        assert(back.last() == parts.last());
        let a = text::joined(front, sep);
        let b = text::joined(short, sep);
        assert((a + sep + b) + sep + parts.last() =~= a + sep + (b + sep + parts.last()));
    }
}

} // verus!
