//! Laws of declared accesses: which passes run, which reads are valid, and what a type resolves to.
use vstd::prelude::*;

use crate::declarations;
use crate::declarations::PassDecl;
use crate::system;

verus! {

/// The frame is made of the enabled passes, all of them and in registration order.
pub proof fn frames_are_the_enabled_passes(passes: Seq<PassDecl>)
    ensures
        declarations::frame_of(passes) == passes.filter(|p: PassDecl| p.enabled),
    decreases passes.len(),
{
    reveal(Seq::filter);
    let frame = declarations::frame_of(passes);
    if passes.len() > 0 {
        let rest = passes.drop_last();
        frames_are_the_enabled_passes(rest);
        declarations::lemma_enabled_ids(rest);
        let earlier = declarations::frame_of(rest);
        if passes.last().enabled {
            assert(frame =~= earlier.push(passes.last()));
        } else {
            assert(frame =~= earlier);
        }
    } else {
        assert(frame =~= Seq::<PassDecl>::empty());
    }
}

/// A read is valid behind a write: it is refused where, and only where, neither the pass itself nor an
/// earlier one writes what it reads.
pub proof fn reads_are_valid_behind_a_write(frame: Seq<PassDecl>, i: int, k: int)
    requires
        0 <= i < frame.len(),
        0 <= k < frame[i].reads.len(),
    ensures
        declarations::reads_unwritten(frame, i, frame[i].reads[k]) <==> forall|j: int, w: int|
            #![trigger frame[j].writes[w]]
            0 <= j <= i && 0 <= w < frame[j].writes.len() ==> frame[j].writes[w].0
                != frame[i].reads[k],
{
    let r = frame[i].reads[k];
    assert(frame[i].reads.contains(r));
    if declarations::reads_unwritten(frame, i, r) {
        assert forall|j: int, w: int|
            #![trigger frame[j].writes[w]]
            0 <= j <= i && 0 <= w < frame[j].writes.len() implies frame[j].writes[w].0 != r by {
            assert(!declarations::writes_of(frame[j], r));
        }
    }
    if forall|j: int, w: int|
        #![trigger frame[j].writes[w]]
        0 <= j <= i && 0 <= w < frame[j].writes.len() ==> frame[j].writes[w].0 != r {
        assert forall|j: int| 0 <= j <= i implies !#[trigger] declarations::writes_of(
            frame[j],
            r,
        ) by {}
    }
}

/// A type resolves to the resource that was registered for it last, and to none where it was not
/// registered.
pub proof fn types_resolve_to_their_last_resource(types: Seq<Option<u32>>, key: u32, i: int)
    requires
        types.len() <= u32::MAX,
    ensures
        match system::resolve_type(types, key) {
            Some(r) => {
                &&& r.0 < types.len()
                &&& types[r.0 as int] == Some(key)
                &&& r.0 < i < types.len() ==> types[i] != Some(key)
            },
            None => 0 <= i < types.len() ==> types[i] != Some(key),
        },
    decreases types.len(),
{
    if types.len() > 0 && types.last() != Some(key) {
        types_resolve_to_their_last_resource(types.drop_last(), key, i);
    }
}

} // verus!
