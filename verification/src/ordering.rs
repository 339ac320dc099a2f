//! Explicit ordering edges between registered nodes.
use vstd::prelude::*;
#[allow(unused_imports)]
use vstd::string::*;

use crate::declarations::PassNode;
#[allow(unused_imports)]
use crate::declarations::{pass_decls, PassDecl};
use crate::text::push_decimal;
#[allow(unused_imports)]
use crate::text::decimal;

verus! {

/// Why an ordering edge is refused.
#[derive(Debug, PartialEq, Eq)]
pub enum OrderError {
    /// No node is registered under the name (a handle out of range is named `#` and its number).
    UnknownNode { name: String },
    /// The edge does not lead from an earlier registered node to a later one.
    BackwardEdge { before: String, after: String },
}

/// View of an [`OrderError`].
#[verifier::ext_equal]
pub enum OrderErrorView {
    UnknownNode { name: Seq<char> },
    BackwardEdge { before: Seq<char>, after: Seq<char> },
}

impl View for OrderError {
    type V = OrderErrorView;

    open spec fn view(&self) -> OrderErrorView {
        match self {
            OrderError::UnknownNode { name } => OrderErrorView::UnknownNode { name: name@ },
            OrderError::BackwardEdge { before, after } => OrderErrorView::BackwardEdge {
                before: before@,
                after: after@,
            },
        }
    }
}

impl OrderErrorView {
    /// The error as text.
    pub open spec fn text(self) -> Seq<char> {
        match self {
            OrderErrorView::UnknownNode { name } => "no node named '"@ + name + "'"@,
            OrderErrorView::BackwardEdge { before, after } => "'"@ + after
                + "' is not registered after '"@ + before + "'"@,
        }
    }
}

impl OrderError {
    /// The error as text.
    pub fn message(&self) -> (out: String)
        ensures
            out@ == self@.text(),
    {
        let mut out = String::new();
        match self {
            OrderError::UnknownNode { name } => {
                out.append("no node named '");
                out.append(name.as_str());
                out.append("'");
            },
            OrderError::BackwardEdge { before, after } => {
                out.append("'");
                out.append(after.as_str());
                out.append("' is not registered after '");
                out.append(before.as_str());
                out.append("'");
            },
        }
        out
    }
}

/// Name of a handle that is out of range.
pub open spec fn handle_text(i: nat) -> Seq<char> {
    "#"@ + decimal(i)
}

/// What is wrong with the edge from node `before` to node `after`: nothing if both are
/// registered and `before` was registered first.
pub open spec fn edge_error(names: Seq<Seq<char>>, before: nat, after: nat) -> Option<
    OrderErrorView,
> {
    if before >= names.len() {
        Some(OrderErrorView::UnknownNode { name: handle_text(before) })
    } else if after >= names.len() {
        Some(OrderErrorView::UnknownNode { name: handle_text(after) })
    } else if after <= before {
        Some(
            OrderErrorView::BackwardEdge {
                before: names[before as int],
                after: names[after as int],
            },
        )
    } else {
        None
    }
}

/// Names of the passes.
pub open spec fn pass_names(passes: Seq<PassDecl>) -> Seq<Seq<char>> {
    passes.map_values(|p: PassDecl| p.name)
}

/// `i` is the first pass named `name`.
pub open spec fn is_first_named(names: Seq<Seq<char>>, name: Seq<char>, i: int) -> bool {
    &&& 0 <= i < names.len()
    &&& names[i] == name
    &&& forall|k: int| 0 <= k < i ==> #[trigger] names[k] != name
}

fn unknown_handle(i: usize) -> (e: OrderError)
    ensures
        e@ == (OrderErrorView::UnknownNode { name: handle_text(i as nat) }),
{
    let mut name = String::new();
    name.append("#");
    push_decimal(&mut name, i as u64);
    OrderError::UnknownNode { name }
}

/// Checks the edge from pass `before` to pass `after`.
pub fn validate_indexed_edge(passes: &Vec<PassNode>, before: usize, after: usize) -> (res: Result<
    (),
    OrderError,
>)
    ensures
        match edge_error(pass_names(pass_decls(passes@)), before as nat, after as nat) {
            None => res is Ok,
            Some(e) => res is Err && res->Err_0@ == e,
        },
{
    if before >= passes.len() {
        return Err(unknown_handle(before));
    }
    if after >= passes.len() {
        return Err(unknown_handle(after));
    }
    if after <= before {
        return Err(
            OrderError::BackwardEdge {
                before: passes[before].name.clone(),
                after: passes[after].name.clone(),
            },
        );
    }
    Ok(())
}

/// Position of the first pass with the name.
pub fn position_named(passes: &Vec<PassNode>, name: &str) -> (pos: Option<usize>)
    ensures
        match pos {
            Some(i) => is_first_named(pass_names(pass_decls(passes@)), name@, i as int),
            None => !pass_names(pass_decls(passes@)).contains(name@),
        },
{
    let wanted: String = name.to_owned();
    let ghost names = pass_names(pass_decls(passes@));
    for i in 0..passes.len()
        invariant
            names == pass_names(pass_decls(passes@)),
            wanted@ == name@,
            forall|k: int| 0 <= k < i ==> #[trigger] names[k] != name@,
    {
        assert(names[i as int] == passes@[i as int].name@);
        if passes[i].name == wanted {
            return Some(i);
        }
    }
    None
}

/// Positions of the two named passes.
pub fn resolve_named_edge(passes: &Vec<PassNode>, before: &str, after: &str) -> (res: Result<
    (usize, usize),
    OrderError,
>)
    ensures
        match res {
            Ok((b, a)) => {
                &&& is_first_named(pass_names(pass_decls(passes@)), before@, b as int)
                &&& is_first_named(pass_names(pass_decls(passes@)), after@, a as int)
            },
            Err(e) => {
                let names = pass_names(pass_decls(passes@));
                &&& e@ is UnknownNode
                &&& !names.contains(before@) ==> e@->name == before@
                &&& names.contains(before@) ==> !names.contains(after@) && e@->name == after@
            },
        },
{
    let ghost names = pass_names(pass_decls(passes@));
    match position_named(passes, before) {
        None => Err(OrderError::UnknownNode { name: before.to_owned() }),
        Some(b) => match position_named(passes, after) {
            None => {
                assert(names.contains(names[b as int]));
                Err(OrderError::UnknownNode { name: after.to_owned() })
            },
            Some(a) => Ok((b, a)),
        },
    }
}

} // verus!
