//! Text of shader functions, parameter lists and calls.
use vstd::prelude::*;
#[allow(unused_imports)]
use vstd::string::*;

verus! {

/// A parameter or a value: its name and its type.
pub type Typed = (&'static str, &'static str);

/// A parameter list: names with their types, separated by commas.
pub open spec fn params_text(params: Seq<Typed>) -> Seq<char>
    decreases params.len(),
{
    if params.len() == 0 {
        Seq::empty()
    } else if params.len() == 1 {
        params[0].0@ + ": "@ + params[0].1@
    } else {
        params_text(params.drop_last()) + ", "@ + (params.last().0@ + ": "@ + params.last().1@)
    }
}

/// An argument list: names separated by commas.
pub open spec fn args_text(args: Seq<Typed>) -> Seq<char>
    decreases args.len(),
{
    if args.len() == 0 {
        Seq::empty()
    } else if args.len() == 1 {
        args[0].0@
    } else {
        args_text(args.drop_last()) + ", "@ + args.last().0@
    }
}

/// A function: signature and body on one line.
pub open spec fn function_text(
    name: Seq<char>,
    params: Seq<Typed>,
    ret: Seq<char>,
    body: Seq<char>,
) -> Seq<char> {
    "fn "@ + name + "("@ + params_text(params) + ") -> "@ + ret + " { "@ + body + " }\n"@
}

/// A `let` statement that binds the result of a call.
pub open spec fn call_text(local: Seq<char>, callee: Seq<char>, args: Seq<Typed>) -> Seq<char> {
    "let "@ + local + " = "@ + callee + "("@ + args_text(args) + "); "@
}

/// Appends a parameter list.
pub fn push_params(out: &mut String, params: &[Typed])
    ensures
        final(out)@ == old(out)@ + params_text(params@),
{
    let ghost before = out@;
    assert(params@.subrange(0, 0) == Seq::<Typed>::empty());
    assert(before + Seq::<char>::empty() == before);
    for i in 0..params.len()
        invariant
            out@ == before + params_text(params@.subrange(0, i as int)),
    {
        proof {
            let next = params@.subrange(0, i + 1);
            assert(next.drop_last() == params@.subrange(0, i as int));
            assert(next.last() == params@[i as int]);
        }
        if i > 0 {
            out.append(", ");
        }
        out.append(params[i].0);
        out.append(": ");
        out.append(params[i].1);
        proof {
            let next = params@.subrange(0, i + 1);
            let one = params@[i as int];
            if i == 0 {
                assert(next[0] == one);
                assert(out@ == before + params_text(next));
            } else {
                assert(out@ == before + params_text(next));
            }
        }
    }
    assert(params@.subrange(0, params@.len() as int) == params@);
}

/// Appends an argument list.
pub fn push_args(out: &mut String, args: &[Typed])
    ensures
        final(out)@ == old(out)@ + args_text(args@),
{
    let ghost before = out@;
    assert(args@.subrange(0, 0) == Seq::<Typed>::empty());
    assert(before + Seq::<char>::empty() == before);
    for i in 0..args.len()
        invariant
            out@ == before + args_text(args@.subrange(0, i as int)),
    {
        proof {
            let next = args@.subrange(0, i + 1);
            assert(next.drop_last() == args@.subrange(0, i as int));
            assert(next.last() == args@[i as int]);
        }
        if i > 0 {
            out.append(", ");
        }
        out.append(args[i].0);
        proof {
            let next = args@.subrange(0, i + 1);
            if i == 0 {
                assert(next[0] == args@[0]);
            }
            assert(out@ == before + args_text(next));
        }
    }
    assert(args@.subrange(0, args@.len() as int) == args@);
}

/// The text of a function.
pub fn function_source(name: &str, params: &[Typed], ret: &str, body: &str) -> (out: String)
    ensures
        out@ == function_text(name@, params@, ret@, body@),
{
    let mut out: String = "fn ".to_owned();
    out.append(name);
    out.append("(");
    push_params(&mut out, params);
    out.append(") -> ");
    out.append(ret);
    out.append(" { ");
    out.append(body);
    out.append(" }\n");
    out
}

/// Appends a `let` statement that binds the result of a call.
pub fn push_call(out: &mut String, local: &str, callee: &str, args: &[Typed])
    ensures
        final(out)@ == old(out)@ + call_text(local@, callee@, args@),
{
    let ghost before = out@;
    out.append("let ");
    out.append(local);
    out.append(" = ");
    out.append(callee);
    out.append("(");
    push_args(out, args);
    out.append("); ");
    assert(out@ == before + call_text(local@, callee@, args@));
}

/// An entry point: its stage attribute, signature and body on one line.
pub open spec fn entry_text(
    stage: Seq<char>,
    name: Seq<char>,
    params: Seq<char>,
    ret: Seq<char>,
    body: Seq<char>,
) -> Seq<char> {
    stage + "\nfn "@ + name + "("@ + params + ") -> "@ + ret + " { "@ + body + " }\n"@
}

/// The text of an entry point.
pub fn entry_source(stage: &str, name: &str, params: &str, ret: &str, body: &str) -> (out: String)
    ensures
        out@ == entry_text(stage@, name@, params@, ret@, body@),
{
    let mut out: String = stage.to_owned();
    out.append("\nfn ");
    out.append(name);
    out.append("(");
    out.append(params);
    out.append(") -> ");
    out.append(ret);
    out.append(" { ");
    out.append(body);
    out.append(" }\n");
    out
}

} // verus!
