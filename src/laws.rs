//! Laws of the evaluator, stated over its spec functions.
use vstd::prelude::*;
use crate::engine::{reach, eval, eval_select, eval_seq, eval_sep, merged, verdict};
use crate::rule::{Failure, RuleView, Tok};

verus! {

/// Parsing one fixed text twice yields identical outcomes, matched ends and
/// recorded tokens, and an identical verdict.
pub proof fn lemma_reparse_identical(g: Seq<RuleView>, id: usize, s1: Seq<char>, s2: Seq<char>, pos: usize, fuel: nat)
    requires
        s1 == s2,
    ensures
        eval(g, id, s1, pos, fuel) == eval(g, id, s2, pos, fuel),
        verdict(g, id, s1) == verdict(g, id, s2),
{
}

/// An optional rule whose inner rule fails matches nothing: it succeeds at
/// the offset it started from, records no token (so the token log keeps its
/// length) and keeps the inner failure for diagnostics.
pub proof fn lemma_optional_rewinds(g: Seq<RuleView>, id: usize, s: Seq<char>, pos: usize, fuel: nat)
    requires
        id < g.len(),
        g[id as int] is Optional,
        eval(g, g[id as int]->Optional_rule, s, pos, fuel).0 is Err,
    ensures
        eval(g, id, s, pos, fuel + 1)
            == (Ok::<(usize, Option<Failure>), Failure>((pos, Some(eval(g, g[id as int]->Optional_rule, s, pos, fuel).0->Err_0))),
                Seq::<Tok>::empty()),
{
}

/// In a sequence that matches, each child starts where the one before it
/// ended, and the rest of the sequence ends where the whole does.
pub proof fn lemma_sequence_chains(g: Seq<RuleView>, args: Seq<usize>, i: int, s: Seq<char>, pos: usize, fuel: nat,
    acc: Option<Failure>)
    requires
        0 <= i < args.len(),
        eval_seq(g, args, i, s, pos, fuel, acc).0 is Ok,
    ensures
        eval(g, args[i], s, pos, fuel).0 is Ok,
        ({
            let (m, e) = eval(g, args[i], s, pos, fuel).0->Ok_0;
            let rest = eval_seq(g, args, i + 1, s, m, fuel, merged(e, acc)).0;
            rest is Ok && rest->Ok_0.0 == eval_seq(g, args, i, s, pos, fuel, acc).0->Ok_0.0
        }),
{
}

/// A separated list whose first item fails fails when it is required, and
/// otherwise matches nothing at the offset it started from.
pub proof fn lemma_separated_minimum(g: Seq<RuleView>, id: usize, s: Seq<char>, pos: usize, fuel: nat)
    requires
        id < g.len(),
        g[id as int] is SeparatedBy,
        eval(g, g[id as int]->SeparatedBy_rule, s, pos, fuel).0 is Err,
    ensures
        !g[id as int]->SeparatedBy_optional ==> eval(g, id, s, pos, fuel + 1).0 is Err,
        g[id as int]->SeparatedBy_optional ==> eval(g, id, s, pos, fuel + 1).0 is Ok
            && eval(g, id, s, pos, fuel + 1).0->Ok_0.0 == pos
            && eval(g, id, s, pos, fuel + 1).1 == Seq::<Tok>::empty(),
{
    let r = g[id as int];
    assert(eval(g, id, s, pos, fuel + 1) == eval_sep(g, r->SeparatedBy_rule, r->SeparatedBy_by,
        r->SeparatedBy_optional, r->SeparatedBy_allow_trail, s, pos, fuel, true, None));
}

/// When every alternative of a choice from `i` on fails, the choice fails
/// with a failure at least as deep as each of them and as `acc`.
pub proof fn lemma_select_keeps_deepest(g: Seq<RuleView>, id: usize, args: Seq<usize>, i: int, s: Seq<char>, pos: usize,
    fuel: nat, acc: Option<Failure>)
    requires
        0 <= i <= args.len(),
        i == args.len() ==> acc is Some,
        forall|j: int| i <= j < args.len() ==> (#[trigger] eval(g, args[j], s, pos, fuel)).0 is Err,
    ensures
        eval_select(g, id, args, i, s, pos, fuel, acc).0 is Err,
        forall|j: int| i <= j < args.len()
            ==> reach((#[trigger] eval(g, args[j], s, pos, fuel)).0->Err_0)
                <= reach(eval_select(g, id, args, i, s, pos, fuel, acc).0->Err_0),
        acc matches Some(a) ==> reach(a) <= reach(eval_select(g, id, args, i, s, pos, fuel, acc).0->Err_0),
    decreases args.len() - i,
{
    if i < args.len() {
        let e = eval(g, args[i], s, pos, fuel).0->Err_0;
        lemma_select_keeps_deepest(g, id, args, i + 1, s, pos, fuel, merged(Some(e), acc));
    }
}

/// Of two alternatives that both fail, a choice reports the one that got
/// strictly further.
pub proof fn lemma_select_deepest_wins(g: Seq<RuleView>, id: usize, s: Seq<char>, pos: usize, fuel: nat)
    requires
        id < g.len(),
        g[id as int] is Select,
        g[id as int]->Select_args.len() == 2,
        ({
            let a = eval(g, g[id as int]->Select_args[0], s, pos, fuel).0;
            let b = eval(g, g[id as int]->Select_args[1], s, pos, fuel).0;
            a is Err && b is Err && reach(a->Err_0) > reach(b->Err_0)
        }),
    ensures
        eval(g, id, s, pos, fuel + 1).0 == eval(g, g[id as int]->Select_args[0], s, pos, fuel).0,
{
    let args = g[id as int]->Select_args;
    assert(eval(g, id, s, pos, fuel + 1) == eval_select(g, id, args, 0, s, pos, fuel, None));
    assert(eval_select(g, id, args, 1, s, pos, fuel, merged(Some(eval(g, args[0], s, pos, fuel).0->Err_0), None))
        == eval_select(g, id, args, 2, s, pos, fuel,
        merged(Some(eval(g, args[1], s, pos, fuel).0->Err_0),
            merged(Some(eval(g, args[0], s, pos, fuel).0->Err_0), None))));
    assert(eval_select(g, id, args, 2, s, pos, fuel,
        merged(Some(eval(g, args[1], s, pos, fuel).0->Err_0),
            merged(Some(eval(g, args[0], s, pos, fuel).0->Err_0), None))).0
        == eval(g, args[0], s, pos, fuel).0);
}

} // verus!
