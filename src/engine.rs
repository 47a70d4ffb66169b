//! Evaluation of a rule table against a character sequence: the meaning of
//! each rule as a spec function, and the executable evaluator proved to
//! follow it, with the token log it fills.
use vstd::prelude::*;
use crate::rule::{Cause, Failure, Grammar, Outcome, Rule, RuleView, Tok, children};
use crate::scan::{
    blank_end, ends_with_newline, newline_at_end, skip_blank,
    matches_at, numeral_ok, numeral_valid, number_len, occurs_at, scan_number, scan_text, skip_until,
    skip_whitespace, text_len, text_ok, text_parses, until_end, ws_end,
};

verus! {

/// Where a failure's range ends: how far the input was read before it.
pub open spec fn reach(f: Failure) -> int {
    f.offset + f.length
}

/// Keeps the deeper of two failures; on a tie the newer one.
pub open spec fn merged(new: Option<Failure>, acc: Option<Failure>) -> Option<Failure> {
    match acc {
        Some(a) => match new {
            Some(n) => if reach(a) <= reach(n) { Some(n) } else { Some(a) },
            None => Some(a),
        },
        None => new,
    }
}

/// The failure to report when `a` blocks a rule and `b` was seen before it:
/// `b` only where it lies strictly deeper.
pub open spec fn deeper(a: Failure, b: Option<Failure>) -> Failure {
    match b {
        Some(e) => if reach(e) > reach(a) { e } else { a },
        None => a,
    }
}

/// The token a primitive with `property` records for the match `[pos, end)`.
pub open spec fn prim_tok(property: Option<usize>, pos: usize, end: usize) -> Seq<Tok> {
    match property {
        Some(p) => seq![Tok { offset: pos, length: (end - pos) as usize, property: p }],
        None => Seq::empty(),
    }
}

/// A failure at `pos` with `cause`, which records no token.
pub open spec fn fail(pos: usize, cause: Cause) -> (Outcome, Seq<Tok>) {
    (Err(Failure { offset: pos, length: 0, cause }), Seq::empty())
}

/// What evaluating rule `id` of `g` at `pos` in `s` gives, with the tokens
/// it records; `fuel` bounds the nesting of rules.
pub open spec fn eval(g: Seq<RuleView>, id: usize, s: Seq<char>, pos: usize, fuel: nat) -> (Outcome, Seq<Tok>)
    decreases fuel, 0int,
{
    if fuel == 0 || id >= g.len() {
        fail(pos, Cause::TooDeep(id))
    } else {
        let f = (fuel - 1) as nat;
        match g[id as int] {
            RuleView::Token { text, inverted, property } => {
                let hit = occurs_at(s, pos as int, text);
                if !inverted {
                    if hit {
                        let end = (pos + text.len()) as usize;
                        (Ok((end, None)), prim_tok(property, pos, end))
                    } else {
                        fail(pos, Cause::ExpectedTag(id))
                    }
                } else {
                    if hit {
                        (Err(Failure { offset: pos, length: text.len() as usize, cause: Cause::DidNotExpectTag(id) }),
                            Seq::empty())
                    } else {
                        (Ok((pos, None)), prim_tok(property, pos, pos))
                    }
                }
            },
            RuleView::Whitespace { optional } => {
                let end = ws_end(s, pos as nat) as usize;
                if end == pos && !optional {
                    fail(pos, Cause::ExpectedWhitespace(id))
                } else {
                    (Ok((end, None)), Seq::empty())
                }
            },
            RuleView::UntilAny { delims, optional, property } => {
                let end = until_end(s, pos as nat, delims, false) as usize;
                if end == pos && !optional {
                    fail(pos, Cause::ExpectedSomething(id))
                } else {
                    (Ok((end, None)), prim_tok(property, pos, end))
                }
            },
            RuleView::UntilAnyOrWhitespace { delims, optional, property } => {
                let end = until_end(s, pos as nat, delims, true) as usize;
                if end == pos && !optional {
                    fail(pos, Cause::ExpectedSomething(id))
                } else {
                    (Ok((end, None)), prim_tok(property, pos, end))
                }
            },
            RuleView::Number { allow_underscore } => {
                match number_len(s.subrange(pos as int, s.len() as int), allow_underscore) {
                    None => fail(pos, Cause::ExpectedNumber(id)),
                    Some(n) => if numeral_ok(s.subrange(pos as int, pos + n), allow_underscore) {
                        (Ok(((pos + n) as usize, None)), Seq::empty())
                    } else {
                        (Err(Failure { offset: pos, length: n as usize, cause: Cause::InvalidNumber(id) }), Seq::empty())
                    },
                }
            },
            RuleView::Text { allow_empty } => {
                match text_len(s.subrange(pos as int, s.len() as int)) {
                    None => fail(pos, Cause::ExpectedText(id)),
                    Some(n) => if !allow_empty && n == 2 {
                        (Err(Failure { offset: pos, length: n as usize, cause: Cause::EmptyTextNotAllowed(id) }),
                            Seq::empty())
                    } else if text_ok(s.subrange(pos as int, pos + n)) {
                        (Ok(((pos + n) as usize, None)), Seq::empty())
                    } else {
                        (Err(Failure { offset: pos, length: n as usize, cause: Cause::InvalidText(id) }), Seq::empty())
                    },
                }
            },
            RuleView::Sequence { args } => eval_seq(g, args, 0, s, pos, f, None),
            RuleView::Select { args } => eval_select(g, id, args, 0, s, pos, f, None),
            RuleView::Optional { rule } => {
                let (r, t) = eval(g, rule, s, pos, f);
                match r {
                    Ok(x) => (Ok(x), t),
                    Err(e) => (Ok((pos, Some(e))), Seq::empty()),
                }
            },
            RuleView::Repeat { rule } => eval_repeat(g, rule, s, pos, f, true, None),
            RuleView::SeparatedBy { rule, by, optional, allow_trail } =>
                eval_sep(g, rule, by, optional, allow_trail, s, pos, f, true, None),
            RuleView::Lines { rule } => eval_lines(g, id, rule, s, pos, f, true, None),
        }
    }
}

/// The children `args[i..]` of a sequence, each at the end of the one before.
pub open spec fn eval_seq(g: Seq<RuleView>, args: Seq<usize>, i: int, s: Seq<char>, pos: usize, fuel: nat,
    acc: Option<Failure>) -> (Outcome, Seq<Tok>)
    decreases fuel, 1 + args.len() - i,
{
    if i < 0 || i >= args.len() {
        (Ok((pos, acc)), Seq::empty())
    } else {
        let (r, t) = eval(g, args[i], s, pos, fuel);
        match r {
            Err(e) => (Err(deeper(e, acc)), Seq::empty()),
            Ok((end, e2)) => {
                let (r2, t2) = eval_seq(g, args, i + 1, s, end, fuel, merged(e2, acc));
                match r2 {
                    Ok(x) => (Ok(x), t + t2),
                    Err(e) => (Err(e), Seq::empty()),
                }
            },
        }
    }
}

/// The alternatives `args[i..]` of a choice, the first that matches.
pub open spec fn eval_select(g: Seq<RuleView>, id: usize, args: Seq<usize>, i: int, s: Seq<char>, pos: usize,
    fuel: nat, acc: Option<Failure>) -> (Outcome, Seq<Tok>)
    decreases fuel, 1 + args.len() - i,
{
    if i < 0 || i >= args.len() {
        match acc {
            Some(e) => (Err(e), Seq::empty()),
            None => fail(pos, Cause::NoAlternatives(id)),
        }
    } else {
        let (r, t) = eval(g, args[i], s, pos, fuel);
        match r {
            Ok((end, e2)) => (Ok((end, merged(e2, acc))), t),
            Err(e) => eval_select(g, id, args, i + 1, s, pos, fuel, merged(Some(e), acc)),
        }
    }
}

/// Repetitions of `rule` from `pos`; `first` when none has matched yet.
pub open spec fn eval_repeat(g: Seq<RuleView>, rule: usize, s: Seq<char>, pos: usize, fuel: nat, first: bool,
    acc: Option<Failure>) -> (Outcome, Seq<Tok>)
    decreases fuel, if pos <= s.len() { 1 + s.len() - pos } else { 1 },
{
    let (r, t) = eval(g, rule, s, pos, fuel);
    match r {
        Err(e) => if first {
            (Err(deeper(e, acc)), Seq::empty())
        } else {
            (Ok((pos, merged(Some(e), acc))), Seq::empty())
        },
        Ok((end, e2)) => {
            let acc2 = merged(e2, acc);
            if pos < end && end <= s.len() {
                let (r2, t2) = eval_repeat(g, rule, s, end, fuel, false, acc2);
                match r2 {
                    Ok(x) => (Ok(x), t + t2),
                    Err(e) => (Err(e), Seq::empty()),
                }
            } else {
                (Ok((end, acc2)), t)
            }
        },
    }
}

/// Items of `rule` separated by `by`, from `pos`; `first` when no item has
/// matched yet.
pub open spec fn eval_sep(g: Seq<RuleView>, rule: usize, by: usize, optional: bool, allow_trail: bool,
    s: Seq<char>, pos: usize, fuel: nat, first: bool, acc: Option<Failure>) -> (Outcome, Seq<Tok>)
    decreases fuel, if pos <= s.len() { 1 + s.len() - pos } else { 1 },
{
    let (r, t) = eval(g, rule, s, pos, fuel);
    match r {
        Err(e) => if (first && !optional) || (!first && !allow_trail) {
            (Err(deeper(e, acc)), Seq::empty())
        } else {
            (Ok((pos, merged(Some(e), acc))), Seq::empty())
        },
        Ok((end, e2)) => {
            let acc1 = merged(e2, acc);
            let (rb, tb) = eval(g, by, s, end, fuel);
            match rb {
                Err(e) => (Ok((end, merged(Some(e), acc1))), t),
                Ok((end2, e3)) => {
                    let acc2 = merged(e3, acc1);
                    if pos < end2 && end2 <= s.len() {
                        let (r2, t2) = eval_sep(g, rule, by, optional, allow_trail, s, end2, fuel, false, acc2);
                        match r2 {
                            Ok(x) => (Ok(x), t + tb + t2),
                            Err(e) => (Err(e), Seq::empty()),
                        }
                    } else {
                        (Ok((end2, acc2)), t + tb)
                    }
                },
            }
        },
    }
}

/// Lines of `rule` from `pos`, for the `Lines` rule `id`. Blank lines are
/// skipped; a line is tried only where a line break came before it
/// (`new_line`), and the lines end at the end of `s` or at the first line
/// that does not match.
pub open spec fn eval_lines(g: Seq<RuleView>, id: usize, rule: usize, s: Seq<char>, pos: usize, fuel: nat,
    new_line: bool, acc: Option<Failure>) -> (Outcome, Seq<Tok>)
    decreases fuel, if pos <= s.len() { 1 + s.len() - pos } else { 1 },
{
    let p = blank_end(s, pos as nat);
    if p >= s.len() {
        (Ok((p as usize, acc)), Seq::empty())
    } else if s[p as int] == '\n' && pos <= p && p + 1 <= usize::MAX {
        eval_lines(g, id, rule, s, (p + 1) as usize, fuel, true, acc)
    } else if !new_line {
        (Err(deeper(Failure { offset: pos, length: 0, cause: Cause::ExpectedNewLine(id) }, acc)), Seq::empty())
    } else {
        let (r, t) = eval(g, rule, s, pos, fuel);
        match r {
            Err(e) => (Ok((pos, merged(Some(e), acc))), Seq::empty()),
            Ok((end, e2)) => {
                let acc2 = merged(e2, acc);
                if pos < end && end <= s.len() {
                    let (r2, t2) = eval_lines(g, id, rule, s, end, fuel, ends_with_newline(s, pos as int, end as int), acc2);
                    match r2 {
                        Ok(x) => (Ok(x), t + t2),
                        Err(e) => (Err(e), Seq::empty()),
                    }
                } else {
                    (Err(deeper(Failure { offset: pos, length: 0, cause: Cause::ExpectedNewLine(id) }, acc2)), Seq::empty())
                }
            },
        }
    }
}

/// Lines that fail record no token.
pub proof fn lemma_lines_fail_bare(g: Seq<RuleView>, id: usize, rule: usize, s: Seq<char>, pos: usize, fuel: nat,
    new_line: bool, acc: Option<Failure>)
    ensures
        eval_lines(g, id, rule, s, pos, fuel, new_line, acc).0 is Err
            ==> eval_lines(g, id, rule, s, pos, fuel, new_line, acc).1 == Seq::<Tok>::empty(),
    decreases if pos <= s.len() { 1 + s.len() - pos } else { 1 },
{
    let p = blank_end(s, pos as nat);
    if p < s.len() && s[p as int] == '\n' && pos <= p && p + 1 <= usize::MAX {
        lemma_lines_fail_bare(g, id, rule, s, (p + 1) as usize, fuel, true, acc);
    }
}

/// Keeps the deeper of two failures; on a tie the newer one.
pub fn merge_failure(new: Option<Failure>, acc: Option<Failure>) -> (r: Option<Failure>)
    ensures
        r == merged(new, acc),
{
    match acc {
        Some(a) => match new {
            Some(n) => if (a.offset as u128) + (a.length as u128) <= (n.offset as u128) + (n.length as u128) {
                Some(n)
            } else {
                Some(a)
            },
            None => Some(a),
        },
        None => new,
    }
}

/// The failure to report when `a` blocks a rule after `b` was seen.
pub fn deeper_failure(a: Failure, b: Option<Failure>) -> (r: Failure)
    ensures
        r == deeper(a, b),
{
    match b {
        Some(e) => if (e.offset as u128) + (e.length as u128) > (a.offset as u128) + (a.length as u128) {
            e
        } else {
            a
        },
        None => a,
    }
}

/// Records the token of a primitive with `property` for `[pos, end)`.
fn record(log: &mut Vec<Tok>, property: Option<usize>, pos: usize, end: usize)
    requires
        pos <= end,
    ensures
        final(log)@ == old(log)@ + prim_tok(property, pos, end),
{
    match property {
        Some(p) => {
            log.push(Tok { offset: pos, length: end - pos, property: p });
        },
        None => {},
    }
    assert(final(log)@ =~= old(log)@ + prim_tok(property, pos, end));
}

impl Grammar {
    /// The child indices of a rule at `id` lie in the table.
    proof fn lemma_children(&self, id: usize)
        requires
            self.wf(),
            id < self.table().len(),
        ensures
            forall|k: int| 0 <= k < children(self.table()[id as int]).len()
                ==> children(self.table()[id as int])[k] < self.table().len(),
    {
        assert forall|k: int| 0 <= k < children(self.table()[id as int]).len()
            implies children(self.table()[id as int])[k] < self.table().len() by {
            assert(children(self.table()[id as int])[k] < self.table().len());
        }
    }

    /// Evaluates rule `id` at `pos` in `s`, appending the tokens it records
    /// to `log`; nesting deeper than `fuel` rules fails.
    pub fn parse(&self, id: usize, s: &Vec<char>, pos: usize, fuel: usize, log: &mut Vec<Tok>) -> (r: Outcome)
        requires
            self.wf(),
            id < self.table().len(),
            pos <= s@.len(),
        ensures
            r == eval(self.table(), id, s@, pos, fuel as nat).0,
            final(log)@ == old(log)@ + eval(self.table(), id, s@, pos, fuel as nat).1,
            r matches Ok((end, _)) ==> pos <= end <= s@.len(),
            r is Err ==> final(log)@ == old(log)@,
        decreases fuel, 0int,
    {
        if fuel == 0 {
            assert(old(log)@ =~= old(log)@ + Seq::<Tok>::empty());
            return Err(Failure { offset: pos, length: 0, cause: Cause::TooDeep(id) });
        }
        let f = fuel - 1;
        proof {
            self.lemma_children(id);
            assert(self.table()[id as int] == self.rules@[id as int]@);
        }
        match &self.rules[id] {
            Rule::Token { text, inverted, property } => {
                let hit = matches_at(s, pos, text);
                if !*inverted {
                    if hit {
                        assert(pos + text@.len() <= s.len());
                        let end: usize = pos + text.len();
                        record(log, *property, pos, end);
                        Ok((end, None))
                    } else {
                        assert(old(log)@ =~= old(log)@ + Seq::<Tok>::empty());
                        Err(Failure { offset: pos, length: 0, cause: Cause::ExpectedTag(id) })
                    }
                } else {
                    if hit {
                        assert(old(log)@ =~= old(log)@ + Seq::<Tok>::empty());
                        Err(Failure { offset: pos, length: text.len(), cause: Cause::DidNotExpectTag(id) })
                    } else {
                        record(log, *property, pos, pos);
                        Ok((pos, None))
                    }
                }
            },
            Rule::Whitespace { optional } => {
                assert(old(log)@ =~= old(log)@ + Seq::<Tok>::empty());
                let end = skip_whitespace(s, pos);
                if end == pos && !*optional {
                    Err(Failure { offset: pos, length: 0, cause: Cause::ExpectedWhitespace(id) })
                } else {
                    Ok((end, None))
                }
            },
            Rule::UntilAny { delims, optional, property } => {
                let end = skip_until(s, pos, delims, false);
                if end == pos && !*optional {
                    assert(old(log)@ =~= old(log)@ + Seq::<Tok>::empty());
                    Err(Failure { offset: pos, length: 0, cause: Cause::ExpectedSomething(id) })
                } else {
                    record(log, *property, pos, end);
                    Ok((end, None))
                }
            },
            Rule::UntilAnyOrWhitespace { delims, optional, property } => {
                let end = skip_until(s, pos, delims, true);
                if end == pos && !*optional {
                    assert(old(log)@ =~= old(log)@ + Seq::<Tok>::empty());
                    Err(Failure { offset: pos, length: 0, cause: Cause::ExpectedSomething(id) })
                } else {
                    record(log, *property, pos, end);
                    Ok((end, None))
                }
            },
            Rule::Number { allow_underscore } => {
                assert(old(log)@ =~= old(log)@ + Seq::<Tok>::empty());
                match scan_number(s, pos, *allow_underscore) {
                    None => Err(Failure { offset: pos, length: 0, cause: Cause::ExpectedNumber(id) }),
                    Some(n) => if numeral_valid(s, pos, n, *allow_underscore) {
                        assert(pos + n <= s.len());
                        Ok((pos + n, None))
                    } else {
                        Err(Failure { offset: pos, length: n, cause: Cause::InvalidNumber(id) })
                    },
                }
            },
            Rule::Text { allow_empty } => {
                assert(old(log)@ =~= old(log)@ + Seq::<Tok>::empty());
                match scan_text(s, pos) {
                    None => Err(Failure { offset: pos, length: 0, cause: Cause::ExpectedText(id) }),
                    Some(n) => if !*allow_empty && n == 2 {
                        Err(Failure { offset: pos, length: n, cause: Cause::EmptyTextNotAllowed(id) })
                    } else if text_parses(s, pos, n) {
                        assert(pos + n <= s.len());
                        Ok((pos + n, None))
                    } else {
                        Err(Failure { offset: pos, length: n, cause: Cause::InvalidText(id) })
                    },
                }
            },
            Rule::Sequence { args } => {
                assert(children(self.table()[id as int]) == args@);
                self.parse_seq(args, 0, s, pos, f, None, log)
            },
            Rule::Select { args } => {
                assert(children(self.table()[id as int]) == args@);
                self.parse_select(id, args, 0, s, pos, f, None, log)
            },
            Rule::Optional { rule } => {
                assert(children(self.table()[id as int])[0] == *rule);
                match self.parse(*rule, s, pos, f, log) {
                    Ok(x) => Ok(x),
                    Err(e) => {
                        assert(final(log)@ =~= old(log)@ + Seq::<Tok>::empty());
                        Ok((pos, Some(e)))
                    },
                }
            },
            Rule::Repeat { rule } => {
                assert(children(self.table()[id as int])[0] == *rule);
                self.parse_repeat(*rule, s, pos, f, true, None, log)
            },
            Rule::SeparatedBy { rule, by, optional, allow_trail } => {
                assert(children(self.table()[id as int])[0] == *rule);
                assert(children(self.table()[id as int])[1] == *by);
                self.parse_sep(*rule, *by, *optional, *allow_trail, s, pos, f, true, None, log)
            },
            Rule::Lines { rule } => {
                assert(children(self.table()[id as int])[0] == *rule);
                self.parse_lines(id, *rule, s, pos, f, log)
            },
        }
    }

    fn parse_seq(&self, args: &Vec<usize>, i: usize, s: &Vec<char>, pos: usize, fuel: usize,
        acc: Option<Failure>, log: &mut Vec<Tok>) -> (r: Outcome)
        requires
            self.wf(),
            forall|k: int| 0 <= k < args@.len() ==> args@[k] < self.table().len(),
            i <= args@.len(),
            pos <= s@.len(),
        ensures
            r == eval_seq(self.table(), args@, i as int, s@, pos, fuel as nat, acc).0,
            final(log)@ == old(log)@ + eval_seq(self.table(), args@, i as int, s@, pos, fuel as nat, acc).1,
            r matches Ok((end, _)) ==> pos <= end <= s@.len(),
            r is Err ==> final(log)@ == old(log)@,
        decreases fuel, 1 + args@.len() - i,
    {
        if i >= args.len() {
            assert(old(log)@ =~= old(log)@ + Seq::<Tok>::empty());
            return Ok((pos, acc));
        }
        let mark = log.len();
        match self.parse(args[i], s, pos, fuel, log) {
            Err(e) => {
                assert(final(log)@ =~= old(log)@ + Seq::<Tok>::empty());
                Err(deeper_failure(e, acc))
            },
            Ok((end, e2)) => {
                let ghost mid = log@;
                let r = self.parse_seq(args, i + 1, s, end, fuel, merge_failure(e2, acc), log);
                if r.is_err() {
                    log.truncate(mark);
                    assert(final(log)@ =~= old(log)@ + Seq::<Tok>::empty());
                } else {
                    assert(final(log)@ =~= old(log)@ + eval_seq(self.table(), args@, i as int, s@, pos, fuel as nat, acc).1);
                }
                r
            },
        }
    }

    fn parse_select(&self, id: usize, args: &Vec<usize>, i: usize, s: &Vec<char>, pos: usize, fuel: usize,
        acc: Option<Failure>, log: &mut Vec<Tok>) -> (r: Outcome)
        requires
            self.wf(),
            forall|k: int| 0 <= k < args@.len() ==> args@[k] < self.table().len(),
            i <= args@.len(),
            pos <= s@.len(),
        ensures
            r == eval_select(self.table(), id, args@, i as int, s@, pos, fuel as nat, acc).0,
            final(log)@ == old(log)@ + eval_select(self.table(), id, args@, i as int, s@, pos, fuel as nat, acc).1,
            r matches Ok((end, _)) ==> pos <= end <= s@.len(),
            r is Err ==> final(log)@ == old(log)@,
        decreases fuel, 1 + args@.len() - i,
    {
        if i >= args.len() {
            assert(old(log)@ =~= old(log)@ + Seq::<Tok>::empty());
            return match acc {
                Some(e) => Err(e),
                None => Err(Failure { offset: pos, length: 0, cause: Cause::NoAlternatives(id) }),
            };
        }
        match self.parse(args[i], s, pos, fuel, log) {
            Ok((end, e2)) => Ok((end, merge_failure(e2, acc))),
            Err(e) => {
                assert(log@ =~= old(log)@);
                self.parse_select(id, args, i + 1, s, pos, fuel, merge_failure(Some(e), acc), log)
            },
        }
    }

    fn parse_repeat(&self, rule: usize, s: &Vec<char>, pos: usize, fuel: usize, first: bool,
        acc: Option<Failure>, log: &mut Vec<Tok>) -> (r: Outcome)
        requires
            self.wf(),
            rule < self.table().len(),
            pos <= s@.len(),
        ensures
            r == eval_repeat(self.table(), rule, s@, pos, fuel as nat, first, acc).0,
            final(log)@ == old(log)@ + eval_repeat(self.table(), rule, s@, pos, fuel as nat, first, acc).1,
            r matches Ok((end, _)) ==> pos <= end <= s@.len(),
            r is Err ==> final(log)@ == old(log)@,
        decreases fuel, 1 + s@.len() - pos,
    {
        let mark = log.len();
        match self.parse(rule, s, pos, fuel, log) {
            Err(e) => {
                assert(final(log)@ =~= old(log)@ + Seq::<Tok>::empty());
                if first {
                    Err(deeper_failure(e, acc))
                } else {
                    Ok((pos, merge_failure(Some(e), acc)))
                }
            },
            Ok((end, e2)) => {
                let acc2 = merge_failure(e2, acc);
                if pos < end {
                    let r = self.parse_repeat(rule, s, end, fuel, false, acc2, log);
                    if r.is_err() {
                        log.truncate(mark);
                        assert(final(log)@ =~= old(log)@ + Seq::<Tok>::empty());
                    } else {
                        assert(final(log)@ =~= old(log)@ + eval_repeat(self.table(), rule, s@, pos, fuel as nat, first, acc).1);
                    }
                    r
                } else {
                    Ok((end, acc2))
                }
            },
        }
    }

    fn parse_sep(&self, rule: usize, by: usize, optional: bool, allow_trail: bool, s: &Vec<char>, pos: usize,
        fuel: usize, first: bool, acc: Option<Failure>, log: &mut Vec<Tok>) -> (r: Outcome)
        requires
            self.wf(),
            rule < self.table().len(),
            by < self.table().len(),
            pos <= s@.len(),
        ensures
            r == eval_sep(self.table(), rule, by, optional, allow_trail, s@, pos, fuel as nat, first, acc).0,
            final(log)@ == old(log)@ + eval_sep(self.table(), rule, by, optional, allow_trail, s@, pos, fuel as nat, first, acc).1,
            r matches Ok((end, _)) ==> pos <= end <= s@.len(),
            r is Err ==> final(log)@ == old(log)@,
        decreases fuel, 1 + s@.len() - pos,
    {
        let mark = log.len();
        match self.parse(rule, s, pos, fuel, log) {
            Err(e) => {
                assert(final(log)@ =~= old(log)@ + Seq::<Tok>::empty());
                if (first && !optional) || (!first && !allow_trail) {
                    Err(deeper_failure(e, acc))
                } else {
                    Ok((pos, merge_failure(Some(e), acc)))
                }
            },
            Ok((end, e2)) => {
                let acc1 = merge_failure(e2, acc);
                let ghost after_item = log@;
                match self.parse(by, s, end, fuel, log) {
                    Err(e) => {
                        assert(log@ =~= after_item);
                        Ok((end, merge_failure(Some(e), acc1)))
                    },
                    Ok((end2, e3)) => {
                        let acc2 = merge_failure(e3, acc1);
                        if pos < end2 {
                            let r = self.parse_sep(rule, by, optional, allow_trail, s, end2, fuel, false, acc2, log);
                            if r.is_err() {
                                log.truncate(mark);
                                assert(final(log)@ =~= old(log)@ + Seq::<Tok>::empty());
                            } else {
                                assert(final(log)@ =~= old(log)@ + eval_sep(self.table(), rule, by, optional, allow_trail, s@, pos, fuel as nat, first, acc).1);
                            }
                            r
                        } else {
                            assert(log@ =~= old(log)@ + eval_sep(self.table(), rule, by, optional, allow_trail, s@, pos, fuel as nat, first, acc).1);
                            Ok((end2, acc2))
                        }
                    },
                }
            },
        }
    }

    fn parse_lines(&self, id: usize, rule: usize, s: &Vec<char>, pos: usize, fuel: usize,
        log: &mut Vec<Tok>) -> (r: Outcome)
        requires
            self.wf(),
            rule < self.table().len(),
            pos <= s@.len(),
        ensures
            r == eval_lines(self.table(), id, rule, s@, pos, fuel as nat, true, None).0,
            final(log)@ == old(log)@ + eval_lines(self.table(), id, rule, s@, pos, fuel as nat, true, None).1,
            r matches Ok((end, _)) ==> pos <= end <= s@.len(),
            r is Err ==> final(log)@ == old(log)@,
        decreases fuel, 1int,
    {
        let ghost total = eval_lines(self.table(), id, rule, s@, pos, fuel as nat, true, None);
        proof {
            lemma_lines_fail_bare(self.table(), id, rule, s@, pos, fuel as nat, true, None);
        }
        let ghost start = pos;
        let ghost mut emitted: Seq<Tok> = Seq::empty();
        let mark = log.len();
        let mut at = pos;
        let mut new_line = true;
        let mut seen: Option<Failure> = None;
        assert(emitted + total.1 =~= total.1);
        assert(log@ =~= old(log)@ + emitted);
        loop
            invariant
                self.wf(),
                rule < self.table().len(),
                start == pos,
                mark == old(log)@.len(),
                start <= at <= s@.len(),
                log@ == old(log)@ + emitted,
                total == eval_lines(self.table(), id, rule, s@, start, fuel as nat, true, None),
                total.0 is Err ==> total.1 == Seq::<Tok>::empty(),
                eval_lines(self.table(), id, rule, s@, at, fuel as nat, new_line, seen).0 == total.0,
                eval_lines(self.table(), id, rule, s@, at, fuel as nat, new_line, seen).0 is Ok
                    ==> emitted + eval_lines(self.table(), id, rule, s@, at, fuel as nat, new_line, seen).1 == total.1,
            decreases s@.len() - at,
        {
            let p = skip_blank(s, at);
            if p >= s.len() {
                assert(log@ =~= old(log)@ + total.1);
                return Ok((p, seen));
            }
            if s[p] == '\n' {
                at = p + 1;
                new_line = true;
            } else if !new_line {
                log.truncate(mark);
                assert(log@ =~= old(log)@ + total.1);
                return Err(deeper_failure(Failure { offset: at, length: 0, cause: Cause::ExpectedNewLine(id) }, seen));
            } else {
                let ghost before = log@;
                match self.parse(rule, s, at, fuel, log) {
                    Err(e) => {
                        assert(log@ =~= old(log)@ + total.1);
                        return Ok((at, merge_failure(Some(e), seen)));
                    },
                    Ok((end, e2)) => {
                        let next = merge_failure(e2, seen);
                        if at < end {
                            let nl = newline_at_end(s, at, end);
                            proof {
                                let t = eval(self.table(), rule, s@, at, fuel as nat).1;
                                let rest = eval_lines(self.table(), id, rule, s@, end, fuel as nat, nl, next);
                                assert(log@ == before + t);
                                if rest.0 is Ok {
                                    assert(emitted + (t + rest.1) =~= (emitted + t) + rest.1);
                                }
                                emitted = emitted + t;
                                assert(log@ =~= old(log)@ + emitted);
                            }
                            at = end;
                            new_line = nl;
                            seen = next;
                        } else {
                            log.truncate(mark);
                            assert(log@ =~= old(log)@ + total.1);
                            return Err(deeper_failure(Failure { offset: at, length: 0, cause: Cause::ExpectedNewLine(id) }, next));
                        }
                    },
                }
            }
        }
    }
}


/// How deeply rules may nest when a whole input is checked.
pub const DEPTH: usize = 2048;

/// Whether rule `top` of `g` accepts the whole of `s`: the failure reported
/// is the rule's own, or, where it matched short of the end, the deepest
/// failure seen, or else one at the first offset left unconsumed.
pub open spec fn verdict(g: Seq<RuleView>, top: usize, s: Seq<char>) -> Result<(), Failure> {
    match eval(g, top, s, 0, DEPTH as nat).0 {
        Err(e) => Err(e),
        Ok((end, err)) => if end >= s.len() {
            Ok(())
        } else {
            match err {
                Some(e) => Err(e),
                None => Err(Failure { offset: end, length: 0, cause: Cause::ExpectedEnd }),
            }
        },
    }
}

impl Grammar {
    /// Checks that rule `top` accepts the whole of `s`.
    pub fn check(&self, top: usize, s: &Vec<char>) -> (r: Result<(), Failure>)
        requires
            self.wf(),
            top < self.table().len(),
        ensures
            r == verdict(self.table(), top, s@),
    {
        let mut log: Vec<Tok> = Vec::new();
        match self.parse(top, s, 0, DEPTH, &mut log) {
            Err(e) => Err(e),
            Ok((end, err)) => if end >= s.len() {
                Ok(())
            } else {
                match err {
                    Some(e) => Err(e),
                    None => Err(Failure { offset: end, length: 0, cause: Cause::ExpectedEnd }),
                }
            },
        }
    }
}

} // verus!
