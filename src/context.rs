use vstd::prelude::*;
use crate::pair::Triple;
use crate::store::{views, FactView};

verus! {

/// How many facts touching each operand go into the context.
pub const PER_OPERAND: usize = 5;

/// The first `n` elements of `s`, or all of them when there are fewer.
pub open spec fn first_n<T>(s: Seq<T>, n: nat) -> Seq<T> {
    if s.len() <= n {
        s
    } else {
        s.take(n as int)
    }
}

/// `s` with each run of equal adjacent elements collapsed to its first element.
pub open spec fn dedup_adjacent<T>(s: Seq<T>) -> Seq<T>
    decreases s.len(),
{
    if s.len() == 0 {
        s
    } else if s.len() >= 2 && s[s.len() - 2] == s.last() {
        dedup_adjacent(s.drop_last())
    } else {
        dedup_adjacent(s.drop_last()).push(s.last())
    }
}

/// The context for a pair: up to five facts touching each operand, those of `a`
/// first, with adjacent repeats removed.
pub open spec fn context_of(from_a: Seq<FactView>, from_b: Seq<FactView>) -> Seq<FactView> {
    dedup_adjacent(first_n(from_a, PER_OPERAND as nat) + first_n(from_b, PER_OPERAND as nat))
}

/// One fact as a line of the prompt.
pub open spec fn fact_line(t: FactView) -> Seq<char> {
    "% "@ + t.0 + " + "@ + t.1 + " = "@ + t.2
}

/// The lines of the facts, joined by newlines.
pub open spec fn render_lines(ts: Seq<FactView>) -> Seq<char>
    decreases ts.len(),
{
    if ts.len() == 0 {
        Seq::empty()
    } else if ts.len() == 1 {
        fact_line(ts[0])
    } else {
        render_lines(ts.drop_last()) + "\n"@ + fact_line(ts.last())
    }
}

/// Removing adjacent repeats never lengthens a sequence.
pub proof fn lemma_dedup_len<T>(s: Seq<T>)
    ensures
        dedup_adjacent(s).len() <= s.len(),
    decreases s.len(),
{
    if s.len() > 0 {
        lemma_dedup_len(s.drop_last());
    }
}

/// A context holds at most five facts from each side, so at most ten in all.
pub proof fn lemma_context_bounded(from_a: Seq<FactView>, from_b: Seq<FactView>)
    ensures
        context_of(from_a, from_b).len() <= 2 * PER_OPERAND,
{
    lemma_dedup_len(first_n(from_a, PER_OPERAND as nat) + first_n(from_b, PER_OPERAND as nat));
}

/// How many newline characters `s` holds.
pub open spec fn newlines(s: Seq<char>) -> nat
    decreases s.len(),
{
    if s.len() == 0 {
        0
    } else {
        newlines(s.drop_last()) + if s.last() == '\n' { 1nat } else { 0nat }
    }
}

/// No part of the fact holds a newline.
pub open spec fn single_line(t: FactView) -> bool {
    newlines(t.0) == 0 && newlines(t.1) == 0 && newlines(t.2) == 0
}

/// Every fact of `ts` is free of newlines.
pub open spec fn all_single_line(ts: Seq<FactView>) -> bool {
    forall|i: int| 0 <= i < ts.len() ==> single_line(#[trigger] ts[i])
}

proof fn lemma_newlines_concat(x: Seq<char>, y: Seq<char>)
    ensures
        newlines(x + y) == newlines(x) + newlines(y),
    decreases y.len(),
{
    if y.len() > 0 {
        assert((x + y).drop_last() =~= x + y.drop_last());
        lemma_newlines_concat(x, y.drop_last());
    }
}

proof fn lemma_no_newline_chars(s: Seq<char>)
    requires
        forall|i: int| 0 <= i < s.len() ==> s[i] != '\n',
    ensures
        newlines(s) == 0,
    decreases s.len(),
{
    if s.len() > 0 {
        lemma_no_newline_chars(s.drop_last());
    }
}

proof fn lemma_fact_line_single(t: FactView)
    requires
        single_line(t),
    ensures
        newlines(fact_line(t)) == 0,
{
    reveal_strlit("% ");
    reveal_strlit(" + ");
    reveal_strlit(" = ");
    lemma_no_newline_chars("% "@);
    lemma_no_newline_chars(" + "@);
    lemma_no_newline_chars(" = "@);
    lemma_newlines_concat("% "@, t.0);
    lemma_newlines_concat("% "@ + t.0, " + "@);
    lemma_newlines_concat("% "@ + t.0 + " + "@, t.1);
    lemma_newlines_concat("% "@ + t.0 + " + "@ + t.1, " = "@);
    lemma_newlines_concat("% "@ + t.0 + " + "@ + t.1 + " = "@, t.2);
}

/// Facts free of newlines render as one line each.
pub proof fn lemma_render_lines_count(ts: Seq<FactView>)
    requires
        all_single_line(ts),
        ts.len() > 0,
    ensures
        newlines(render_lines(ts)) == ts.len() - 1,
    decreases ts.len(),
{
    lemma_fact_line_single(ts.last());
    if ts.len() > 1 {
        let p = ts.drop_last();
        assert(all_single_line(p)) by {
            assert forall|i: int| 0 <= i < p.len() implies single_line(#[trigger] p[i]) by {
                assert(p[i] == ts[i]);
            }
        }
        lemma_render_lines_count(p);
        assert(newlines("\n"@) == 1) by {
            reveal_strlit("\n");
            assert("\n"@.len() == 1);
            assert("\n"@.last() == '\n');
            assert("\n"@.drop_last() =~= Seq::<char>::empty());
            assert(newlines(Seq::<char>::empty()) == 0);
        }
        lemma_newlines_concat(render_lines(p), "\n"@);
        lemma_newlines_concat(render_lines(p) + "\n"@, fact_line(ts.last()));
    } else {
        assert(render_lines(ts) == fact_line(ts[0]));
    }
}

/// Removing adjacent repeats keeps only elements of the input.
proof fn lemma_dedup_single_line(s: Seq<FactView>)
    requires
        all_single_line(s),
    ensures
        all_single_line(dedup_adjacent(s)),
    decreases s.len(),
{
    if s.len() > 0 {
        let p = s.drop_last();
        assert(all_single_line(p)) by {
            assert forall|i: int| 0 <= i < p.len() implies single_line(#[trigger] p[i]) by {
                assert(p[i] == s[i]);
            }
        }
        lemma_dedup_single_line(p);
        let d = dedup_adjacent(p);
        assert(single_line(s.last()));
        assert(all_single_line(d.push(s.last()))) by {
            assert forall|i: int| 0 <= i < d.len() + 1 implies single_line(#[trigger] d.push(s.last())[i]) by {
                if i < d.len() {
                    assert(d.push(s.last())[i] == d[i]);
                }
            }
        }
    }
}

/// When no stored fact holds a newline, the rendered context has at most ten
/// lines: at most five facts per operand, one line each.
pub proof fn lemma_context_lines(from_a: Seq<FactView>, from_b: Seq<FactView>)
    requires
        all_single_line(from_a),
        all_single_line(from_b),
    ensures
        newlines(render_lines(context_of(from_a, from_b))) < 2 * PER_OPERAND,
{
    let xa = first_n(from_a, PER_OPERAND as nat);
    let xb = first_n(from_b, PER_OPERAND as nat);
    let m = xa + xb;
    assert(all_single_line(m)) by {
        assert forall|i: int| 0 <= i < m.len() implies single_line(#[trigger] m[i]) by {
            if i < xa.len() {
                assert(m[i] == from_a[i]);
            } else {
                assert(m[i] == from_b[i - xa.len()]);
            }
        }
    }
    lemma_dedup_single_line(m);
    lemma_context_bounded(from_a, from_b);
    let c = context_of(from_a, from_b);
    if c.len() > 0 {
        lemma_render_lines_count(c);
    }
}

/// Appends clones of the first `n` facts of `src` (all, if there are fewer) to `out`.
fn push_first(out: &mut Vec<Triple>, src: &Vec<Triple>, n: usize)
    ensures
        views(final(out)@) == views(old(out)@) + first_n(views(src@), n as nat),
{
    let m = if src.len() < n { src.len() } else { n };
    let ghost start = views(out@);
    let mut i: usize = 0;
    while i < m
        invariant
            m <= src@.len(),
            i <= m,
            views(out@) == start + views(src@).take(i as int),
        decreases m - i,
    {
        let ghost before = out@;
        out.push(src[i].clone());
        assert(views(out@) =~= views(before).push(src@[i as int]@));
        assert(views(src@).take(i + 1) =~= views(src@).take(i as int).push(src@[i as int]@));
        i = i + 1;
    }
    assert(views(src@).take(m as int) =~= first_n(views(src@), n as nat));
}

/// Builds the few-shot context of a pair from the facts touching its first
/// operand (`from_a`) and those touching its second (`from_b`): the first five
/// of each, `from_a`'s first, then adjacent repeats removed.
pub fn build_context(from_a: &Vec<Triple>, from_b: &Vec<Triple>) -> (r: Vec<Triple>)
    ensures
        views(r@) == context_of(views(from_a@), views(from_b@)),
{
    let mut merged: Vec<Triple> = Vec::new();
    assert(views(merged@) =~= Seq::<FactView>::empty());
    push_first(&mut merged, from_a, PER_OPERAND);
    push_first(&mut merged, from_b, PER_OPERAND);
    let ghost all = views(merged@);
    assert(all =~= first_n(views(from_a@), PER_OPERAND as nat) + first_n(views(from_b@), PER_OPERAND as nat));
    let n = merged.len();
    let mut r: Vec<Triple> = Vec::new();
    let mut i: usize = 0;
    assert(all.take(0) =~= Seq::<FactView>::empty());
    assert(views(r@) =~= Seq::<FactView>::empty());
    while i < n
        invariant
            n == merged@.len(),
            all == views(merged@),
            i <= n,
            views(r@) == dedup_adjacent(all.take(i as int)),
        decreases n - i,
    {
        assert(all.take(i + 1).drop_last() =~= all.take(i as int));
        assert(all.take(i + 1).last() == merged@[i as int]@);
        if i > 0 {
            assert(all.take(i + 1)[i - 1] == merged@[i - 1]@);
        }
        if i == 0 || merged[i - 1] != merged[i] {
            let ghost before = r@;
            r.push(merged[i].clone());
            assert(views(r@) =~= views(before).push(merged@[i as int]@));
        }
        i = i + 1;
    }
    assert(all.take(n as int) =~= all);
    r
}

/// Renders facts as prompt lines `% a + b = c`, one per fact, joined by newlines.
pub fn render_examples(facts: &Vec<Triple>) -> (r: String)
    ensures
        r@ == render_lines(views(facts@)),
{
    let n = facts.len();
    let mut r = String::new();
    let mut i: usize = 0;
    assert(views(facts@).take(0) =~= Seq::<FactView>::empty());
    while i < n
        invariant
            n == facts@.len(),
            i <= n,
            r@ == render_lines(views(facts@).take(i as int)),
        decreases n - i,
    {
        let t = &facts[i];
        let ghost vs = views(facts@).take(i + 1);
        assert(vs.drop_last() =~= views(facts@).take(i as int));
        assert(vs.last() == t@);
        if i > 0 {
            r.append("\n");
        }
        r.append("% ");
        r.append(t.a.as_str());
        r.append(" + ");
        r.append(t.b.as_str());
        r.append(" = ");
        r.append(t.c.as_str());
        assert(r@ =~= render_lines(vs));
        i = i + 1;
    }
    assert(views(facts@).take(n as int) =~= views(facts@));
    r
}

} // verus!
