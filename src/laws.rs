//! Laws that relate the matcher, the completer and the acceptor.
use vstd::prelude::*;
use crate::frontier::{
    candidates, completion_key, live, missing, offered, stepped, token_matches, Frontier,
};
use crate::grammar::{
    hidden_of, is_command, is_value, name_of, once_only, params_of, required_of, successors_of,
    wf, with_successors, fields_of, GrammarNode,
};
use crate::nodes::NodeId;

verus! {

/// With an empty partial token, a successor is offered exactly when it is
/// visible and not a once-only node already matched on the line.
pub proof fn empty_partial_offers_all(g: Seq<GrammarNode>, visited: Seq<NodeId>, i: NodeId)
    ensures
        offered(g, visited, Seq::<char>::empty(), i) == (!hidden_of(g, i) && live(g, visited, i)),
{
    assert(Seq::<char>::empty() =~= completion_key(g, i).subrange(0, 0));
}

/// A hidden node is never offered as a completion.
pub proof fn hidden_never_offered(
    g: Seq<GrammarNode>,
    visited: Seq<NodeId>,
    partial: Seq<char>,
    i: NodeId,
)
    requires
        hidden_of(g, i),
    ensures
        !offered(g, visited, partial, i),
{
}

/// A live successor, hidden or not, is a candidate for the token that is its
/// exact name (or for any non-empty token, at a value position).
pub proof fn hidden_still_matches(
    g: Seq<GrammarNode>,
    current: NodeId,
    visited: Seq<NodeId>,
    i: NodeId,
)
    requires
        successors_of(g, current).contains(i),
        live(g, visited, i),
        !is_value(g, i),
    ensures
        candidates(g, current, visited, name_of(g, i)).contains(i),
{
    let tok = name_of(g, i);
    let p = |j: NodeId| live(g, visited, j) && token_matches(g, j, tok);
    let succ = successors_of(g, current);
    let k = choose|k: int| 0 <= k < succ.len() && succ[k] == i;
    assert(p(succ[k]));
    succ.lemma_filter_contains(p, k);
}

/// Once a once-only node is matched, no token makes it a candidate again
/// until a command begins a new context.
pub proof fn once_only_not_rematched(
    g: Seq<GrammarNode>,
    a: Frontier,
    b: Frontier,
    w: NodeId,
    tok: Seq<char>,
    next: NodeId,
    t: Seq<char>,
)
    requires
        stepped(g, a, b, w, tok),
        once_only(g, w),
    ensures
        !candidates(g, next, b.visited@, t).contains(w),
{
    assert(!is_command(g, w));
    assert(b.visited@[b.visited@.len() - 1] == w);
    assert(!live(g, b.visited@, w));
    let p = |j: NodeId| live(g, b.visited@, j) && token_matches(g, j, t);
    let c = successors_of(g, next).filter(p);
    if c.contains(w) {
        let k = choose|k: int| 0 <= k < c.len() && c[k] == w;
        successors_of(g, next).lemma_filter_pred(p, k);
    }
}

/// Matching anything but a command keeps every node already used up.
pub proof fn used_up_stays_used(
    g: Seq<GrammarNode>,
    a: Frontier,
    b: Frontier,
    w: NodeId,
    tok: Seq<char>,
    u: NodeId,
)
    requires
        stepped(g, a, b, w, tok),
        !is_command(g, w),
        a.visited@.contains(u),
    ensures
        b.visited@.contains(u),
{
    let k = choose|k: int| 0 <= k < a.visited@.len() && a.visited@[k] == u;
    assert(b.visited@[k] == u);
}

/// A node that is not once-only stays live whatever has been matched.
pub proof fn repeatable_stays_live(g: Seq<GrammarNode>, visited: Seq<NodeId>, i: NodeId)
    requires
        !once_only(g, i),
    ensures
        live(g, visited, i),
{
}

/// Nothing is missing exactly when every required declared parameter of the
/// command has been satisfied.
pub proof fn nothing_missing_iff_satisfied(g: Seq<GrammarNode>, c: NodeId, satisfied: Seq<NodeId>)
    ensures
        missing(g, c, satisfied).len() == 0 <==> (forall|p: NodeId|
            params_of(g, c).contains(p) && required_of(g, p) ==> satisfied.contains(p)),
{
    let q = |p: NodeId| required_of(g, p) && !satisfied.contains(p);
    let ps = params_of(g, c);
    if missing(g, c, satisfied).len() == 0 {
        assert forall|p: NodeId|
            params_of(g, c).contains(p) && required_of(g, p) implies satisfied.contains(p) by {
            if !satisfied.contains(p) {
                let k = choose|k: int| 0 <= k < ps.len() && ps[k] == p;
                assert(q(ps[k]));
                ps.lemma_filter_contains(q, k);
            }
        }
    }
    if missing(g, c, satisfied).len() > 0 {
        let f = ps.filter(q);
        ps.lemma_filter_pred(q, 0);
        assert(f.contains(f[0]));
        ps.lemma_filter_contains_rev(q, f[0]);
    }
}

/// When the only required declared parameter not satisfied is `p`, the
/// missing list is exactly `p`.
pub proof fn missing_names_exactly_one(
    g: Seq<GrammarNode>,
    c: NodeId,
    satisfied: Seq<NodeId>,
    p: NodeId,
)
    requires
        params_of(g, c).no_duplicates(),
        params_of(g, c).contains(p),
        required_of(g, p),
        !satisfied.contains(p),
        forall|q: NodeId|
            params_of(g, c).contains(q) && required_of(g, q) && q != p ==> satisfied.contains(q),
    ensures
        missing(g, c, satisfied) == seq![p],
{
    let q = |x: NodeId| required_of(g, x) && !satisfied.contains(x);
    lemma_filter_single(params_of(g, c), q, p);
}

proof fn lemma_filter_none(s: Seq<NodeId>, pred: spec_fn(NodeId) -> bool)
    requires
        forall|i: int| 0 <= i < s.len() ==> !pred(s[i]),
    ensures
        s.filter(pred).len() == 0,
{
    if s.filter(pred).len() > 0 {
        let f = s.filter(pred);
        s.lemma_filter_pred(pred, 0);
        assert(f.contains(f[0]));
        s.lemma_filter_contains_rev(pred, f[0]);
        let i = choose|i: int| 0 <= i < s.len() && s[i] == f[0];
        assert(!pred(s[i]));
    }
}

proof fn lemma_filter_single(s: Seq<NodeId>, pred: spec_fn(NodeId) -> bool, p: NodeId)
    requires
        s.no_duplicates(),
        s.contains(p),
        forall|i: int| 0 <= i < s.len() ==> (pred(s[i]) <==> s[i] == p),
    ensures
        s.filter(pred) == seq![p],
    decreases s.len(),
{
    reveal(Seq::filter);
    let d = s.drop_last();
    if s.last() == p {
        assert forall|i: int| 0 <= i < d.len() implies !pred(d[i]) by {
            assert(s[i] == d[i]);
            assert(s[i] != s[s.len() - 1]);
        }
        lemma_filter_none(d, pred);
        assert(s.filter(pred) =~= seq![p]);
    } else {
        let k = choose|k: int| 0 <= k < s.len() && s[k] == p;
        assert(d[k] == p);
        assert forall|i: int, j: int| 0 <= i < j < d.len() implies d[i] != d[j] by {
            assert(s[i] != s[j]);
        }
        assert forall|i: int| 0 <= i < d.len() implies (pred(d[i]) <==> d[i] == p) by {
            assert(s[i] == d[i]);
        }
        lemma_filter_single(d, pred, p);
    }
}

/// A wrapper's successors are its delegate's, as the grammar stands now.
pub proof fn wrapper_follows_delegate(g: Seq<GrammarNode>, w: NodeId)
    requires
        wf(g),
        w < g.len(),
        g[w as int] is Wrapper,
    ensures
        successors_of(g, w) == successors_of(g, g[w as int]->Wrapper_0.delegate),
{
    assert(w > 0);
    assert(g[w as int]->Wrapper_0.delegate < w);
}

/// A successor added to a delegate after its wrapper was built (as
/// `Grammar::add_successor` adds it) is a successor of the wrapper too.
pub proof fn wrapper_sees_later_successors(
    g: Seq<GrammarNode>,
    h: Seq<GrammarNode>,
    w: NodeId,
    s: Vec<NodeId>,
    c: NodeId,
)
    requires
        wf(g),
        w < g.len(),
        g[w as int] is Wrapper,
        !(g[g[w as int]->Wrapper_0.delegate as int] is Wrapper),
        s@ == fields_of(g[g[w as int]->Wrapper_0.delegate as int]).successors@.push(c),
        h == g.update(
            g[w as int]->Wrapper_0.delegate as int,
            with_successors(g[g[w as int]->Wrapper_0.delegate as int], s),
        ),
    ensures
        successors_of(h, w) == successors_of(g, w).push(c),
{
    let d = g[w as int]->Wrapper_0.delegate;
    assert(w > 0);
    assert(d < w);
    assert(h[w as int] == g[w as int]);
    assert(!(h[d as int] is Wrapper));
    assert(fields_of(h[d as int]).successors == s);
    assert(successors_of(h, d) == s@);
    assert(successors_of(g, d) == fields_of(g[d as int]).successors@);
    assert(successors_of(h, w) == successors_of(h, d));
    assert(successors_of(g, w) == successors_of(g, d));
}

} // verus!
