//! The access check: given candidate taints and a request, decide
//! whether the write may proceed. Pure: fetching candidates is the
//! caller's business.
use vstd::prelude::*;

use crate::taint::types::{
    authorized_list, spec_is_active, taint_matches, texts, ConfidenceBand, Taint, TaintCheck,
    TaintEffect, TaintKind,
};
use crate::text::{push_char, seq_ends_with_char, seq_starts_with, str_eq, str_ends_with_char,
    str_starts_with};
use crate::time::Timestamp;

verus! {

/// The prefix a propagating taint on `p` covers: `p` ending in `/`, so
/// that `/a/b` does not cover `/a/banana`.
pub open spec fn boundary(p: Seq<char>) -> Seq<char> {
    if seq_ends_with_char(p, '/') {
        p
    } else {
        p.push('/')
    }
}

/// Taint `t` applies to a write at `path` at time `now`: it is active,
/// and it sits on `path` itself or propagates from an ancestor of it.
pub open spec fn applies(t: Taint, path: Seq<char>, now: Timestamp) -> bool {
    spec_is_active(t, now) && (t.path@ == path || (t.propagate && seq_starts_with(
        path,
        boundary(t.path@),
    )))
}

pub open spec fn applies_to(path: Seq<char>, now: Timestamp) -> spec_fn(Taint) -> bool {
    |t: Taint| applies(t, path, now)
}

/// The candidates that apply to a write at `path` at `now`, in order.
pub open spec fn applicable(cands: Seq<Taint>, path: Seq<char>, now: Timestamp) -> Seq<Taint> {
    cands.filter(applies_to(path, now))
}

fn applies_exec(t: &Taint, request_path: &str, now: Timestamp) -> (b: bool)
    ensures
        b == applies(*t, request_path@, now),
{
    if !t.is_active(now) {
        return false;
    }
    if str_eq(t.path.as_str(), request_path) {
        return true;
    }
    if !t.propagate {
        return false;
    }
    if str_ends_with_char(t.path.as_str(), '/') {
        str_starts_with(request_path, t.path.as_str())
    } else {
        let mut prefix = t.path.clone();
        push_char(&mut prefix, '/');
        str_starts_with(request_path, prefix.as_str())
    }
}

/// The candidates whose path is `request_path`, or a propagating
/// ancestor of it, and that are active at `now`, in order.
pub fn ancestor_candidates<'a>(request_path: &str, candidates: &'a [Taint], now: Timestamp) -> (r:
    Vec<&'a Taint>)
    ensures
        r@.len() == applicable(candidates@, request_path@, now).len(),
        forall|i: int|
            0 <= i < r@.len() ==> *(#[trigger] r@[i]) == applicable(
                candidates@,
                request_path@,
                now,
            )[i],
{
    let ghost p = applies_to(request_path@, now);
    let mut out: Vec<&'a Taint> = Vec::new();
    let mut i: usize = 0;
    proof {
        reveal(Seq::filter);
        assert(candidates@.take(0) =~= Seq::<Taint>::empty());
    }
    while i < candidates.len()
        invariant
            i <= candidates@.len(),
            p == applies_to(request_path@, now),
            out@.len() == candidates@.take(i as int).filter(p).len(),
            forall|j: int|
                0 <= j < out@.len() ==> *(#[trigger] out@[j]) == candidates@.take(i as int).filter(
                    p,
                )[j],
        decreases candidates.len() - i,
    {
        let ghost pre = candidates@.take(i as int);
        let ghost t = candidates@[i as int];
        proof {
            assert(candidates@.take(i + 1) =~= pre.push(t));
            pre.lemma_filter_push(t, p);
        }
        if applies_exec(&candidates[i], request_path, now) {
            out.push(&candidates[i]);
        }
        i = i + 1;
    }
    proof {
        assert(candidates@.take(candidates@.len() as int) =~= candidates@);
    }
    out
}

/// Some element of `s` satisfies `p`.
pub open spec fn any(s: Seq<Taint>, p: spec_fn(Taint) -> bool) -> bool
    decreases s.len(),
{
    s.len() > 0 && (any(s.drop_last(), p) || p(s.last()))
}

pub open spec fn of_kind(k: TaintKind) -> spec_fn(Taint) -> bool {
    |t: Taint| t.kind == k
}

/// A taint (not a quarantine or watch) with effect `e`.
pub open spec fn taint_with(e: TaintEffect) -> spec_fn(Taint) -> bool {
    |t: Taint| t.kind == TaintKind::Taint && t.effect == e
}

/// A quarantine whose allowlist leaves out `agent`.
pub open spec fn denies(agent: Seq<char>) -> spec_fn(Taint) -> bool {
    |t: Taint| t.kind == TaintKind::Quarantine && !authorized_list(t).contains(agent)
}

/// Each record of `a` matches the record of `b` at the same position.
pub open spec fn all_match(a: Seq<Taint>, b: Seq<Taint>) -> bool {
    &&& a.len() == b.len()
    &&& forall|i: int| 0 <= i < a.len() ==> taint_matches(#[trigger] a[i], b[i])
}

/// `acc` followed by the elements of `xs` it does not hold yet, in
/// order, each once.
pub open spec fn add_new(acc: Seq<Seq<char>>, xs: Seq<Seq<char>>) -> Seq<Seq<char>>
    decreases xs.len(),
{
    if xs.len() == 0 {
        acc
    } else {
        let a = add_new(acc, xs.drop_last());
        if a.contains(xs.last()) {
            a
        } else {
            a.push(xs.last())
        }
    }
}

/// The union of the allowlists of `qs`, in order of first appearance.
pub open spec fn agent_union(qs: Seq<Taint>) -> Seq<Seq<char>>
    decreases qs.len(),
{
    if qs.len() == 0 {
        Seq::empty()
    } else {
        add_new(agent_union(qs.drop_last()), authorized_list(qs.last()))
    }
}

/// The confidence is enough: review-level when a review taint
/// applies, otherwise any confidence that is not below zero.
pub open spec fn confidence_ok(band: ConfidenceBand, review: bool) -> bool {
    if review {
        band == ConfidenceBand::AtLeastReview
    } else {
        band != ConfidenceBand::Negative
    }
}

/// What `evaluate_access` reports for the applicable taints `cs`.
pub open spec fn access_result(
    cs: Seq<Taint>,
    agent_id: Seq<char>,
    confidence: ConfidenceBand,
    c: TaintCheck,
) -> bool {
    &&& c.tainted == any(cs, of_kind(TaintKind::Taint))
    &&& c.quarantined == any(cs, of_kind(TaintKind::Quarantine))
    &&& c.watched == any(cs, of_kind(TaintKind::Watch))
    &&& all_match(c.taints@, cs.filter(of_kind(TaintKind::Taint)))
    &&& all_match(c.quarantines@, cs.filter(of_kind(TaintKind::Quarantine)))
    &&& all_match(c.watches@, cs.filter(of_kind(TaintKind::Watch)))
    &&& c.review_required == any(cs, taint_with(TaintEffect::Review))
    &&& c.isolated == any(cs, taint_with(TaintEffect::Isolate))
    &&& texts(c.authorized_agents@) == agent_union(cs.filter(of_kind(TaintKind::Quarantine)))
    &&& c.can_write == (!any(cs, denies(agent_id)) && !any(cs, taint_with(TaintEffect::Block))
        && confidence_ok(confidence, any(cs, taint_with(TaintEffect::Review))))
}

fn contains_text(v: &Vec<String>, s: &str) -> (b: bool)
    ensures
        b == texts(v@).contains(s@),
{
    let mut i: usize = 0;
    while i < v.len()
        invariant
            i <= v@.len(),
            forall|j: int| 0 <= j < i ==> (#[trigger] v@[j])@ != s@,
        decreases v.len() - i,
    {
        if str_eq(v[i].as_str(), s) {
            assert(texts(v@)[i as int] == s@);
            return true;
        }
        i = i + 1;
    }
    proof {
        if texts(v@).contains(s@) {
            let j = choose|j: int| 0 <= j < texts(v@).len() && texts(v@)[j] == s@;
            assert(v@[j]@ == s@);
        }
    }
    false
}

/// Append to `acc` the agents of `xs` it does not hold yet, in order.
fn union_into(acc: &mut Vec<String>, xs: &Vec<String>)
    ensures
        texts(final(acc)@) == add_new(texts(old(acc)@), texts(xs@)),
{
    let ghost a0 = texts(acc@);
    let mut k: usize = 0;
    proof {
        assert(texts(xs@).take(0) =~= Seq::<Seq<char>>::empty());
    }
    while k < xs.len()
        invariant
            k <= xs@.len(),
            a0 == texts(old(acc)@),
            texts(acc@) == add_new(a0, texts(xs@).take(k as int)),
        decreases xs.len() - k,
    {
        proof {
            assert(texts(xs@).take(k + 1).drop_last() =~= texts(xs@).take(k as int));
            assert(texts(xs@).take(k + 1).last() == xs@[k as int]@);
        }
        if !contains_text(acc, xs[k].as_str()) {
            let ghost before = acc@;
            acc.push(xs[k].clone());
            proof {
                assert(texts(acc@) =~= texts(before).push(xs@[k as int]@));
            }
        }
        k = k + 1;
    }
    proof {
        assert(texts(xs@).take(xs@.len() as int) =~= texts(xs@));
    }
}

/// Evaluate a write by `agent_id` with the given confidence to
/// `request_path` at `now` against the candidate taints.
///
/// Precedence, strongest first: an applicable quarantine whose allowlist
/// leaves out the agent, or an applicable `Block` taint, denies the write;
/// an applicable `Review` taint requires review-level confidence;
/// `Isolate` taints only flag the path, and `Warn` taints and watches are
/// advisory.
pub fn evaluate_access(
    request_path: &str,
    agent_id: &str,
    confidence: ConfidenceBand,
    candidates: &[Taint],
    now: Timestamp,
) -> (c: TaintCheck)
    ensures
        access_result(applicable(candidates@, request_path@, now), agent_id@, confidence, c),
{
    let cs = ancestor_candidates(request_path, candidates, now);
    let ghost s = applicable(candidates@, request_path@, now);
    let mut out = TaintCheck::clear();
    let mut denied = false;
    let mut blocked = false;
    let mut j: usize = 0;
    proof {
        reveal(Seq::filter);
        assert(s.take(0) =~= Seq::<Taint>::empty());
        assert(texts(out.authorized_agents@) =~= Seq::<Seq<char>>::empty());
    }
    while j < cs.len()
        invariant
            j <= cs@.len(),
            cs@.len() == s.len(),
            forall|i: int| 0 <= i < cs@.len() ==> *(#[trigger] cs@[i]) == s[i],
            out.tainted == any(s.take(j as int), of_kind(TaintKind::Taint)),
            out.quarantined == any(s.take(j as int), of_kind(TaintKind::Quarantine)),
            out.watched == any(s.take(j as int), of_kind(TaintKind::Watch)),
            all_match(out.taints@, s.take(j as int).filter(of_kind(TaintKind::Taint))),
            all_match(out.quarantines@, s.take(j as int).filter(of_kind(TaintKind::Quarantine))),
            all_match(out.watches@, s.take(j as int).filter(of_kind(TaintKind::Watch))),
            out.review_required == any(s.take(j as int), taint_with(TaintEffect::Review)),
            out.isolated == any(s.take(j as int), taint_with(TaintEffect::Isolate)),
            texts(out.authorized_agents@) == agent_union(
                s.take(j as int).filter(of_kind(TaintKind::Quarantine)),
            ),
            denied == any(s.take(j as int), denies(agent_id@)),
            blocked == any(s.take(j as int), taint_with(TaintEffect::Block)),
        decreases cs.len() - j,
    {
        let t = cs[j];
        let ghost pre = s.take(j as int);
        proof {
            assert(s.take(j + 1) =~= pre.push(*t));
            assert(s.take(j + 1).drop_last() =~= pre);
            pre.lemma_filter_push(*t, of_kind(TaintKind::Taint));
            pre.lemma_filter_push(*t, of_kind(TaintKind::Quarantine));
            pre.lemma_filter_push(*t, of_kind(TaintKind::Watch));
        }
        match t.kind {
            TaintKind::Taint => {
                out.tainted = true;
                out.taints.push(t.copy());
                match t.effect {
                    TaintEffect::Block => {
                        blocked = true;
                    },
                    TaintEffect::Review => {
                        out.review_required = true;
                    },
                    TaintEffect::Isolate => {
                        out.isolated = true;
                    },
                    TaintEffect::Warn | TaintEffect::Advisory => {},
                }
            },
            TaintKind::Quarantine => {
                out.quarantined = true;
                out.quarantines.push(t.copy());
                let authorized = t.authorized_agents();
                union_into(&mut out.authorized_agents, &authorized);
                if !contains_text(&authorized, agent_id) {
                    denied = true;
                }
                proof {
                    let q = pre.filter(of_kind(TaintKind::Quarantine));
                    assert(q.push(*t).drop_last() =~= q);
                }
            },
            TaintKind::Watch => {
                out.watched = true;
                out.watches.push(t.copy());
            },
        }
        j = j + 1;
    }
    proof {
        assert(s.take(s.len() as int) =~= s);
    }
    let gate_ok = match confidence {
        ConfidenceBand::AtLeastReview => true,
        ConfidenceBand::BelowReview => !out.review_required,
        ConfidenceBand::Negative => false,
    };
    out.can_write = !denied && !blocked && gate_ok;
    out
}

} // verus!
