//! Properties of the access check.
use vstd::prelude::*;

use crate::taint::check::{
    access_result, any, applies, denies, of_kind, taint_with,
};
use crate::taint::types::{spec_is_active, ConfidenceBand, Taint, TaintCheck, TaintEffect, TaintKind};
use crate::time::Timestamp;

verus! {

proof fn lemma_any_witness(s: Seq<Taint>, p: spec_fn(Taint) -> bool, i: int)
    requires
        0 <= i < s.len(),
        p(s[i]),
    ensures
        any(s, p),
    decreases s.len(),
{
    if i < s.len() - 1 {
        lemma_any_witness(s.drop_last(), p, i);
    }
}

proof fn lemma_any_none(s: Seq<Taint>, p: spec_fn(Taint) -> bool)
    requires
        forall|i: int| 0 <= i < s.len() ==> !p(#[trigger] s[i]),
    ensures
        !any(s, p),
    decreases s.len(),
{
    if s.len() > 0 {
        assert forall|i: int| 0 <= i < s.drop_last().len() implies !p(
            #[trigger] s.drop_last()[i],
        ) by {
            assert(s.drop_last()[i] == s[i]);
        }
        lemma_any_none(s.drop_last(), p);
    }
}

/// An applicable `Block` taint denies the write, whatever the
/// confidence and whoever the agent.
pub proof fn block_denies_write(
    cs: Seq<Taint>,
    agent_id: Seq<char>,
    confidence: ConfidenceBand,
    c: TaintCheck,
    i: int,
)
    requires
        access_result(cs, agent_id, confidence, c),
        0 <= i < cs.len(),
        cs[i].kind == TaintKind::Taint,
        cs[i].effect == TaintEffect::Block,
    ensures
        !c.can_write,
        c.tainted,
{
    lemma_any_witness(cs, taint_with(TaintEffect::Block), i);
    lemma_any_witness(cs, of_kind(TaintKind::Taint), i);
}

/// An applicable quarantine whose allowlist leaves out the agent denies
/// the write.
pub proof fn unauthorized_quarantine_denies_write(
    cs: Seq<Taint>,
    agent_id: Seq<char>,
    confidence: ConfidenceBand,
    c: TaintCheck,
    i: int,
)
    requires
        access_result(cs, agent_id, confidence, c),
        0 <= i < cs.len(),
        cs[i].kind == TaintKind::Quarantine,
        !crate::taint::types::authorized_list(cs[i]).contains(agent_id),
    ensures
        !c.can_write,
        c.quarantined,
{
    lemma_any_witness(cs, denies(agent_id), i);
    lemma_any_witness(cs, of_kind(TaintKind::Quarantine), i);
}

/// An applicable `Review` taint lets the write through only with
/// review-level confidence.
pub proof fn review_requires_confidence(
    cs: Seq<Taint>,
    agent_id: Seq<char>,
    confidence: ConfidenceBand,
    c: TaintCheck,
    i: int,
)
    requires
        access_result(cs, agent_id, confidence, c),
        0 <= i < cs.len(),
        cs[i].kind == TaintKind::Taint,
        cs[i].effect == TaintEffect::Review,
    ensures
        c.review_required,
        c.can_write ==> confidence == ConfidenceBand::AtLeastReview,
{
    lemma_any_witness(cs, taint_with(TaintEffect::Review), i);
}

/// Warnings, isolation and watches never deny a write: without an
/// applicable quarantine, `Block` or `Review` taint, the write is allowed
/// unless its confidence is below zero.
pub proof fn advisory_taints_never_deny(
    cs: Seq<Taint>,
    agent_id: Seq<char>,
    confidence: ConfidenceBand,
    c: TaintCheck,
)
    requires
        access_result(cs, agent_id, confidence, c),
        forall|i: int|
            0 <= i < cs.len() ==> (#[trigger] cs[i]).kind != TaintKind::Quarantine && !(
            cs[i].kind == TaintKind::Taint && (cs[i].effect == TaintEffect::Block
                || cs[i].effect == TaintEffect::Review)),
    ensures
        c.can_write == (confidence != ConfidenceBand::Negative),
        !c.review_required,
{
    lemma_any_none(cs, denies(agent_id));
    lemma_any_none(cs, taint_with(TaintEffect::Block));
    lemma_any_none(cs, taint_with(TaintEffect::Review));
}

/// A resolved or expired taint applies to no path.
pub proof fn inactive_taints_never_apply(t: Taint, path: Seq<char>, now: Timestamp)
    requires
        !spec_is_active(t, now),
    ensures
        !applies(t, path, now),
{
}

} // verus!
