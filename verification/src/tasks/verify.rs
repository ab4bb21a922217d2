//! Proof verification surface. `Unverifiable` is a non-blocking flag,
//! not a pass: to decide whether every proof of a plan holds use
//! [`VerifyReport::all_strongly_verified`].
use vstd::prelude::*;
use vstd::string::*;

use crate::tasks::types::{Proof, TaskId};
use crate::text::{decimal, owned, push_decimal};

verus! {

/// Checks the evidence a completed task carries. Consumers supply their
/// own implementations (git, file system, test suite, ...).
pub trait Verifier {
    /// Verify a single proof. Never fails — unknown kinds return
    /// `VerifyResult::Unverifiable`.
    fn verify(&self, proof: &Proof) -> VerifyResult;
}

/// Outcome of verifying one proof.
#[derive(Debug, Clone, PartialEq, Eq)]
pub enum VerifyResult {
    /// Proof holds.
    Verified { message: String },
    /// Proof was valid when recorded but has since decayed.
    Decayed { reason: String },
    /// Proof kind can't be mechanically verified (e.g. text proofs).
    Unverifiable { reason: String },
}

/// A verifier that reports every proof as `Unverifiable`.
pub struct NoopVerifier;

impl Verifier for NoopVerifier {
    fn verify(&self, _proof: &Proof) -> (r: VerifyResult)
        ensures
            r matches VerifyResult::Unverifiable { reason } && reason@
                == "no verifier configured"@,
    {
        VerifyResult::Unverifiable { reason: owned("no verifier configured") }
    }
}

/// The verdict for one task.
#[derive(Debug, Clone, PartialEq, Eq)]
pub struct VerifyEntry {
    pub task_id: TaskId,
    pub result: VerifyResult,
}

/// Per-task verdicts for one plan.
#[derive(Debug, Clone, PartialEq, Eq)]
pub struct VerifyReport {
    pub plan: String,
    pub results: Vec<VerifyEntry>,
}

/// Number of entries whose result satisfies `f`.
pub open spec fn count_results(s: Seq<VerifyEntry>, f: spec_fn(VerifyResult) -> bool) -> nat
    decreases s.len(),
{
    if s.len() == 0 {
        0
    } else {
        count_results(s.drop_last(), f) + if f(s.last().result) {
            1nat
        } else {
            0nat
        }
    }
}

pub open spec fn is_verified(r: VerifyResult) -> bool {
    r is Verified
}

pub open spec fn is_decayed(r: VerifyResult) -> bool {
    r is Decayed
}

pub open spec fn is_unverifiable(r: VerifyResult) -> bool {
    r is Unverifiable
}

proof fn lemma_count_bounded(s: Seq<VerifyEntry>, f: spec_fn(VerifyResult) -> bool)
    ensures
        count_results(s, f) <= s.len(),
    decreases s.len(),
{
    if s.len() > 0 {
        lemma_count_bounded(s.drop_last(), f);
    }
}

/// Which of the three verdicts an entry carries.
enum Category {
    Verified,
    Decayed,
    Unverifiable,
}

spec fn category_holds(c: Category, r: VerifyResult) -> bool {
    match c {
        Category::Verified => is_verified(r),
        Category::Decayed => is_decayed(r),
        Category::Unverifiable => is_unverifiable(r),
    }
}

fn entry_in(c: &Category, e: &VerifyEntry) -> (b: bool)
    ensures
        b == category_holds(*c, e.result),
{
    match (c, &e.result) {
        (Category::Verified, VerifyResult::Verified { .. }) => true,
        (Category::Decayed, VerifyResult::Decayed { .. }) => true,
        (Category::Unverifiable, VerifyResult::Unverifiable { .. }) => true,
        _ => false,
    }
}

impl VerifyReport {
    fn count_category(&self, c: Category) -> (n: usize)
        ensures
            n == count_results(self.results@, |r: VerifyResult| category_holds(c, r)),
    {
        let ghost f = |r: VerifyResult| category_holds(c, r);
        let mut n: usize = 0;
        let mut i: usize = 0;
        while i < self.results.len()
            invariant
                i <= self.results.len(),
                n == count_results(self.results@.take(i as int), f),
                f == (|r: VerifyResult| category_holds(c, r)),
            decreases self.results.len() - i,
        {
            proof {
                assert(self.results@.take(i + 1).drop_last() =~= self.results@.take(i as int));
                lemma_count_bounded(self.results@.take(i as int), f);
            }
            if entry_in(&c, &self.results[i]) {
                n = n + 1;
            }
            i = i + 1;
        }
        proof {
            assert(self.results@.take(i as int) =~= self.results@);
        }
        n
    }

    /// Number of `Verified` entries.
    pub fn verified_count(&self) -> (n: usize)
        ensures
            n == count_results(self.results@, |r: VerifyResult| is_verified(r)),
    {
        let n = self.count_category(Category::Verified);
        proof {
            assert((|r: VerifyResult| category_holds(Category::Verified, r)) =~= (|r: VerifyResult|
                is_verified(r)));
        }
        n
    }

    /// Number of `Decayed` entries.
    pub fn decayed_count(&self) -> (n: usize)
        ensures
            n == count_results(self.results@, |r: VerifyResult| is_decayed(r)),
    {
        let n = self.count_category(Category::Decayed);
        proof {
            assert((|r: VerifyResult| category_holds(Category::Decayed, r)) =~= (|r: VerifyResult|
                is_decayed(r)));
        }
        n
    }

    /// Number of `Unverifiable` entries.
    pub fn unverifiable_count(&self) -> (n: usize)
        ensures
            n == count_results(self.results@, |r: VerifyResult| is_unverifiable(r)),
    {
        let n = self.count_category(Category::Unverifiable);
        proof {
            assert((|r: VerifyResult| category_holds(Category::Unverifiable, r)) =~= (|
                r: VerifyResult,
            | is_unverifiable(r)));
        }
        n
    }

    /// True iff the report is non-empty and every entry is `Verified`.
    /// `Unverifiable` entries do not count as passing.
    pub fn all_strongly_verified(&self) -> (b: bool)
        ensures
            b == (self.results@.len() > 0 && forall|i: int|
                0 <= i < self.results@.len() ==> (#[trigger] self.results@[i]).result is Verified),
    {
        if self.results.len() == 0 {
            return false;
        }
        let mut i: usize = 0;
        while i < self.results.len()
            invariant
                i <= self.results.len(),
                forall|j: int| 0 <= j < i ==> (#[trigger] self.results@[j]).result is Verified,
            decreases self.results.len() - i,
        {
            if !entry_in(&Category::Verified, &self.results[i]) {
                return false;
            }
            i = i + 1;
        }
        true
    }

    /// True iff at least one entry is `Unverifiable`.
    pub fn has_unverifiable(&self) -> (b: bool)
        ensures
            b == exists|i: int|
                0 <= i < self.results@.len() && (#[trigger] self.results@[i]).result is Unverifiable,
    {
        let mut i: usize = 0;
        while i < self.results.len()
            invariant
                i <= self.results.len(),
                forall|j: int|
                    0 <= j < i ==> !((#[trigger] self.results@[j]).result is Unverifiable),
            decreases self.results.len() - i,
        {
            if entry_in(&Category::Unverifiable, &self.results[i]) {
                return true;
            }
            i = i + 1;
        }
        false
    }

    /// One-line summary naming the three counts, flagging that
    /// unverifiable proofs are not to be treated as success.
    pub fn summary(&self) -> (s: String)
        ensures
            s@ == decimal(count_results(self.results@, |r: VerifyResult| is_verified(r)))
                + " verified (mechanically checked); "@ + decimal(
                count_results(self.results@, |r: VerifyResult| is_decayed(r)),
            ) + " decayed (proof no longer holds); "@ + decimal(
                count_results(self.results@, |r: VerifyResult| is_unverifiable(r)),
            )
                + " unverifiable (text proof \u{2014} human attestation, not mechanically checked; do NOT treat as success)."@,
    {
        let verified = self.verified_count();
        let decayed = self.decayed_count();
        let unverifiable = self.unverifiable_count();
        let mut s = String::new();
        push_decimal(&mut s, verified as u64);
        s.append(" verified (mechanically checked); ");
        push_decimal(&mut s, decayed as u64);
        s.append(" decayed (proof no longer holds); ");
        push_decimal(&mut s, unverifiable as u64);
        s.append(
            " unverifiable (text proof \u{2014} human attestation, not mechanically checked; do NOT treat as success).",
        );
        proof {
            assert(s@ =~= decimal(verified as nat) + " verified (mechanically checked); "@
                + decimal(decayed as nat) + " decayed (proof no longer holds); "@ + decimal(
                unverifiable as nat,
            )
                + " unverifiable (text proof \u{2014} human attestation, not mechanically checked; do NOT treat as success)."@);
        }
        s
    }
}

} // verus!
