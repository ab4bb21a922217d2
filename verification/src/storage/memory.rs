//! Taint storage, and an in-process backend that holds taints and
//! reminders in memory.
use vstd::prelude::*;

use crate::keyed::{first_index, index_of, lemma_first_index_range, lemma_first_index_scan,
    lemma_index_of_range, lemma_index_of_scan};
use crate::reminders::error::ReminderError;
use crate::reminders::memory::MemoryReminderStore;
use crate::reminders::store::ReminderStore;
use crate::reminders::types::{Reminder, ReminderFilter};
use crate::storage::traits::StorageError;
use crate::taint::check::{ancestor_candidates, applicable};
use crate::taint::types::{taint_matches, Taint, TaintKind};
use crate::text::{owned, seq_starts_with, str_eq, str_starts_with};
use crate::time::{now_millis, Timestamp, MAX_TIMESTAMP};

verus! {

// ---------------------------------------------------------------------------
// Vocabulary
// ---------------------------------------------------------------------------

/// Taint records are looked up by id.
pub open spec fn taint_id() -> spec_fn(Taint) -> Seq<char> {
    |t: Taint| t.id@
}

/// Not resolved.
pub open spec fn unresolved(t: Taint) -> bool {
    t.resolved_at is None
}

/// Same path, name and kind: the slot at most one active taint holds.
pub open spec fn same_slot(a: Taint, b: Taint) -> bool {
    a.path@ == b.path@ && a.name@ == b.name@ && a.kind == b.kind
}

/// Some unresolved row already holds the slot of `t`.
pub open spec fn active_twin(rows: Seq<Taint>, t: Taint) -> bool {
    exists|i: int| 0 <= i < rows.len() && unresolved(rows[i]) && #[trigger] same_slot(rows[i], t)
}

/// No two unresolved rows share a slot.
pub open spec fn one_active_per_slot(rows: Seq<Taint>) -> bool {
    forall|i: int, j: int|
        0 <= i < rows.len() && 0 <= j < rows.len() && i != j && unresolved(rows[i]) && unresolved(
            rows[j],
        ) ==> !#[trigger] same_slot(rows[i], rows[j])
}

/// `a` holds what `b` holds, row by row.
pub open spec fn rows_match(a: Seq<Taint>, b: Seq<Taint>) -> bool {
    a.len() == b.len() && forall|i: int| 0 <= i < a.len() ==> taint_matches(#[trigger] a[i], b[i])
}

/// How a kind is spelled in messages.
pub open spec fn kind_name(k: TaintKind) -> Seq<char> {
    match k {
        TaintKind::Taint => "Taint"@,
        TaintKind::Quarantine => "Quarantine"@,
        TaintKind::Watch => "Watch"@,
    }
}

/// The refusal of a second active taint in the slot of `t`.
pub open spec fn duplicate_message(t: Taint) -> Seq<char> {
    "duplicate active taint ("@ + t.path@ + ", "@ + t.name@ + ", "@ + kind_name(t.kind) + ")"@
}

/// The text of an optional string slice.
pub open spec fn opt_text(o: Option<&str>) -> Option<Seq<char>> {
    match o {
        Some(s) => Some(s@),
        None => None,
    }
}

/// `r` is `t` resolved by `by` for `reason`, with `evidence`, at `at`.
pub open spec fn resolved_as(
    r: Taint,
    t: Taint,
    by: Seq<char>,
    reason: Seq<char>,
    evidence: Option<Seq<char>>,
    at: Timestamp,
) -> bool {
    &&& taint_matches(
        r,
        Taint {
            resolved_at: r.resolved_at,
            resolved_by: r.resolved_by,
            resolved_reason: r.resolved_reason,
            resolved_proof: r.resolved_proof,
            ..t
        },
    )
    &&& r.resolved_at == Some(at)
    &&& r.resolved_by matches Some(s) && s@ == by
    &&& r.resolved_reason matches Some(s) && s@ == reason
    &&& match evidence {
        Some(p) => (r.resolved_proof matches Some(s) && s@ == p),
        None => r.resolved_proof is None,
    }
}

/// `new` is `old` with row `i` replaced by one that `ok` accepts.
pub open spec fn all_but(old: Seq<Taint>, new: Seq<Taint>, i: int) -> bool {
    &&& new.len() == old.len()
    &&& 0 <= i < old.len()
    &&& forall|j: int| 0 <= j < old.len() && j != i ==> taint_matches(#[trigger] new[j], old[j])
}

/// Resolving the first row with id `id` took `old` to `new`.
pub open spec fn resolved_in(
    old: Seq<Taint>,
    new: Seq<Taint>,
    id: Seq<char>,
    by: Seq<char>,
    reason: Seq<char>,
    evidence: Option<Seq<char>>,
    at: Timestamp,
) -> bool {
    let i = index_of(old, taint_id(), id);
    &&& i >= 0
    &&& unresolved(old[i])
    &&& all_but(old, new, i)
    &&& resolved_as(new[i], old[i], by, reason, evidence, at)
}

/// Recording commit `commit` on the first row with id `id` took `old`
/// to `new`: the row takes the commit id while unresolved and stays as
/// it was once resolved.
pub open spec fn committed_in(old: Seq<Taint>, new: Seq<Taint>, id: Seq<char>, commit: Seq<char>) -> bool {
    let i = index_of(old, taint_id(), id);
    if i >= 0 && unresolved(old[i]) {
        &&& all_but(old, new, i)
        &&& taint_matches(new[i], Taint { commit_id: new[i].commit_id, ..old[i] })
        &&& new[i].commit_id@ == commit
    } else {
        rows_match(new, old)
    }
}

/// `p` without its trailing slashes.
pub open spec fn trim_slashes(p: Seq<char>) -> Seq<char>
    decreases p.len(),
{
    if p.len() > 0 && p.last() == '/' {
        trim_slashes(p.drop_last())
    } else {
        p
    }
}

/// Row `t` passes the listing filters.
pub open spec fn listed(t: Taint, prefix: Option<Seq<char>>, kind: Option<TaintKind>, include_resolved: bool) -> bool {
    &&& include_resolved || unresolved(t)
    &&& match prefix {
        None => true,
        Some(p) => t.path@ == p || seq_starts_with(t.path@, trim_slashes(p).push('/')),
    }
    &&& match kind {
        None => true,
        Some(k) => t.kind == k,
    }
}

pub open spec fn listed_by(prefix: Option<Seq<char>>, kind: Option<TaintKind>, include_resolved: bool) -> spec_fn(Taint) -> bool {
    |t: Taint| listed(t, prefix, kind, include_resolved)
}

/// Created before `c`.
pub open spec fn older_than(c: Timestamp) -> spec_fn(Taint) -> bool {
    |t: Taint| t.created_at < c
}

/// Where a row created at `c` goes in a newest-first list: before the
/// first strictly older row, after every row at least as new.
pub open spec fn slot_for(v: Seq<Taint>, c: Timestamp) -> int {
    let i = first_index(v, older_than(c));
    if i < 0 {
        v.len() as int
    } else {
        i
    }
}

/// The rows of `s`, newest first; rows created at the same instant keep
/// their order.
pub open spec fn newest_first(s: Seq<Taint>) -> Seq<Taint>
    decreases s.len(),
{
    if s.len() == 0 {
        Seq::empty()
    } else {
        let v = newest_first(s.drop_last());
        v.insert(slot_for(v, s.last().created_at), s.last())
    }
}

/// Creation times never increase along `v`.
pub open spec fn sorted_newest_first(v: Seq<Taint>) -> bool {
    forall|i: int, j: int| 0 <= i < j < v.len() ==> (#[trigger] v[i]).created_at >= (
    #[trigger] v[j]).created_at
}

/// What `list_taints` returns: the rows that pass the filters, newest
/// first.
pub open spec fn listing_of(rows: Seq<Taint>, prefix: Option<Seq<char>>, kind: Option<TaintKind>, include_resolved: bool) -> Seq<Taint> {
    newest_first(rows.filter(listed_by(prefix, kind, include_resolved)))
}

// ---------------------------------------------------------------------------
// The storage interface
// ---------------------------------------------------------------------------

/// The refusal of a store that does not keep taints.
pub open spec fn taints_unsupported(e: StorageError) -> bool {
    e matches StorageError::Backend(m) && m@ == "taint storage not supported"@
}

/// Durable storage for taint records. Backends implement it; the
/// default methods report that taint storage is not supported.
pub trait TaintStore {
    /// The stored records, in the order they were created.
    spec fn rows(&self) -> Seq<Taint>;

    /// Insert a new record. Refused while an unresolved record holds the
    /// same path, name and kind; a resolved one stays as an audit row.
    fn create_taint(&mut self, taint: &Taint) -> (res: Result<(), StorageError>)
        ensures
            res is Ok ==> !active_twin(old(self).rows(), *taint) && rows_match(
                final(self).rows(),
                old(self).rows().push(*taint),
            ),
            res is Err ==> final(self).rows() == old(self).rows(),
        default_ensures
            res matches Err(e) && taints_unsupported(e),
    {
        Err(StorageError::Backend(owned("taint storage not supported")))
    }

    /// Mark the record with id `id` resolved; refused when it is missing
    /// or already resolved.
    fn resolve_taint(
        &mut self,
        id: &str,
        resolved_by: &str,
        reason: &str,
        resolved_proof: Option<&str>,
        resolved_at: Timestamp,
    ) -> (res: Result<(), StorageError>)
        ensures
            res is Ok ==> resolved_in(
                old(self).rows(),
                final(self).rows(),
                id@,
                resolved_by@,
                reason@,
                opt_text(resolved_proof),
                resolved_at,
            ),
            res is Err ==> final(self).rows() == old(self).rows(),
        default_ensures
            res matches Err(e) && taints_unsupported(e),
    {
        Err(StorageError::Backend(owned("taint storage not supported")))
    }

    /// The records under `path_prefix` (the path itself or below it) of
    /// kind `kind`, resolved ones only when asked for, newest first.
    fn list_taints(
        &self,
        path_prefix: Option<&str>,
        kind: Option<TaintKind>,
        include_resolved: bool,
    ) -> (res: Result<Vec<Taint>, StorageError>)
        ensures
            res matches Ok(v) ==> rows_match(
                v@,
                listing_of(self.rows(), opt_text(path_prefix), kind, include_resolved),
            ),
        default_ensures
            res matches Err(e) && taints_unsupported(e),
    {
        Err(StorageError::Backend(owned("taint storage not supported")))
    }

    /// Every record active now that sits on `request_path` or propagates
    /// from an ancestor of it, in order.
    fn check_taint(&self, request_path: &str) -> (res: Result<Vec<Taint>, StorageError>)
        ensures
            res matches Ok(v) ==> exists|now: Timestamp|
                0 <= now <= MAX_TIMESTAMP && rows_match(
                    v@,
                    #[trigger] applicable(self.rows(), request_path@, now),
                ),
        default_ensures
            res matches Err(e) && taints_unsupported(e),
    {
        Err(StorageError::Backend(owned("taint storage not supported")))
    }

    /// The record with id `id`, if any.
    fn get_taint(&self, id: &str) -> (res: Result<Option<Taint>, StorageError>)
        ensures
            res matches Ok(o) ==> match o {
                Some(t) => index_of(self.rows(), taint_id(), id@) >= 0 && taint_matches(
                    t,
                    self.rows()[index_of(self.rows(), taint_id(), id@)],
                ),
                None => index_of(self.rows(), taint_id(), id@) < 0,
            },
        default_ensures
            res matches Err(e) && taints_unsupported(e),
    {
        Err(StorageError::Backend(owned("taint storage not supported")))
    }

    /// Record the commit that created the record with id `id`; nothing
    /// changes once the record is resolved.
    fn set_taint_commit_id(&mut self, id: &str, commit_id: &str) -> (res: Result<(), StorageError>)
        ensures
            res is Ok ==> committed_in(old(self).rows(), final(self).rows(), id@, commit_id@),
            res is Err ==> final(self).rows() == old(self).rows(),
        default_ensures
            res matches Err(e) && taints_unsupported(e),
    {
        Err(StorageError::Backend(owned("taint storage not supported")))
    }
}

// ---------------------------------------------------------------------------
// Laws of the interface
// ---------------------------------------------------------------------------

/// Every record holds what it holds.
proof fn lemma_taint_matches_refl(t: Taint)
    ensures
        taint_matches(t, t),
{
}

/// A create that succeeded keeps at most one unresolved record per
/// path, name and kind.
pub proof fn creating_keeps_one_active_per_slot(rows: Seq<Taint>, t: Taint, after: Seq<Taint>)
    requires
        one_active_per_slot(rows),
        !active_twin(rows, t),
        rows_match(after, rows.push(t)),
    ensures
        one_active_per_slot(after),
{
    let n = rows.len() as int;
    assert forall|i: int, j: int|
        0 <= i < after.len() && 0 <= j < after.len() && i != j && unresolved(after[i])
            && unresolved(after[j]) implies !#[trigger] same_slot(after[i], after[j]) by {
        assert(taint_matches(after[i], rows.push(t)[i]));
        assert(taint_matches(after[j], rows.push(t)[j]));
        if i < n && j < n {
            assert(same_slot(after[i], after[j]) == same_slot(rows[i], rows[j]));
        } else if i == n {
            assert(same_slot(after[i], after[j]) == same_slot(rows[j], t));
        } else {
            assert(same_slot(after[i], after[j]) == same_slot(rows[i], t));
        }
    }
}

/// A resolve that succeeded keeps at most one unresolved record per
/// path, name and kind.
pub proof fn resolving_keeps_one_active_per_slot(
    rows: Seq<Taint>,
    after: Seq<Taint>,
    id: Seq<char>,
    by: Seq<char>,
    reason: Seq<char>,
    evidence: Option<Seq<char>>,
    at: Timestamp,
)
    requires
        one_active_per_slot(rows),
        resolved_in(rows, after, id, by, reason, evidence, at),
    ensures
        one_active_per_slot(after),
{
    let k = index_of(rows, taint_id(), id);
    assert forall|i: int, j: int|
        0 <= i < after.len() && 0 <= j < after.len() && i != j && unresolved(after[i])
            && unresolved(after[j]) implies !#[trigger] same_slot(after[i], after[j]) by {
        assert(i != k && j != k);
        assert(taint_matches(after[i], rows[i]));
        assert(taint_matches(after[j], rows[j]));
        assert(same_slot(after[i], after[j]) == same_slot(rows[i], rows[j]));
    }
}

/// Resolving a record frees its slot: a new record with the same path,
/// name and kind can then be created.
pub proof fn resolving_frees_the_slot(
    rows: Seq<Taint>,
    after: Seq<Taint>,
    id: Seq<char>,
    by: Seq<char>,
    reason: Seq<char>,
    evidence: Option<Seq<char>>,
    at: Timestamp,
)
    requires
        one_active_per_slot(rows),
        resolved_in(rows, after, id, by, reason, evidence, at),
    ensures
        !active_twin(after, rows[index_of(rows, taint_id(), id)]),
{
    let k = index_of(rows, taint_id(), id);
    assert forall|i: int| 0 <= i < after.len() && unresolved(after[i]) implies !#[trigger] same_slot(
        after[i],
        rows[k],
    ) by {
        assert(i != k);
        assert(taint_matches(after[i], rows[i]));
        assert(same_slot(after[i], rows[k]) == same_slot(rows[i], rows[k]));
    }
}

/// Recording a commit id keeps at most one unresolved record per path,
/// name and kind.
pub proof fn committing_keeps_one_active_per_slot(
    rows: Seq<Taint>,
    after: Seq<Taint>,
    id: Seq<char>,
    commit: Seq<char>,
)
    requires
        one_active_per_slot(rows),
        committed_in(rows, after, id, commit),
    ensures
        one_active_per_slot(after),
{
    assert forall|i: int, j: int|
        0 <= i < after.len() && 0 <= j < after.len() && i != j && unresolved(after[i])
            && unresolved(after[j]) implies !#[trigger] same_slot(after[i], after[j]) by {
        let k = index_of(rows, taint_id(), id);
        if k >= 0 && unresolved(rows[k]) {
            assert(taint_matches(after[k], Taint { commit_id: after[k].commit_id, ..rows[k] }));
            if i != k {
                assert(taint_matches(after[i], rows[i]));
            }
            if j != k {
                assert(taint_matches(after[j], rows[j]));
            }
            assert(same_slot(after[i], after[j]) == same_slot(rows[i], rows[j]));
        } else {
            assert(taint_matches(after[i], rows[i]));
            assert(taint_matches(after[j], rows[j]));
            assert(same_slot(after[i], after[j]) == same_slot(rows[i], rows[j]));
        }
    }
}

/// A created record is what a lookup by its id then finds, when no
/// earlier record carries that id.
pub proof fn created_taint_is_found(rows: Seq<Taint>, t: Taint, after: Seq<Taint>)
    requires
        index_of(rows, taint_id(), t.id@) < 0,
        rows_match(after, rows.push(t)),
    ensures
        index_of(after, taint_id(), t.id@) == rows.len(),
        taint_matches(after[rows.len() as int], t),
{
    lemma_index_of_range(rows, taint_id(), t.id@);
    assert forall|j: int| 0 <= j < rows.len() implies taint_id()(#[trigger] after[j]) != t.id@ by {
        assert(taint_matches(after[j], rows.push(t)[j]));
        assert(taint_id()(rows[j]) != t.id@);
    }
    assert(taint_matches(after[rows.len() as int], rows.push(t)[rows.len() as int]));
    lemma_index_of_scan(after, taint_id(), t.id@, rows.len() as int);
}

// ---------------------------------------------------------------------------
// Newest-first order
// ---------------------------------------------------------------------------

/// `first_index` depends only on which elements satisfy the predicate.
proof fn lemma_first_index_agree(a: Seq<Taint>, b: Seq<Taint>, p: spec_fn(Taint) -> bool)
    requires
        a.len() == b.len(),
        forall|j: int| 0 <= j < a.len() ==> p(#[trigger] a[j]) == p(b[j]),
    ensures
        first_index(a, p) == first_index(b, p),
    decreases a.len(),
{
    if a.len() > 0 && !p(a[0]) {
        let (ta, tb) = (a.drop_first(), b.drop_first());
        assert forall|j: int| 0 <= j < ta.len() implies p(#[trigger] ta[j]) == p(tb[j]) by {
            assert(ta[j] == a[j + 1] && tb[j] == b[j + 1]);
        }
        lemma_first_index_agree(ta, tb, p);
    }
}

proof fn lemma_slot_for_range(v: Seq<Taint>, c: Timestamp)
    ensures
        0 <= slot_for(v, c) <= v.len(),
        forall|j: int| 0 <= j < slot_for(v, c) ==> (#[trigger] v[j]).created_at >= c,
        slot_for(v, c) < v.len() ==> v[slot_for(v, c)].created_at < c,
{
    lemma_first_index_range(v, older_than(c));
    let i = first_index(v, older_than(c));
    assert forall|j: int| 0 <= j < slot_for(v, c) implies (#[trigger] v[j]).created_at >= c by {
        assert(!older_than(c)(v[j]));
    }
    if i >= 0 {
        assert(older_than(c)(v[i]));
    }
}

/// Placing a row in a newest-first list keeps it newest-first.
proof fn lemma_place_sorted(v: Seq<Taint>, x: Taint)
    requires
        sorted_newest_first(v),
    ensures
        sorted_newest_first(v.insert(slot_for(v, x.created_at), x)),
{
    let k = slot_for(v, x.created_at);
    lemma_slot_for_range(v, x.created_at);
    let w = v.insert(k, x);
    assert forall|i: int, j: int| 0 <= i < j < w.len() implies (#[trigger] w[i]).created_at >= (
    #[trigger] w[j]).created_at by {
        if j < k {
            assert(w[i] == v[i] && w[j] == v[j]);
        } else if j == k {
            assert(w[i] == v[i]);
        } else if i < k {
            assert(w[i] == v[i] && w[j] == v[j - 1]);
        } else if i == k {
            assert(w[j] == v[j - 1]);
            assert(v[k].created_at < x.created_at);
            assert(v[k].created_at >= v[j - 1].created_at);
        } else {
            assert(w[i] == v[i - 1] && w[j] == v[j - 1]);
        }
    }
}

/// Inserting an element adds it to the multiset of elements.
#[verifier::spinoff_prover]
proof fn lemma_insert_to_multiset(v: Seq<Taint>, k: int, x: Taint)
    requires
        0 <= k <= v.len(),
    ensures
        v.insert(k, x).to_multiset() == v.to_multiset().insert(x),
{
    broadcast use vstd::seq_lib::group_to_multiset_ensures;

    let w = v.insert(k, x);
    assert(w.remove(k) =~= v);
    assert(w[k] == x);
    assert(w.to_multiset().remove(x) =~= v.to_multiset());
    assert(w.contains(x));
    assert(w.to_multiset() =~= v.to_multiset().insert(x));
}

/// Listings come newest first and hold exactly the rows they were made
/// from.
pub proof fn listings_are_newest_first(s: Seq<Taint>)
    ensures
        sorted_newest_first(newest_first(s)),
        newest_first(s).to_multiset() == s.to_multiset(),
    decreases s.len(),
{
    if s.len() > 0 {
        let t = s.drop_last();
        let x = s.last();
        listings_are_newest_first(t);
        let v = newest_first(t);
        let k = slot_for(v, x.created_at);
        lemma_place_sorted(v, x);
        lemma_slot_for_range(v, x.created_at);
        lemma_insert_to_multiset(v, k, x);
        assert(s =~= t.push(x));
        vstd::seq_lib::to_multiset_build(t, x);
    } else {
        assert(s =~= newest_first(s));
    }
}

/// Insert `c` into a newest-first list, after every row at least as new.
fn place_newest(out: &mut Vec<Taint>, c: Taint)
    ensures
        final(out)@ == old(out)@.insert(slot_for(old(out)@, c.created_at), c),
{
    let ghost v = out@;
    let mut i: usize = 0;
    while i < out.len()
        invariant
            out@ == v,
            i <= v.len(),
            forall|j: int| 0 <= j < i ==> !older_than(c.created_at)(#[trigger] v[j]),
        ensures
            i <= v.len(),
            forall|j: int| 0 <= j < i ==> !older_than(c.created_at)(#[trigger] v[j]),
            i < v.len() ==> older_than(c.created_at)(v[i as int]),
        decreases out.len() - i,
    {
        if out[i].created_at < c.created_at {
            break;
        }
        i = i + 1;
    }
    proof {
        lemma_first_index_scan(v, older_than(c.created_at), i as int);
    }
    out.insert(i, c);
}

// ---------------------------------------------------------------------------
// Filters
// ---------------------------------------------------------------------------

/// `p` without its trailing slashes.
pub(crate) fn trim_trailing_slashes(p: &str) -> (r: String)
    ensures
        r@ == trim_slashes(p@),
{
    let mut n: usize = p.unicode_len();
    proof {
        assert(p@.take(n as int) =~= p@);
    }
    while n > 0 && p.get_char(n - 1) == '/'
        invariant
            n <= p@.len(),
            trim_slashes(p@) == trim_slashes(p@.take(n as int)),
        decreases n,
    {
        proof {
            assert(p@.take(n as int).drop_last() =~= p@.take(n - 1));
        }
        n = n - 1;
    }
    let mut r = String::new();
    let mut k: usize = 0;
    while k < n
        invariant
            n <= p@.len(),
            k <= n,
            r@ == p@.take(k as int),
        decreases n - k,
    {
        let ch = p.get_char(k);
        crate::text::push_char(&mut r, ch);
        proof {
            assert(p@.take(k + 1) =~= p@.take(k as int).push(ch));
        }
        k = k + 1;
    }
    proof {
        assert(n == 0 || p@.take(n as int).last() != '/');
        assert(trim_slashes(p@.take(n as int)) == p@.take(n as int));
    }
    r
}

/// `p` with its trailing slashes removed, then one `/` added.
fn slash_prefix(p: &str) -> (r: String)
    ensures
        r@ == trim_slashes(p@).push('/'),
{
    let mut r = trim_trailing_slashes(p);
    crate::text::push_char(&mut r, '/');
    r
}

/// Whether `t` passes the listing filters.
fn listed_exec(t: &Taint, path_prefix: Option<&str>, kind: Option<TaintKind>, include_resolved: bool) -> (b: bool)
    ensures
        b == listed(*t, opt_text(path_prefix), kind, include_resolved),
{
    if !include_resolved && t.resolved_at.is_some() {
        return false;
    }
    let path_ok = match path_prefix {
        None => true,
        Some(p) => {
            if str_eq(t.path.as_str(), p) {
                true
            } else {
                let q = slash_prefix(p);
                str_starts_with(t.path.as_str(), q.as_str())
            }
        },
    };
    let kind_ok = match kind {
        None => true,
        Some(k) => t.kind == k,
    };
    path_ok && kind_ok
}

/// Index of the first record with id `id`.
fn find_taint(v: &Vec<Taint>, id: &str) -> (r: Option<usize>)
    ensures
        match r {
            Some(i) => i == index_of(v@, taint_id(), id@),
            None => index_of(v@, taint_id(), id@) < 0,
        },
{
    let mut i: usize = 0;
    while i < v.len()
        invariant
            i <= v@.len(),
            forall|j: int| 0 <= j < i ==> taint_id()(#[trigger] v@[j]) != id@,
        decreases v.len() - i,
    {
        if str_eq(v[i].id.as_str(), id) {
            proof {
                lemma_index_of_scan(v@, taint_id(), id@, i as int);
            }
            return Some(i);
        }
        i = i + 1;
    }
    proof {
        lemma_index_of_scan(v@, taint_id(), id@, i as int);
    }
    None
}

fn kind_text(k: TaintKind) -> (r: &'static str)
    ensures
        r@ == kind_name(k),
{
    match k {
        TaintKind::Taint => "Taint",
        TaintKind::Quarantine => "Quarantine",
        TaintKind::Watch => "Watch",
    }
}

fn duplicate_text(t: &Taint) -> (m: String)
    ensures
        m@ == duplicate_message(*t),
{
    let mut m = owned("duplicate active taint (");
    m.append(t.path.as_str());
    m.append(", ");
    m.append(t.name.as_str());
    m.append(", ");
    m.append(kind_text(t.kind));
    m.append(")");
    m
}

/// `taint <id> not found`.
pub open spec fn not_found_message(id: Seq<char>) -> Seq<char> {
    "taint "@ + id + " not found"@
}

/// `taint <id> is already resolved`.
pub open spec fn already_resolved_message(id: Seq<char>) -> Seq<char> {
    "taint "@ + id + " is already resolved"@
}

fn id_message(id: &str, tail: &str) -> (m: String)
    ensures
        m@ == "taint "@ + id@ + tail@,
{
    let mut m = owned("taint ");
    m.append(id);
    m.append(tail);
    m
}

// ---------------------------------------------------------------------------
// In-memory backend
// ---------------------------------------------------------------------------

/// Taints and reminders held in memory.
pub struct MemoryStorage {
    taints: Vec<Taint>,
    reminders: MemoryReminderStore,
}

impl MemoryStorage {
    #[verifier::type_invariant]
    spec fn slots_unique(self) -> bool {
        one_active_per_slot(self.taints@)
    }

    /// An empty store.
    pub fn new() -> (s: MemoryStorage)
        ensures
            s.rows().len() == 0,
            s.contents() == Map::<Seq<char>, Reminder>::empty(),
    {
        MemoryStorage { taints: Vec::new(), reminders: MemoryReminderStore::new() }
    }

    /// Every record active at `now` that sits on `request_path` or
    /// propagates from an ancestor of it, in order.
    pub fn check_taint_at(&self, request_path: &str, now: Timestamp) -> (r: Vec<Taint>)
        ensures
            rows_match(r@, applicable(self.rows(), request_path@, now)),
    {
        let cs = ancestor_candidates(request_path, self.taints.as_slice(), now);
        let ghost s = applicable(self.rows(), request_path@, now);
        let mut out: Vec<Taint> = Vec::new();
        let mut j: usize = 0;
        while j < cs.len()
            invariant
                j <= cs@.len(),
                cs@.len() == s.len(),
                forall|i: int| 0 <= i < cs@.len() ==> *(#[trigger] cs@[i]) == s[i],
                out@.len() == j,
                forall|i: int| 0 <= i < j ==> taint_matches(#[trigger] out@[i], s[i]),
            decreases cs.len() - j,
        {
            let c = cs[j].copy();
            out.push(c);
            j = j + 1;
        }
        out
    }
}

impl Default for MemoryStorage {
    fn default() -> (s: Self)
        ensures
            s.rows().len() == 0,
            s.contents() == Map::<Seq<char>, Reminder>::empty(),
    {
        MemoryStorage::new()
    }
}

impl TaintStore for MemoryStorage {
    closed spec fn rows(&self) -> Seq<Taint> {
        self.taints@
    }

    fn create_taint(&mut self, taint: &Taint) -> (res: Result<(), StorageError>)
        ensures
            res is Ok <==> !active_twin(old(self).rows(), *taint),
            res matches Err(e) ==> (e matches StorageError::Backend(m) && m@ == duplicate_message(
                *taint,
            )),
            one_active_per_slot(final(self).rows()),
    {
        proof {
            use_type_invariant(&*self);
        }
        let mut i: usize = 0;
        while i < self.taints.len()
            invariant
                i <= self.taints@.len(),
                one_active_per_slot(self.taints@),
                forall|j: int|
                    0 <= j < i ==> !(unresolved(self.taints@[j]) && #[trigger] same_slot(
                        self.taints@[j],
                        *taint,
                    )),
            decreases self.taints.len() - i,
        {
            let e = &self.taints[i];
            if e.resolved_at.is_none() && str_eq(e.path.as_str(), taint.path.as_str()) && str_eq(
                e.name.as_str(),
                taint.name.as_str(),
            ) && e.kind == taint.kind {
                proof {
                    assert(same_slot(self.taints@[i as int], *taint));
                }
                return Err(StorageError::Backend(duplicate_text(taint)));
            }
            i = i + 1;
        }
        let c = taint.copy();
        let mut v: Vec<Taint> = Vec::new();
        std::mem::swap(&mut v, &mut self.taints);
        let ghost v0 = v@;
        v.push(c);
        proof {
            assert forall|j: int| 0 <= j < v@.len() implies taint_matches(
                #[trigger] v@[j],
                v0.push(*taint)[j],
            ) by {
                if j < v0.len() {
                    lemma_taint_matches_refl(v0[j]);
                }
            }
            creating_keeps_one_active_per_slot(v0, *taint, v@);
        }
        self.taints = v;
        Ok(())
    }

    fn resolve_taint(
        &mut self,
        id: &str,
        resolved_by: &str,
        reason: &str,
        resolved_proof: Option<&str>,
        resolved_at: Timestamp,
    ) -> (res: Result<(), StorageError>)
        ensures
            res is Ok <==> index_of(old(self).rows(), taint_id(), id@) >= 0 && unresolved(
                old(self).rows()[index_of(old(self).rows(), taint_id(), id@)],
            ),
            res matches Err(e) ==> (e matches StorageError::Backend(m) && m@ == if index_of(
                old(self).rows(),
                taint_id(),
                id@,
            ) < 0 {
                not_found_message(id@)
            } else {
                already_resolved_message(id@)
            }),
            one_active_per_slot(final(self).rows()),
    {
        proof {
            use_type_invariant(&*self);
        }
        match find_taint(&self.taints, id) {
            None => Err(StorageError::Backend(id_message(id, " not found"))),
            Some(i) => {
                proof {
                    lemma_index_of_range(self.taints@, taint_id(), id@);
                }
                if self.taints[i].resolved_at.is_some() {
                    return Err(StorageError::Backend(id_message(id, " is already resolved")));
                }
                let mut v: Vec<Taint> = Vec::new();
                std::mem::swap(&mut v, &mut self.taints);
                let ghost v0 = v@;
                proof {
                    lemma_index_of_range(v0, taint_id(), id@);
                }
                let mut t = v.remove(i);
                t.resolved_at = Some(resolved_at);
                t.resolved_by = Some(owned(resolved_by));
                t.resolved_reason = Some(owned(reason));
                t.resolved_proof = match resolved_proof {
                    Some(p) => Some(owned(p)),
                    None => None,
                };
                v.insert(i, t);
                proof {
                    assert forall|j: int| 0 <= j < v0.len() && j != i implies taint_matches(
                        #[trigger] v@[j],
                        v0[j],
                    ) by {
                        assert(v@[j] == v0[j]);
                        lemma_taint_matches_refl(v0[j]);
                    }
                    lemma_taint_matches_refl(v0[i as int]);
                    assert(resolved_as(v@[i as int], v0[i as int], resolved_by@, reason@, opt_text(resolved_proof), resolved_at));
                    resolving_keeps_one_active_per_slot(
                        v0,
                        v@,
                        id@,
                        resolved_by@,
                        reason@,
                        opt_text(resolved_proof),
                        resolved_at,
                    );
                }
                self.taints = v;
                Ok(())
            },
        }
    }

    fn list_taints(
        &self,
        path_prefix: Option<&str>,
        kind: Option<TaintKind>,
        include_resolved: bool,
    ) -> (res: Result<Vec<Taint>, StorageError>)
        ensures
            res is Ok,
    {
        let ghost f = listed_by(opt_text(path_prefix), kind, include_resolved);
        let v = &self.taints;
        let mut out: Vec<Taint> = Vec::new();
        let mut i: usize = 0;
        proof {
            assert(v@.take(0).filter(f) =~= Seq::<Taint>::empty());
        }
        while i < v.len()
            invariant
                i <= v@.len(),
                f == listed_by(opt_text(path_prefix), kind, include_resolved),
                rows_match(out@, newest_first(v@.take(i as int).filter(f))),
            decreases v.len() - i,
        {
            let ghost pre = v@.take(i as int);
            let ghost x = v@[i as int];
            proof {
                assert(v@.take(i + 1) =~= pre.push(x));
                pre.lemma_filter_push(x, f);
            }
            if listed_exec(&v[i], path_prefix, kind, include_resolved) {
                let c = v[i].copy();
                let ghost w = newest_first(pre.filter(f));
                let ghost o = out@;
                proof {
                    assert(pre.filter(f).push(x).drop_last() =~= pre.filter(f));
                    assert forall|j: int| 0 <= j < o.len() implies older_than(c.created_at)(
                        #[trigger] o[j],
                    ) == older_than(c.created_at)(w[j]) by {
                        assert(taint_matches(o[j], w[j]));
                    }
                    lemma_first_index_agree(o, w, older_than(c.created_at));
                }
                place_newest(&mut out, c);
                proof {
                    let k = slot_for(o, c.created_at);
                    lemma_slot_for_range(o, c.created_at);
                    assert(newest_first(pre.filter(f).push(x)) == w.insert(k, x));
                    assert forall|j: int| 0 <= j < out@.len() implies taint_matches(
                        #[trigger] out@[j],
                        w.insert(k, x)[j],
                    ) by {
                        if j < k {
                            assert(out@[j] == o[j] && w.insert(k, x)[j] == w[j]);
                        } else if j > k {
                            assert(out@[j] == o[j - 1] && w.insert(k, x)[j] == w[j - 1]);
                        }
                    }
                }
            } else {
                proof {
                    assert(pre.filter(f) == v@.take(i + 1).filter(f));
                }
            }
            i = i + 1;
        }
        proof {
            assert(v@.take(v@.len() as int) =~= v@);
        }
        Ok(out)
    }

    fn check_taint(&self, request_path: &str) -> (res: Result<Vec<Taint>, StorageError>)
        ensures
            res is Ok,
    {
        let now = now_millis();
        let r = self.check_taint_at(request_path, now);
        proof {
            assert(rows_match(r@, applicable(self.rows(), request_path@, now)));
        }
        Ok(r)
    }

    fn get_taint(&self, id: &str) -> (res: Result<Option<Taint>, StorageError>)
        ensures
            res is Ok,
    {
        proof {
            lemma_index_of_range(self.taints@, taint_id(), id@);
        }
        match find_taint(&self.taints, id) {
            Some(i) => Ok(Some(self.taints[i].copy())),
            None => Ok(None),
        }
    }

    fn set_taint_commit_id(&mut self, id: &str, commit_id: &str) -> (res: Result<(), StorageError>)
        ensures
            res is Ok <==> index_of(old(self).rows(), taint_id(), id@) >= 0,
            res matches Err(e) ==> (e matches StorageError::Backend(m) && m@ == not_found_message(
                id@,
            )),
            one_active_per_slot(final(self).rows()),
    {
        proof {
            use_type_invariant(&*self);
        }
        match find_taint(&self.taints, id) {
            None => Err(StorageError::Backend(id_message(id, " not found"))),
            Some(i) => {
                proof {
                    lemma_index_of_range(self.taints@, taint_id(), id@);
                }
                if self.taints[i].resolved_at.is_some() {
                    proof {
                        assert forall|j: int| 0 <= j < self.taints@.len() implies taint_matches(
                            #[trigger] self.taints@[j],
                            self.taints@[j],
                        ) by {
                            lemma_taint_matches_refl(self.taints@[j]);
                        }
                    }
                    return Ok(());
                }
                let mut v: Vec<Taint> = Vec::new();
                std::mem::swap(&mut v, &mut self.taints);
                let ghost v0 = v@;
                let mut t = v.remove(i);
                t.commit_id = owned(commit_id);
                v.insert(i, t);
                proof {
                    assert forall|j: int| 0 <= j < v0.len() && j != i implies taint_matches(
                        #[trigger] v@[j],
                        v0[j],
                    ) by {
                        assert(v@[j] == v0[j]);
                        lemma_taint_matches_refl(v0[j]);
                    }
                    lemma_taint_matches_refl(v0[i as int]);
                    committing_keeps_one_active_per_slot(v0, v@, id@, commit_id@);
                }
                self.taints = v;
                Ok(())
            },
        }
    }
}

impl ReminderStore for MemoryStorage {
    closed spec fn contents(&self) -> Map<Seq<char>, Reminder> {
        self.reminders.contents()
    }

    proof fn lemma_keyed(&self) {
        self.reminders.lemma_keyed();
    }

    fn save(&mut self, reminder: &Reminder) -> (res: Result<(), ReminderError>)
        ensures
            res is Ok,
    {
        proof {
            use_type_invariant(&*self);
        }
        let mut r = MemoryReminderStore::new();
        std::mem::swap(&mut r, &mut self.reminders);
        let res = r.save(reminder);
        self.reminders = r;
        res
    }

    fn get(&self, id: &str) -> (res: Result<Option<Reminder>, ReminderError>)
        ensures
            res is Ok,
    {
        self.reminders.get(id)
    }

    fn update(&mut self, reminder: &Reminder) -> (res: Result<(), ReminderError>)
        ensures
            res is Ok <==> old(self).contents().dom().contains(reminder.id@),
            res is Err ==> (res matches Err(ReminderError::NotFound(s)) && s@ == reminder.id@),
    {
        proof {
            use_type_invariant(&*self);
        }
        let mut r = MemoryReminderStore::new();
        std::mem::swap(&mut r, &mut self.reminders);
        let res = r.update(reminder);
        self.reminders = r;
        res
    }

    fn delete(&mut self, id: &str) -> (res: Result<bool, ReminderError>)
        ensures
            res is Ok,
    {
        proof {
            use_type_invariant(&*self);
        }
        let mut r = MemoryReminderStore::new();
        std::mem::swap(&mut r, &mut self.reminders);
        let res = r.delete(id);
        self.reminders = r;
        res
    }

    fn list(&self, filter: &ReminderFilter) -> (res: Result<Vec<Reminder>, ReminderError>)
        ensures
            res is Ok,
    {
        self.reminders.list(filter)
    }
}

} // verus!
