//! Core data types for the taint substrate.
use vstd::prelude::*;

use crate::keyed::{index_of, lemma_index_of_range, lemma_index_of_scan};
use crate::text::{owned, str_eq};
use crate::time::Timestamp;

verus! {

/// Discriminator between the three taint kinds.
#[derive(Debug, Clone, Copy, PartialEq, Eq, Structural, Hash)]
pub enum TaintKind {
    Taint,
    Quarantine,
    Watch,
}

/// Pre-commit-hook behavior for a taint.
#[derive(Debug, Clone, Copy, PartialEq, Eq, Structural, Hash)]
pub enum TaintEffect {
    /// Attach a warning to the commit metadata but allow the write.
    Warn,
    /// Reject the write.
    Block,
    /// Require review-level confidence; reject lower-confidence writes.
    Review,
    /// Allow the write; flag the path for query / search filtering.
    Isolate,
    /// Watch kind only: purely advisory.
    Advisory,
}

/// Advisory severity, used by consumers for triage ordering.
#[derive(Debug, Clone, Copy, PartialEq, Eq, Structural, Hash)]
pub enum TaintSeverity {
    Low,
    Medium,
    High,
    Critical,
}

impl Default for TaintSeverity {
    fn default() -> (r: Self)
        ensures
            r == TaintSeverity::Medium,
    {
        TaintSeverity::Medium
    }
}

/// Direction a watch threshold fires in.
#[derive(Debug, Clone, Copy, PartialEq, Eq, Structural, Hash)]
pub enum WatchDirection {
    Above,
    Below,
}

impl Default for WatchDirection {
    fn default() -> (r: Self)
        ensures
            r == WatchDirection::Above,
    {
        WatchDirection::Above
    }
}

/// Propagation is on unless a request says otherwise.
pub fn default_true() -> (r: bool)
    ensures
        r,
{
    true
}

/// Watches fire above their threshold unless a request says otherwise.
pub fn default_watch_direction() -> (r: WatchDirection)
    ensures
        r == WatchDirection::Above,
{
    WatchDirection::Above
}

// ---------------------------------------------------------------------------
// Metadata
// ---------------------------------------------------------------------------

/// One element of a metadata array: a JSON string, or any other JSON
/// value held as its serialized text.
#[derive(Debug, Clone, PartialEq, Eq)]
pub enum MetaItem {
    Str(String),
    Json(String),
}

/// A metadata value: an array, or any other JSON value held as its
/// serialized text.
#[derive(Debug, Clone, PartialEq, Eq)]
pub enum MetaValue {
    Array(Vec<MetaItem>),
    Json(String),
}

/// A metadata key with its value.
#[derive(Debug, Clone, PartialEq, Eq)]
pub struct MetaEntry {
    pub key: String,
    pub value: MetaValue,
}

/// Kind-specific metadata, a map from key to JSON value:
/// `authorized_agents` for quarantines, `metric` / `threshold` /
/// `direction` for watches, etc.
#[derive(Debug, Clone, PartialEq, Eq)]
pub struct TaintMetadata {
    entries: Vec<MetaEntry>,
}

/// `a` holds what `b` holds.
pub open spec fn value_matches(a: MetaValue, b: MetaValue) -> bool {
    match (a, b) {
        (MetaValue::Array(x), MetaValue::Array(y)) => x@ == y@,
        (MetaValue::Json(x), MetaValue::Json(y)) => x == y,
        _ => false,
    }
}

/// Metadata entries are looked up by key.
pub open spec fn entry_key() -> spec_fn(MetaEntry) -> Seq<char> {
    |e: MetaEntry| e.key@
}

impl TaintMetadata {
    /// The entries, in insertion order, one per key.
    pub closed spec fn spec_entries(self) -> Seq<MetaEntry> {
        self.entries@
    }

    /// The value stored under `key`, if any.
    pub open spec fn lookup(self, key: Seq<char>) -> Option<MetaValue> {
        let i = index_of(self.spec_entries(), entry_key(), key);
        if i >= 0 {
            Some(self.spec_entries()[i].value)
        } else {
            None
        }
    }

    /// No entries.
    pub fn new() -> (m: TaintMetadata)
        ensures
            m.spec_entries().len() == 0,
            forall|k: Seq<char>| #[trigger] m.lookup(k) is None,
    {
        TaintMetadata { entries: Vec::new() }
    }

    /// Store `value` under `key`, replacing any value there.
    pub fn insert(&mut self, key: &str, value: MetaValue)
        ensures
            final(self).lookup(key@) == Some(value),
            forall|k: Seq<char>| k != key@ ==> #[trigger] final(self).lookup(k) == old(self).lookup(k),
    {
        let ghost es = self.entries@;
        let mut i: usize = 0;
        while i < self.entries.len()
            invariant
                self.entries@ == es,
                es == old(self).entries@,
                i <= es.len(),
                forall|j: int| 0 <= j < i ==> entry_key()(#[trigger] es[j]) != key@,
            decreases self.entries.len() - i,
        {
            if str_eq(self.entries[i].key.as_str(), key) {
                proof {
                    lemma_index_of_scan(es, entry_key(), key@, i as int);
                }
                self.entries[i].value = value;
                proof {
                    let t = self.entries@;
                    assert forall|j: int| 0 <= j < t.len() implies entry_key()(#[trigger] t[j])
                        == entry_key()(es[j]) by {}
                    assert forall|k: Seq<char>| true implies index_of(t, entry_key(), k) == index_of(
                        es,
                        entry_key(),
                        k,
                    ) by {
                        crate::keyed::lemma_index_of_same_keys(t, es, entry_key(), k);
                    }
                    assert forall|k: Seq<char>| k != key@ implies #[trigger] self.lookup(k)
                        == old(self).lookup(k) by {
                        lemma_index_of_range(es, entry_key(), k);
                    }
                }
                return;
            }
            i = i + 1;
        }
        proof {
            lemma_index_of_scan(es, entry_key(), key@, i as int);
        }
        self.entries.push(MetaEntry { key: owned(key), value });
        proof {
            assert forall|k: Seq<char>| true implies #[trigger] self.lookup(k) == (if k == key@ {
                Some(value)
            } else {
                old(self).lookup(k)
            }) by {
                crate::keyed::lemma_index_of_push(es, entry_key(), self.entries@.last(), k);
                lemma_index_of_range(es, entry_key(), k);
            }
        }
    }

    /// The value stored under `key`, if any.
    pub fn get(&self, key: &str) -> (r: Option<&MetaValue>)
        ensures
            match r {
                Some(v) => self.lookup(key@) == Some(*v),
                None => self.lookup(key@) is None,
            },
    {
        let mut i: usize = 0;
        while i < self.entries.len()
            invariant
                i <= self.entries@.len(),
                forall|j: int| 0 <= j < i ==> entry_key()(#[trigger] self.entries@[j]) != key@,
            decreases self.entries.len() - i,
        {
            if str_eq(self.entries[i].key.as_str(), key) {
                proof {
                    lemma_index_of_scan(self.entries@, entry_key(), key@, i as int);
                }
                return Some(&self.entries[i].value);
            }
            i = i + 1;
        }
        proof {
            lemma_index_of_scan(self.entries@, entry_key(), key@, i as int);
        }
        None
    }

    /// The entries, in insertion order.
    pub fn entries(&self) -> (r: &Vec<MetaEntry>)
        ensures
            r@ == self.spec_entries(),
    {
        &self.entries
    }

    /// A copy of this metadata.
    pub fn copy(&self) -> (r: TaintMetadata)
        ensures
            metadata_matches(r, *self),
    {
        let mut out: Vec<MetaEntry> = Vec::new();
        let mut i: usize = 0;
        while i < self.entries.len()
            invariant
                i <= self.entries@.len(),
                out@.len() == i,
                forall|j: int|
                    0 <= j < i ==> (#[trigger] out@[j]).key == self.entries@[j].key
                        && value_matches(out@[j].value, self.entries@[j].value),
            decreases self.entries.len() - i,
        {
            let v = match &self.entries[i].value {
                MetaValue::Array(items) => MetaValue::Array(copy_items(items)),
                MetaValue::Json(s) => MetaValue::Json(s.clone()),
            };
            out.push(MetaEntry { key: self.entries[i].key.clone(), value: v });
            i = i + 1;
        }
        TaintMetadata { entries: out }
    }
}

impl Default for TaintMetadata {
    fn default() -> (m: Self)
        ensures
            m.spec_entries().len() == 0,
    {
        TaintMetadata::new()
    }
}

/// `a` holds what `b` holds, entry by entry.
pub open spec fn metadata_matches(a: TaintMetadata, b: TaintMetadata) -> bool {
    &&& a.spec_entries().len() == b.spec_entries().len()
    &&& forall|j: int|
        0 <= j < a.spec_entries().len() ==> (#[trigger] a.spec_entries()[j]).key
            == b.spec_entries()[j].key && value_matches(
            a.spec_entries()[j].value,
            b.spec_entries()[j].value,
        )
}

fn copy_items(v: &Vec<MetaItem>) -> (r: Vec<MetaItem>)
    ensures
        r@ == v@,
{
    let mut out: Vec<MetaItem> = Vec::new();
    let mut i: usize = 0;
    while i < v.len()
        invariant
            i <= v.len(),
            out@ == v@.take(i as int),
        decreases v.len() - i,
    {
        let item = match &v[i] {
            MetaItem::Str(s) => MetaItem::Str(s.clone()),
            MetaItem::Json(s) => MetaItem::Json(s.clone()),
        };
        out.push(item);
        proof {
            assert(v@.take(i + 1) =~= v@.take(i as int).push(v@[i as int]));
        }
        i = i + 1;
    }
    proof {
        assert(v@.take(v.len() as int) =~= v@);
    }
    out
}

// ---------------------------------------------------------------------------
// Taint
// ---------------------------------------------------------------------------

/// A taint, quarantine or watch record.
#[derive(Debug, Clone)]
pub struct Taint {
    /// UUID string generated at creation.
    pub id: String,
    /// Path the taint applies to (e.g. `/cluster/nodes/picoup2`).
    pub path: String,
    /// Human-readable taint name.
    pub name: String,
    pub kind: TaintKind,
    /// How the pre-commit hook behaves when this taint matches a write.
    pub effect: TaintEffect,
    /// Advisory severity (does not change pre-commit semantics).
    pub severity: TaintSeverity,
    /// Why the taint was applied.
    pub reason: String,
    /// Agent that applied the taint.
    pub agent_id: String,
    /// Commit id of the intent commit that created this record; empty
    /// until that commit is written.
    pub commit_id: String,
    pub created_at: Timestamp,
    /// Optional auto-expiry.
    pub expires_at: Option<Timestamp>,
    /// Set when resolved.
    pub resolved_at: Option<Timestamp>,
    pub resolved_by: Option<String>,
    pub resolved_reason: Option<String>,
    /// Optional evidence that the issue is resolved.
    pub resolved_proof: Option<String>,
    /// When true, the taint applies to all descendant paths of `path`.
    pub propagate: bool,
    /// Kind-specific metadata.
    pub metadata: TaintMetadata,
}

/// `a` holds what `b` holds.
pub open spec fn taint_matches(a: Taint, b: Taint) -> bool {
    &&& a == (Taint { metadata: a.metadata, ..b })
    &&& metadata_matches(a.metadata, b.metadata)
}

/// Not resolved, and not expired at `now`.
pub open spec fn spec_is_active(t: Taint, now: Timestamp) -> bool {
    t.resolved_at is None && match t.expires_at {
        Some(exp) => exp > now,
        None => true,
    }
}

/// The string elements of a metadata array, in order.
pub open spec fn strings_of(items: Seq<MetaItem>) -> Seq<Seq<char>>
    decreases items.len(),
{
    if items.len() == 0 {
        Seq::empty()
    } else {
        let s = strings_of(items.drop_last());
        match items.last() {
            MetaItem::Str(x) => s.push(x@),
            MetaItem::Json(_) => s,
        }
    }
}

/// The `authorized_agents` allowlist: the string elements of that
/// metadata array; empty when there is no such array.
pub open spec fn authorized_list(t: Taint) -> Seq<Seq<char>> {
    match t.metadata.lookup(AUTHORIZED_AGENTS_KEY@) {
        Some(MetaValue::Array(items)) => strings_of(items@),
        _ => Seq::empty(),
    }
}

/// Metadata key of a quarantine's allowlist.
pub const AUTHORIZED_AGENTS_KEY: &'static str = "authorized_agents";

/// The text of each string, in order.
pub open spec fn texts(v: Seq<String>) -> Seq<Seq<char>> {
    v.map_values(|s: String| s@)
}

impl Taint {
    /// Active at `now`: not resolved and not yet expired.
    pub fn is_active(&self, now: Timestamp) -> (r: bool)
        ensures
            r == spec_is_active(*self, now),
    {
        if self.resolved_at.is_some() {
            return false;
        }
        match self.expires_at {
            Some(exp) => exp > now,
            None => true,
        }
    }

    /// The authorized-agents allowlist from `metadata` (see
    /// `authorized_list`).
    pub fn authorized_agents(&self) -> (r: Vec<String>)
        ensures
            texts(r@) == authorized_list(*self),
    {
        let mut out: Vec<String> = Vec::new();
        match self.metadata.get(AUTHORIZED_AGENTS_KEY) {
            Some(MetaValue::Array(items)) => {
                let mut i: usize = 0;
                proof {
                    assert(items@.take(0) =~= Seq::<MetaItem>::empty());
                    assert(texts(out@) =~= Seq::<Seq<char>>::empty());
                }
                while i < items.len()
                    invariant
                        i <= items@.len(),
                        texts(out@) == strings_of(items@.take(i as int)),
                    decreases items.len() - i,
                {
                    proof {
                        assert(items@.take(i + 1).drop_last() =~= items@.take(i as int));
                        assert(items@.take(i + 1).last() == items@[i as int]);
                    }
                    match &items[i] {
                        MetaItem::Str(s) => {
                            let ghost before = out@;
                            out.push(s.clone());
                            proof {
                                assert(texts(out@) =~= texts(before).push(s@));
                            }
                        },
                        MetaItem::Json(_) => {},
                    }
                    i = i + 1;
                }
                proof {
                    assert(items@.take(items@.len() as int) =~= items@);
                }
            },
            _ => {
                proof {
                    assert(texts(out@) =~= Seq::<Seq<char>>::empty());
                }
            },
        }
        out
    }

    /// A copy of this record.
    pub fn copy(&self) -> (r: Taint)
        ensures
            taint_matches(r, *self),
    {
        Taint {
            id: self.id.clone(),
            path: self.path.clone(),
            name: self.name.clone(),
            kind: self.kind,
            effect: self.effect,
            severity: self.severity,
            reason: self.reason.clone(),
            agent_id: self.agent_id.clone(),
            commit_id: self.commit_id.clone(),
            created_at: self.created_at,
            expires_at: self.expires_at,
            resolved_at: self.resolved_at,
            resolved_by: copy_opt_string(&self.resolved_by),
            resolved_reason: copy_opt_string(&self.resolved_reason),
            resolved_proof: copy_opt_string(&self.resolved_proof),
            propagate: self.propagate,
            metadata: self.metadata.copy(),
        }
    }
}

fn copy_opt_string(s: &Option<String>) -> (r: Option<String>)
    ensures
        r == *s,
{
    match s {
        Some(v) => Some(v.clone()),
        None => None,
    }
}

// ---------------------------------------------------------------------------
// Access check result
// ---------------------------------------------------------------------------

/// How a write's confidence compares with the gates: below zero, below
/// the review threshold (0.9), or at least that threshold. (A value that
/// compares below neither counts as at least the threshold.)
#[derive(Debug, Clone, Copy, PartialEq, Eq, Structural)]
pub enum ConfidenceBand {
    Negative,
    BelowReview,
    AtLeastReview,
}

/// Result of `evaluate_access`.
#[derive(Debug, Clone)]
pub struct TaintCheck {
    pub tainted: bool,
    pub quarantined: bool,
    pub watched: bool,
    pub taints: Vec<Taint>,
    pub quarantines: Vec<Taint>,
    pub watches: Vec<Taint>,
    /// Given the applicable taints and quarantines, the acting agent and
    /// the confidence, is writing allowed?
    pub can_write: bool,
    /// Whether a review-effect taint applies, so the write needs
    /// review-level confidence (0.9) rather than none (0.0).
    pub review_required: bool,
    /// Union of `authorized_agents` across the applicable quarantines.
    pub authorized_agents: Vec<String>,
    /// Whether an `Isolate`-effect taint applies.
    pub isolated: bool,
}

impl TaintCheck {
    /// Nothing applies; writing is allowed.
    pub fn clear() -> (c: TaintCheck)
        ensures
            !c.tainted && !c.quarantined && !c.watched,
            c.taints@.len() == 0 && c.quarantines@.len() == 0 && c.watches@.len() == 0,
            c.can_write,
            !c.review_required,
            c.authorized_agents@.len() == 0,
            !c.isolated,
    {
        TaintCheck {
            tainted: false,
            quarantined: false,
            watched: false,
            taints: Vec::new(),
            quarantines: Vec::new(),
            watches: Vec::new(),
            can_write: true,
            review_required: false,
            authorized_agents: Vec::new(),
            isolated: false,
        }
    }
}

// ---------------------------------------------------------------------------
// Parameter bundles
// ---------------------------------------------------------------------------

/// Parameters for applying a taint.
#[derive(Debug, Clone)]
pub struct TaintParams {
    pub name: String,
    pub effect: TaintEffect,
    pub reason: String,
    pub severity: TaintSeverity,
    pub expires_at: Option<Timestamp>,
    pub propagate: bool,
    pub metadata: TaintMetadata,
    pub agent_id: String,
}

/// Parameters for resolving a taint.
#[derive(Debug, Clone, PartialEq, Eq)]
pub struct UntaintParams {
    pub reason: String,
    pub proof: Option<String>,
    pub agent_id: String,
}

/// Parameters for lifting a quarantine: the same shape as untaint.
pub type UnquarantineParams = UntaintParams;

/// Parameters for quarantining a path.
#[derive(Debug, Clone, PartialEq, Eq)]
pub struct QuarantineParams {
    pub name: String,
    pub reason: String,
    pub severity: TaintSeverity,
    pub authorized_agents: Vec<String>,
    pub expires_at: Option<Timestamp>,
    pub propagate: bool,
    pub agent_id: String,
}

/// Parameters for removing a watch; the reason is optional.
#[derive(Debug, Clone, PartialEq, Eq)]
pub struct UnwatchParams {
    pub reason: Option<String>,
    pub agent_id: String,
}

} // verus!
