//! Public data types for plans, tasks, and proofs.
use vstd::prelude::*;
use vstd::string::*;

use crate::tasks::error::TaskStoreError;
use crate::text::{all_digits, digit_char, digit_value, digits_value, is_digit, decimal, lemma_decimal_len, owned, parse_u32, parse_u32_from, push_char, push_decimal};
use crate::time::Timestamp;

verus! {

/// Lifecycle of a plan.
#[derive(Debug, Clone, Copy, PartialEq, Eq, Structural, Hash)]
pub enum PlanStatus {
    Active,
    Completed,
    Archived,
}

/// Lifecycle of a task: `Pending -> InProgress -> Done`, or `Abandoned`
/// from either open state.
#[derive(Debug, Clone, Copy, PartialEq, Eq, Structural, Hash)]
pub enum TaskStatus {
    Pending,
    InProgress,
    Done,
    Abandoned,
}

impl TaskStatus {
    pub open spec fn spec_is_terminal(self) -> bool {
        self == TaskStatus::Done || self == TaskStatus::Abandoned
    }

    /// `Done` and `Abandoned` are terminal.
    pub fn is_terminal(self) -> (r: bool)
        ensures
            r == self.spec_is_terminal(),
    {
        matches!(self, TaskStatus::Done | TaskStatus::Abandoned)
    }
}

/// Task urgency, ordered `Low < Medium < High < Critical`.
#[derive(Debug, Clone, Copy, PartialEq, Eq, Structural, Hash, PartialOrd, Ord)]
pub enum Priority {
    Low,
    Medium,
    High,
    Critical,
}

impl Priority {
    /// Position in the order `Low < Medium < High < Critical`.
    pub open spec fn rank(self) -> int {
        match self {
            Priority::Low => 0,
            Priority::Medium => 1,
            Priority::High => 2,
            Priority::Critical => 3,
        }
    }

    /// The rank as a number, for comparisons.
    pub fn level(self) -> (r: u8)
        ensures
            r == self.rank(),
    {
        match self {
            Priority::Low => 0,
            Priority::Medium => 1,
            Priority::High => 2,
            Priority::Critical => 3,
        }
    }
}

impl Default for Priority {
    fn default() -> (r: Self)
        ensures
            r == Priority::Medium,
    {
        Priority::Medium
    }
}

/// Zero-pads a numeral on the left to at least three characters.
pub open spec fn pad3(d: Seq<char>) -> Seq<char> {
    if d.len() == 1 {
        seq!['0', '0'] + d
    } else if d.len() == 2 {
        seq!['0'] + d
    } else {
        d
    }
}

/// The text of `TaskId::new(n)`: `t-` followed by `n`, zero-padded to
/// three digits.
pub open spec fn task_id_text(n: nat) -> Seq<char> {
    seq!['t', '-'] + pad3(decimal(n))
}

/// The number `TaskId::number` reads from an id: the text after a
/// leading `t-`, parsed as a `u32`.
pub open spec fn task_id_number(s: Seq<char>) -> Option<u32> {
    if s.len() >= 2 && s[0] == 't' && s[1] == '-' {
        parse_u32(s.skip(2))
    } else {
        None
    }
}

proof fn lemma_digit_char(d: nat)
    requires
        d < 10,
    ensures
        is_digit(digit_char(d)),
        digit_value(digit_char(d)) == d,
{
}

proof fn lemma_decimal_digits(n: nat)
    ensures
        all_digits(decimal(n)),
        digits_value(decimal(n)) == n,
    decreases n,
{
    lemma_digit_char(n % 10);
    if n >= 10 {
        lemma_decimal_digits(n / 10);
        let d = decimal(n);
        assert(d.drop_last() =~= decimal(n / 10));
        assert(d.last() == digit_char(n % 10));
        assert((n / 10) * 10 + n % 10 == n);
        assert(digits_value(d) == digits_value(d.drop_last()) * 10 + digit_value(d.last()));
        assert forall|i: int| 0 <= i < d.len() implies is_digit(#[trigger] d[i]) by {
            if i < d.len() - 1 {
                assert(d[i] == decimal(n / 10)[i]);
            }
        }
    } else {
        let d = decimal(n);
        assert(d.drop_last() =~= Seq::<char>::empty());
        assert(d.last() == digit_char(n));
        assert(digits_value(d.drop_last()) == 0);
        assert(digits_value(d) == digits_value(d.drop_last()) * 10 + digit_value(d.last()));
    }
}

proof fn lemma_leading_zeros(z: Seq<char>, d: Seq<char>)
    requires
        forall|i: int| 0 <= i < z.len() ==> z[i] == '0',
    ensures
        digits_value(z + d) == digits_value(d),
    decreases d.len(),
{
    if d.len() == 0 {
        lemma_zeros_value(z);
        assert(z + d =~= z);
    } else {
        assert((z + d).drop_last() =~= z + d.drop_last());
        lemma_leading_zeros(z, d.drop_last());
    }
}

proof fn lemma_zeros_value(z: Seq<char>)
    requires
        forall|i: int| 0 <= i < z.len() ==> z[i] == '0',
    ensures
        digits_value(z) == 0,
    decreases z.len(),
{
    if z.len() > 0 {
        lemma_zeros_value(z.drop_last());
    }
}

/// Reading back the number of an id built by `TaskId::new(n)` gives `n`.
pub proof fn task_id_number_roundtrip(n: u32)
    ensures
        task_id_number(task_id_text(n as nat)) == Some(n),
{
    let d = decimal(n as nat);
    lemma_decimal_digits(n as nat);
    lemma_decimal_len(n as nat);
    let p = pad3(d);
    let s = task_id_text(n as nat);
    assert(s.skip(2) =~= p);
    if d.len() == 1 {
        lemma_leading_zeros(seq!['0', '0'], d);
    } else if d.len() == 2 {
        lemma_leading_zeros(seq!['0'], d);
    }
    assert(all_digits(p)) by {
        assert forall|i: int| 0 <= i < p.len() implies is_digit(#[trigger] p[i]) by {
            if d.len() == 1 {
                if i >= 2 {
                    assert(p[i] == d[i - 2]);
                }
            } else if d.len() == 2 {
                if i >= 1 {
                    assert(p[i] == d[i - 1]);
                }
            }
        }
    }
    assert(is_digit(p[0]));
}

/// A task identifier, unique within a plan. Format: `t-001`, `t-002`, ...
#[derive(Debug, Clone, PartialEq, Eq, Hash, PartialOrd, Ord)]
pub struct TaskId(pub String);

impl TaskId {
    /// Construct a zero-padded id from a 1-based sequence number.
    pub fn new(n: u32) -> (r: TaskId)
        ensures
            r.0@ == task_id_text(n as nat),
    {
        let mut s = String::new();
        push_char(&mut s, 't');
        push_char(&mut s, '-');
        proof {
            lemma_decimal_len(n as nat);
        }
        if n < 10 {
            push_char(&mut s, '0');
            push_char(&mut s, '0');
        } else if n < 100 {
            push_char(&mut s, '0');
        }
        let ghost before = s@;
        push_decimal(&mut s, n as u64);
        proof {
            assert(s@ =~= task_id_text(n as nat));
        }
        TaskId(s)
    }

    /// Parse the numeric suffix from a `t-NNN` identifier.
    pub fn number(&self) -> (r: Result<u32, TaskStoreError>)
        ensures
            match r {
                Ok(v) => task_id_number(self.0@) == Some(v),
                Err(e) => task_id_number(self.0@) is None && e == TaskStoreError::InvalidTaskId(
                    self.0,
                ),
            },
    {
        let s = self.0.as_str();
        let l = s.unicode_len();
        if l >= 2 && s.get_char(0) == 't' && s.get_char(1) == '-' {
            match parse_u32_from(s, 2) {
                Some(v) => Ok(v),
                None => Err(TaskStoreError::InvalidTaskId(self.0.clone())),
            }
        } else {
            Err(TaskStoreError::InvalidTaskId(self.0.clone()))
        }
    }

    /// The raw string form, e.g. `"t-001"`.
    pub fn as_str(&self) -> (r: &str)
        ensures
            r@ == self.0@,
    {
        self.0.as_str()
    }

    /// A copy of this id.
    pub fn copy(&self) -> (r: TaskId)
        ensures
            r == *self,
    {
        TaskId(self.0.clone())
    }
}

/// Evidence attached to a `done` task.
#[derive(Debug, Clone, PartialEq)]
pub struct Proof {
    pub kind: ProofKind,
    pub value: String,
    pub note: Option<String>,
}

impl Proof {
    /// A git commit SHA as evidence.
    pub fn commit(sha: &str) -> (r: Proof)
        ensures
            r.kind == ProofKind::Commit,
            r.value@ == sha@,
            r.note is None,
    {
        Proof { kind: ProofKind::Commit, value: owned(sha), note: None }
    }

    /// A file path as evidence.
    pub fn file(path: &str) -> (r: Proof)
        ensures
            r.kind == ProofKind::File,
            r.value@ == path@,
            r.note is None,
    {
        Proof { kind: ProofKind::File, value: owned(path), note: None }
    }

    /// A test name as evidence.
    pub fn test(name: &str) -> (r: Proof)
        ensures
            r.kind == ProofKind::Test,
            r.value@ == name@,
            r.note is None,
    {
        Proof { kind: ProofKind::Test, value: owned(name), note: None }
    }

    /// A free-form, human-attested description as evidence.
    pub fn text(value: &str) -> (r: Proof)
        ensures
            r.kind == ProofKind::Text,
            r.value@ == value@,
            r.note is None,
    {
        Proof { kind: ProofKind::Text, value: owned(value), note: None }
    }

    /// The same proof with a note attached.
    pub fn with_note(self, note: &str) -> (r: Proof)
        ensures
            r.kind == self.kind,
            r.value == self.value,
            r.note matches Some(n) && n@ == note@,
    {
        Proof { kind: self.kind, value: self.value, note: Some(owned(note)) }
    }

    /// A copy of this proof.
    pub fn copy(&self) -> (r: Proof)
        ensures
            r == *self,
    {
        Proof { kind: self.kind, value: self.value.clone(), note: copy_opt_string(&self.note) }
    }
}

/// The kind of evidence a proof carries.
#[derive(Debug, Clone, Copy, PartialEq, Eq, Structural, Hash)]
pub enum ProofKind {
    /// A git commit SHA. Verifier should check reachability.
    Commit,
    /// A file path. Verifier should check existence.
    File,
    /// A test name. Verifier should check the test exists in the suite.
    Test,
    /// Free-form human-attested description. Unverifiable.
    Text,
}

/// A hook to run when a task is completed.
#[derive(Debug, Clone, PartialEq)]
pub enum OnCompleteHook {
    /// Promote the change the task's `parent_change` names.
    PromoteChange,
    /// A consumer-defined hook, by name.
    Named { name: String },
}

/// A named container of tasks.
#[derive(Debug, Clone, PartialEq)]
pub struct Plan {
    pub name: String,
    pub description: Option<String>,
    pub status: PlanStatus,
    pub created_at: Timestamp,
    pub created_by: String,
    pub archived_at: Option<Timestamp>,
    /// Summary recorded when the plan was closed.
    pub summary: Option<String>,
    pub closed_at: Option<Timestamp>,
    pub closed_by: Option<String>,
}

/// A unit of work inside a plan.
#[derive(Debug, Clone, PartialEq)]
pub struct Task {
    pub id: TaskId,
    pub title: String,
    pub status: TaskStatus,
    pub priority: Priority,
    pub parent_id: Option<TaskId>,
    pub blocked_by: Vec<TaskId>,
    pub created_at: Timestamp,
    pub created_by: String,
    pub started_at: Option<Timestamp>,
    pub started_by: Option<String>,
    pub completed_at: Option<Timestamp>,
    pub completed_by: Option<String>,
    pub proof: Option<Proof>,
    pub abandoned_at: Option<Timestamp>,
    pub abandoned_reason: Option<String>,
    pub assigned_to: Option<String>,
    /// Consumer-defined JSON document, held as its serialized text.
    pub payload: Option<String>,
    pub parent_change: Option<String>,
    pub on_complete: Option<OnCompleteHook>,
}

/// Optional extension fields for `TaskStore::add_task_with_extensions`.
#[derive(Debug, Clone, PartialEq)]
pub struct AddTaskOptions {
    /// Consumer-defined JSON document, held as its serialized text.
    pub payload: Option<String>,
    pub parent_change: Option<String>,
    pub on_complete: Option<OnCompleteHook>,
}

impl Default for AddTaskOptions {
    fn default() -> (r: Self)
        ensures
            r.payload is None,
            r.parent_change is None,
            r.on_complete is None,
    {
        AddTaskOptions { payload: None, parent_change: None, on_complete: None }
    }
}

/// A copy of an optional string.
pub fn copy_opt_string(s: &Option<String>) -> (r: Option<String>)
    ensures
        r == *s,
{
    match s {
        Some(v) => Some(v.clone()),
        None => None,
    }
}

/// A copy of an optional proof.
pub fn copy_opt_proof(p: &Option<Proof>) -> (r: Option<Proof>)
    ensures
        r == *p,
{
    match p {
        Some(v) => Some(v.copy()),
        None => None,
    }
}

/// A copy of an optional task id.
pub fn copy_opt_task_id(p: &Option<TaskId>) -> (r: Option<TaskId>)
    ensures
        r == *p,
{
    match p {
        Some(v) => Some(v.copy()),
        None => None,
    }
}

/// A copy of an optional completion hook.
pub fn copy_opt_hook(h: &Option<OnCompleteHook>) -> (r: Option<OnCompleteHook>)
    ensures
        r == *h,
{
    match h {
        Some(OnCompleteHook::PromoteChange) => Some(OnCompleteHook::PromoteChange),
        Some(OnCompleteHook::Named { name }) => Some(OnCompleteHook::Named { name: name.clone() }),
        None => None,
    }
}

/// A copy of a list of task ids.
pub fn copy_task_ids(v: &Vec<TaskId>) -> (r: Vec<TaskId>)
    ensures
        r@ == v@,
{
    let mut out: Vec<TaskId> = Vec::new();
    let mut i: usize = 0;
    while i < v.len()
        invariant
            i <= v.len(),
            out@ == v@.take(i as int),
        decreases v.len() - i,
    {
        out.push(v[i].copy());
        proof {
            assert(v@.take(i + 1) =~= v@.take(i as int).push(v@[i as int]));
        }
        i = i + 1;
    }
    proof {
        assert(v@.take(v.len() as int) =~= v@);
    }
    out
}

impl Plan {
    /// A copy of this plan.
    pub fn copy(&self) -> (r: Plan)
        ensures
            r == *self,
    {
        Plan {
            name: self.name.clone(),
            description: copy_opt_string(&self.description),
            status: self.status,
            created_at: self.created_at,
            created_by: self.created_by.clone(),
            archived_at: self.archived_at,
            summary: copy_opt_string(&self.summary),
            closed_at: self.closed_at,
            closed_by: copy_opt_string(&self.closed_by),
        }
    }
}

/// `a` holds what `b` holds: every field equal, the blockers equal as
/// sequences.
pub open spec fn task_matches(a: Task, b: Task) -> bool {
    &&& a == (Task { blocked_by: a.blocked_by, ..b })
    &&& a.blocked_by@ == b.blocked_by@
}

impl Task {
    /// An equal `Task` value.
    pub fn copy(&self) -> (r: Task)
        ensures
            task_matches(r, *self),
            r.id == self.id,
            r.title == self.title,
            r.status == self.status,
            r.priority == self.priority,
            r.parent_id == self.parent_id,
            r.blocked_by@ == self.blocked_by@,
            r.created_at == self.created_at,
            r.created_by == self.created_by,
            r.started_at == self.started_at,
            r.started_by == self.started_by,
            r.completed_at == self.completed_at,
            r.completed_by == self.completed_by,
            r.proof == self.proof,
            r.abandoned_at == self.abandoned_at,
            r.abandoned_reason == self.abandoned_reason,
            r.assigned_to == self.assigned_to,
            r.payload == self.payload,
            r.parent_change == self.parent_change,
            r.on_complete == self.on_complete,
    {
        Task {
            id: self.id.copy(),
            title: self.title.clone(),
            status: self.status,
            priority: self.priority,
            parent_id: copy_opt_task_id(&self.parent_id),
            blocked_by: copy_task_ids(&self.blocked_by),
            created_at: self.created_at,
            created_by: self.created_by.clone(),
            started_at: self.started_at,
            started_by: copy_opt_string(&self.started_by),
            completed_at: self.completed_at,
            completed_by: copy_opt_string(&self.completed_by),
            proof: copy_opt_proof(&self.proof),
            abandoned_at: self.abandoned_at,
            abandoned_reason: copy_opt_string(&self.abandoned_reason),
            assigned_to: copy_opt_string(&self.assigned_to),
            payload: copy_opt_string(&self.payload),
            parent_change: copy_opt_string(&self.parent_change),
            on_complete: copy_opt_hook(&self.on_complete),
        }
    }
}

} // verus!
