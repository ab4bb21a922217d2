//! Core data types for the reminders substrate.
use vstd::prelude::*;

use crate::reminders::schedule::Schedule;
use crate::text::{owned, str_eq};
use crate::time::{now_millis, Timestamp, MAX_TIMESTAMP};

verus! {

// ---------------------------------------------------------------------------
// Priority
// ---------------------------------------------------------------------------

/// Reminder urgency. Lower number = higher urgency (1 is most urgent):
/// `Critical < High < Medium < Low < Minimal`.
#[derive(Debug, Clone, Copy, PartialEq, Eq, Structural, PartialOrd, Ord, Hash)]
pub enum Priority {
    Critical,
    High,
    Medium,
    Low,
    Minimal,
}

impl Priority {
    /// The urgency number: 1 for `Critical` up to 5 for `Minimal`.
    pub open spec fn number(self) -> nat {
        match self {
            Priority::Critical => 1,
            Priority::High => 2,
            Priority::Medium => 3,
            Priority::Low => 4,
            Priority::Minimal => 5,
        }
    }

    /// The urgency number: 1 for `Critical` up to 5 for `Minimal`.
    pub fn as_u8(self) -> (r: u8)
        ensures
            r == self.number(),
    {
        match self {
            Priority::Critical => 1,
            Priority::High => 2,
            Priority::Medium => 3,
            Priority::Low => 4,
            Priority::Minimal => 5,
        }
    }
}

impl Default for Priority {
    fn default() -> (r: Self)
        ensures
            r == Priority::Medium,
    {
        Priority::Medium
    }
}

// ---------------------------------------------------------------------------
// ReminderStatus
// ---------------------------------------------------------------------------

#[derive(Debug, Clone, Copy, PartialEq, Eq, Structural, Hash)]
pub enum ReminderStatus {
    /// Scheduled but not yet due.
    Pending,
    /// `due_at` has passed; ready to be acted on.
    Due,
    /// Not autonomous: waiting for explicit user approval before execution.
    AwaitingPermission,
    /// Agent has begun working on this reminder.
    InProgress,
    /// Successfully executed (or acknowledged).
    Completed,
    /// Deferred to a later time via `snooze()`.
    Snoozed,
    /// Explicitly cancelled; will never fire again.
    Cancelled,
}

impl ReminderStatus {
    pub open spec fn spec_is_terminal(self) -> bool {
        self == ReminderStatus::Completed || self == ReminderStatus::Cancelled
    }

    pub open spec fn spec_is_actionable(self) -> bool {
        self == ReminderStatus::Due || self == ReminderStatus::AwaitingPermission || self
            == ReminderStatus::InProgress
    }

    /// `Completed` and `Cancelled` are terminal.
    pub fn is_terminal(self) -> (r: bool)
        ensures
            r == self.spec_is_terminal(),
    {
        matches!(self, ReminderStatus::Completed | ReminderStatus::Cancelled)
    }

    /// `Due`, `AwaitingPermission` and `InProgress` can be acted on now.
    pub fn is_actionable(self) -> (r: bool)
        ensures
            r == self.spec_is_actionable(),
    {
        matches!(
            self,
            ReminderStatus::Due | ReminderStatus::AwaitingPermission | ReminderStatus::InProgress
        )
    }
}

// ---------------------------------------------------------------------------
// Soft references
// ---------------------------------------------------------------------------

/// The kind of object a `ReminderRef` points to.
#[derive(Debug, Clone, PartialEq, Eq, Hash)]
pub enum RefKind {
    /// A git-style branch in the stategraph.
    Branch,
    /// A memory entry (key in the memories system).
    Memory,
    /// A plan record.
    Plan,
    /// A task record.
    Task,
    /// Any `/_path` in the stategraph state tree.
    StatePath,
    /// An external resource (URL, file path, etc.).
    External { scheme: String },
}

/// A soft, advisory reference to another object. A stale ref does not
/// invalidate the reminder; the label survives renames.
#[derive(Debug, Clone, PartialEq, Eq)]
pub struct ReminderRef {
    pub kind: RefKind,
    /// Stable identifier (branch name, memory key, task ID, path, URL...).
    pub id: String,
    /// Human-readable label captured at creation time.
    pub label: Option<String>,
    /// Set when the referenced object can no longer be resolved.
    pub stale: bool,
}

impl ReminderRef {
    pub fn branch(id: &str, label: &str) -> (r: ReminderRef)
        ensures
            r.kind == RefKind::Branch,
            r.id@ == id@,
            r.label matches Some(l) && l@ == label@,
            !r.stale,
    {
        ReminderRef { kind: RefKind::Branch, id: owned(id), label: Some(owned(label)), stale: false }
    }

    pub fn memory(id: &str) -> (r: ReminderRef)
        ensures
            r.kind == RefKind::Memory,
            r.id@ == id@,
            r.label is None,
            !r.stale,
    {
        ReminderRef { kind: RefKind::Memory, id: owned(id), label: None, stale: false }
    }

    pub fn plan(id: &str, label: &str) -> (r: ReminderRef)
        ensures
            r.kind == RefKind::Plan,
            r.id@ == id@,
            r.label matches Some(l) && l@ == label@,
            !r.stale,
    {
        ReminderRef { kind: RefKind::Plan, id: owned(id), label: Some(owned(label)), stale: false }
    }

    pub fn task(id: &str, label: &str) -> (r: ReminderRef)
        ensures
            r.kind == RefKind::Task,
            r.id@ == id@,
            r.label matches Some(l) && l@ == label@,
            !r.stale,
    {
        ReminderRef { kind: RefKind::Task, id: owned(id), label: Some(owned(label)), stale: false }
    }

    pub fn state_path(path: &str) -> (r: ReminderRef)
        ensures
            r.kind == RefKind::StatePath,
            r.id@ == path@,
            r.label is None,
            !r.stale,
    {
        ReminderRef { kind: RefKind::StatePath, id: owned(path), label: None, stale: false }
    }

    pub fn external(url: &str, scheme: &str) -> (r: ReminderRef)
        ensures
            r.kind matches RefKind::External { scheme: s } && s@ == scheme@,
            r.id@ == url@,
            r.label is None,
            !r.stale,
    {
        ReminderRef {
            kind: RefKind::External { scheme: owned(scheme) },
            id: owned(url),
            label: None,
            stale: false,
        }
    }

    /// A copy of this reference.
    pub fn copy(&self) -> (r: ReminderRef)
        ensures
            r == *self,
    {
        let kind = match &self.kind {
            RefKind::Branch => RefKind::Branch,
            RefKind::Memory => RefKind::Memory,
            RefKind::Plan => RefKind::Plan,
            RefKind::Task => RefKind::Task,
            RefKind::StatePath => RefKind::StatePath,
            RefKind::External { scheme } => RefKind::External { scheme: scheme.clone() },
        };
        let label = match &self.label {
            Some(l) => Some(l.clone()),
            None => None,
        };
        ReminderRef { kind, id: self.id.clone(), label, stale: self.stale }
    }
}

// ---------------------------------------------------------------------------
// ExecutionRecord
// ---------------------------------------------------------------------------

/// Outcome of a single reminder execution attempt.
#[derive(Debug, Clone, Copy, PartialEq, Eq, Structural)]
pub enum ExecutionResult {
    /// Reminder was fully acted on.
    Success,
    /// Execution failed; see `notes`.
    Failed,
    /// Agent decided to defer without a specific new time.
    Deferred,
    /// Agent snoozed during execution (new `due_at` was set).
    Snoozed,
    /// Reminder was cancelled during execution.
    Cancelled,
}

/// Audit record of one execution of a reminder.
#[derive(Debug, Clone)]
pub struct ExecutionRecord {
    pub started_at: Timestamp,
    pub completed_at: Option<Timestamp>,
    pub agent_id: String,
    /// Set when `autonomous: false` and a user approved execution.
    pub approved_by: Option<String>,
    pub result: ExecutionResult,
    pub notes: Vec<String>,
    /// Task ID created for this execution, if the agent created one.
    pub task_id: Option<String>,
}

/// `a` holds what `b` holds: every field equal, the notes equal as
/// sequences.
pub open spec fn record_matches(a: ExecutionRecord, b: ExecutionRecord) -> bool {
    &&& a == (ExecutionRecord { notes: a.notes, ..b })
    &&& a.notes@ == b.notes@
}

/// Every record of `a` matches the record of `b` at the same position.
pub open spec fn records_match(a: Seq<ExecutionRecord>, b: Seq<ExecutionRecord>) -> bool {
    &&& a.len() == b.len()
    &&& forall|i: int| 0 <= i < a.len() ==> record_matches(#[trigger] a[i], b[i])
}

/// A copy of a list of strings.
pub fn copy_strings(v: &Vec<String>) -> (r: Vec<String>)
    ensures
        r@ == v@,
{
    let mut out: Vec<String> = Vec::new();
    let mut i: usize = 0;
    while i < v.len()
        invariant
            i <= v.len(),
            out@ == v@.take(i as int),
        decreases v.len() - i,
    {
        out.push(v[i].clone());
        proof {
            assert(v@.take(i + 1) =~= v@.take(i as int).push(v@[i as int]));
        }
        i = i + 1;
    }
    proof {
        assert(v@.take(v.len() as int) =~= v@);
    }
    out
}

fn copy_opt_string(s: &Option<String>) -> (r: Option<String>)
    ensures
        r == *s,
{
    match s {
        Some(v) => Some(v.clone()),
        None => None,
    }
}

impl ExecutionRecord {
    /// A copy of this record.
    pub fn copy(&self) -> (r: ExecutionRecord)
        ensures
            record_matches(r, *self),
    {
        ExecutionRecord {
            started_at: self.started_at,
            completed_at: self.completed_at,
            agent_id: self.agent_id.clone(),
            approved_by: copy_opt_string(&self.approved_by),
            result: self.result,
            notes: copy_strings(&self.notes),
            task_id: copy_opt_string(&self.task_id),
        }
    }
}

fn copy_refs(v: &Vec<ReminderRef>) -> (r: Vec<ReminderRef>)
    ensures
        r@ == v@,
{
    let mut out: Vec<ReminderRef> = Vec::new();
    let mut i: usize = 0;
    while i < v.len()
        invariant
            i <= v.len(),
            out@ == v@.take(i as int),
        decreases v.len() - i,
    {
        out.push(v[i].copy());
        proof {
            assert(v@.take(i + 1) =~= v@.take(i as int).push(v@[i as int]));
        }
        i = i + 1;
    }
    proof {
        assert(v@.take(v.len() as int) =~= v@);
    }
    out
}

fn copy_records(v: &Vec<ExecutionRecord>) -> (r: Vec<ExecutionRecord>)
    ensures
        records_match(r@, v@),
{
    let mut out: Vec<ExecutionRecord> = Vec::new();
    let mut i: usize = 0;
    while i < v.len()
        invariant
            i <= v.len(),
            out@.len() == i,
            forall|j: int| 0 <= j < i ==> record_matches(#[trigger] out@[j], v@[j]),
        decreases v.len() - i,
    {
        out.push(v[i].copy());
        i = i + 1;
    }
    out
}

// ---------------------------------------------------------------------------
// Reminder
// ---------------------------------------------------------------------------

/// A scheduled reminder for an agent or user.
#[derive(Debug, Clone)]
pub struct Reminder {
    pub id: String,
    pub title: String,
    /// Full instructions for the agent at execution time.
    pub instructions: String,
    /// Optional specific commands/tool calls to run.
    pub commands: Vec<String>,
    /// Soft references to contextual objects.
    pub refs: Vec<ReminderRef>,
    pub priority: Priority,
    pub due_at: Timestamp,
    /// Recurrence schedule. `None` means fire once.
    pub schedule: Option<Schedule>,
    /// `true`: the agent may execute without asking first; `false`: the
    /// user must `approve()` before the agent acts.
    pub autonomous: bool,
    pub created_by: String,
    pub created_at: Timestamp,
    pub status: ReminderStatus,
    /// Set when the reminder was snoozed.
    pub snoozed_until: Option<Timestamp>,
    /// Full audit trail of every execution attempt.
    pub executions: Vec<ExecutionRecord>,
    pub tags: Vec<String>,
}

/// `a` holds what `b` holds: every field equal, the lists equal element
/// by element.
pub open spec fn reminder_matches(a: Reminder, b: Reminder) -> bool {
    &&& a == (Reminder {
        commands: a.commands,
        refs: a.refs,
        executions: a.executions,
        tags: a.tags,
        ..b
    })
    &&& a.commands@ == b.commands@
    &&& a.refs@ == b.refs@
    &&& a.tags@ == b.tags@
    &&& records_match(a.executions@, b.executions@)
}

pub proof fn lemma_reminder_matches_trans(a: Reminder, b: Reminder, c: Reminder)
    requires
        reminder_matches(a, b),
        reminder_matches(b, c),
    ensures
        reminder_matches(a, c),
{
    assert forall|i: int| 0 <= i < a.executions@.len() implies record_matches(
        #[trigger] a.executions@[i],
        c.executions@[i],
    ) by {
        assert(record_matches(a.executions@[i], b.executions@[i]));
        assert(record_matches(b.executions@[i], c.executions@[i]));
    }
}

impl Reminder {
    /// A copy of this reminder.
    pub fn copy(&self) -> (r: Reminder)
        ensures
            reminder_matches(r, *self),
    {
        Reminder {
            id: self.id.clone(),
            title: self.title.clone(),
            instructions: self.instructions.clone(),
            commands: copy_strings(&self.commands),
            refs: copy_refs(&self.refs),
            priority: self.priority,
            due_at: self.due_at,
            schedule: self.schedule,
            autonomous: self.autonomous,
            created_by: self.created_by.clone(),
            created_at: self.created_at,
            status: self.status,
            snoozed_until: self.snoozed_until,
            executions: copy_records(&self.executions),
            tags: copy_strings(&self.tags),
        }
    }
}

// ---------------------------------------------------------------------------
// Input / filter types
// ---------------------------------------------------------------------------

/// Input for creating a new reminder.
#[derive(Debug, Clone)]
pub struct CreateReminder {
    pub title: String,
    pub instructions: String,
    pub commands: Vec<String>,
    pub refs: Vec<ReminderRef>,
    pub priority: Priority,
    pub due_at: Timestamp,
    pub schedule: Option<Schedule>,
    pub autonomous: bool,
    pub created_by: String,
    pub tags: Vec<String>,
}

/// `autonomous` is on unless the input says otherwise.
pub fn default_true() -> (r: bool)
    ensures
        r,
{
    true
}

/// `r` is the reminder `CreateReminder::into_reminder` builds from `c`,
/// with id `id` at time `now`: status `Pending`, no executions, not
/// snoozed.
pub open spec fn built_from(r: Reminder, c: CreateReminder, id: String, now: Timestamp) -> bool {
    &&& r == (Reminder {
        id,
        title: c.title,
        instructions: c.instructions,
        commands: c.commands,
        refs: c.refs,
        priority: c.priority,
        due_at: c.due_at,
        schedule: c.schedule,
        autonomous: c.autonomous,
        created_by: c.created_by,
        created_at: now,
        status: ReminderStatus::Pending,
        snoozed_until: None,
        executions: r.executions,
        tags: c.tags,
    })
    &&& r.executions@.len() == 0
}

impl CreateReminder {
    /// An input with the given title, instructions, due time and author;
    /// no commands, refs or tags, medium priority, no schedule, and
    /// autonomous.
    pub fn new(title: &str, instructions: &str, due_at: Timestamp, created_by: &str) -> (r:
        CreateReminder)
        ensures
            r.title@ == title@,
            r.instructions@ == instructions@,
            r.commands@.len() == 0,
            r.refs@.len() == 0,
            r.priority == Priority::Medium,
            r.due_at == due_at,
            r.schedule is None,
            r.autonomous,
            r.created_by@ == created_by@,
            r.tags@.len() == 0,
    {
        CreateReminder {
            title: owned(title),
            instructions: owned(instructions),
            commands: Vec::new(),
            refs: Vec::new(),
            priority: Priority::Medium,
            due_at,
            schedule: None,
            autonomous: default_true(),
            created_by: owned(created_by),
            tags: Vec::new(),
        }
    }

    pub fn with_priority(self, p: Priority) -> (r: CreateReminder)
        ensures
            r == (CreateReminder { priority: p, ..self }),
    {
        CreateReminder { priority: p, ..self }
    }

    pub fn with_schedule(self, s: Schedule) -> (r: CreateReminder)
        ensures
            r == (CreateReminder { schedule: Some(s), ..self }),
    {
        CreateReminder { schedule: Some(s), ..self }
    }

    pub fn with_autonomous(self, a: bool) -> (r: CreateReminder)
        ensures
            r == (CreateReminder { autonomous: a, ..self }),
    {
        CreateReminder { autonomous: a, ..self }
    }

    pub fn with_commands(self, cmds: Vec<String>) -> (r: CreateReminder)
        ensures
            r == (CreateReminder { commands: cmds, ..self }),
    {
        CreateReminder { commands: cmds, ..self }
    }

    pub fn with_refs(self, refs: Vec<ReminderRef>) -> (r: CreateReminder)
        ensures
            r == (CreateReminder { refs, ..self }),
    {
        CreateReminder { refs, ..self }
    }

    pub fn with_tags(self, tags: Vec<String>) -> (r: CreateReminder)
        ensures
            r == (CreateReminder { tags, ..self }),
    {
        CreateReminder { tags, ..self }
    }

    /// Build the `Reminder` for this input with the given id, created at
    /// `now`: status `Pending`, no executions, not snoozed.
    pub fn into_reminder_with(self, id: String, now: Timestamp) -> (r: Reminder)
        ensures
            built_from(r, self, id, now),
    {
        Reminder {
            id,
            title: self.title,
            instructions: self.instructions,
            commands: self.commands,
            refs: self.refs,
            priority: self.priority,
            due_at: self.due_at,
            schedule: self.schedule,
            autonomous: self.autonomous,
            created_by: self.created_by,
            created_at: now,
            status: ReminderStatus::Pending,
            snoozed_until: None,
            executions: Vec::new(),
            tags: self.tags,
        }
    }

    /// Build the `Reminder` for this input with a fresh random id (a
    /// hyphenated UUID v4), created now.
    pub fn into_reminder(self) -> (r: Reminder)
        ensures
            uuid_v4_text(r.id@),
            0 <= r.created_at <= MAX_TIMESTAMP,
            built_from(r, self, r.id, r.created_at),
    {
        let id = new_reminder_id();
        let now = now_millis();
        self.into_reminder_with(id, now)
    }
}

/// A lowercase hexadecimal digit.
pub open spec fn lower_hex(c: char) -> bool {
    ('0' <= c && c <= '9') || ('a' <= c && c <= 'f')
}

/// The hyphenated lowercase text of a version-4 UUID: 8-4-4-4-12 hex
/// digits, the version digit `4`, and the variant digit one of `8`, `9`,
/// `a`, `b`.
pub open spec fn uuid_v4_text(s: Seq<char>) -> bool {
    &&& s.len() == 36
    &&& forall|i: int|
        0 <= i < 36 ==> if i == 8 || i == 13 || i == 18 || i == 23 {
            #[trigger] s[i] == '-'
        } else {
            lower_hex(s[i])
        }
    &&& s[14] == '4'
    &&& (s[19] == '8' || s[19] == '9' || s[19] == 'a' || s[19] == 'b')
}

/// A fresh reminder id: `uuid::Uuid::new_v4().to_string()`.
///
/// Trusted: the id is random, so only its shape is stated. `new_v4`
/// masks random bits so that the version is 4 and the variant is the
/// RFC 4122 one, and `Uuid`'s `Display` writes the hyphenated lowercase
/// form.
#[verifier::external_body]
fn new_reminder_id() -> (r: String)
    ensures
        uuid_v4_text(r@),
{
    uuid::Uuid::new_v4().to_string()
}

/// Filters for listing reminders. Every field that is set must hold.
#[derive(Debug, Clone)]
pub struct ReminderFilter {
    pub status: Option<ReminderStatus>,
    pub priority_at_most: Option<Priority>,
    pub created_by: Option<String>,
    /// Only reminders due at or before this time.
    pub due_before: Option<Timestamp>,
    /// Only reminders that have a ref with this `id`.
    pub ref_id: Option<String>,
    /// Only reminders carrying every one of these tags.
    pub tags: Vec<String>,
}

impl Default for ReminderFilter {
    fn default() -> (r: Self)
        ensures
            r.status is None,
            r.priority_at_most is None,
            r.created_by is None,
            r.due_before is None,
            r.ref_id is None,
            r.tags@.len() == 0,
    {
        ReminderFilter {
            status: None,
            priority_at_most: None,
            created_by: None,
            due_before: None,
            ref_id: None,
            tags: Vec::new(),
        }
    }
}

/// Whether `r` passes every condition `f` sets.
pub open spec fn filter_matches(f: ReminderFilter, r: Reminder) -> bool {
    &&& (f.status matches Some(s) ==> r.status == s)
    &&& (f.priority_at_most matches Some(p) ==> r.priority.number() <= p.number())
    &&& (f.created_by matches Some(cb) ==> r.created_by@ == cb@)
    &&& (f.due_before matches Some(d) ==> r.due_at <= d)
    &&& (f.ref_id matches Some(rid) ==> has_ref_id(r.refs@, rid@))
    &&& forall|t: int| 0 <= t < f.tags@.len() ==> has_tag_text(r.tags@, (#[trigger] f.tags@[t])@)
}

/// Some reference in `refs` has id `id`.
pub open spec fn has_ref_id(refs: Seq<ReminderRef>, id: Seq<char>) -> bool {
    exists|i: int| 0 <= i < refs.len() && (#[trigger] refs[i]).id@ == id
}

/// Some tag in `tags` reads `tag`.
pub open spec fn has_tag_text(tags: Seq<String>, tag: Seq<char>) -> bool {
    exists|i: int| 0 <= i < tags.len() && (#[trigger] tags[i])@ == tag
}

fn has_ref(refs: &Vec<ReminderRef>, rid: &str) -> (b: bool)
    ensures
        b == has_ref_id(refs@, rid@),
{
    let mut i: usize = 0;
    while i < refs.len()
        invariant
            i <= refs@.len(),
            forall|j: int| 0 <= j < i ==> (#[trigger] refs@[j]).id@ != rid@,
        decreases refs.len() - i,
    {
        if str_eq(refs[i].id.as_str(), rid) {
            return true;
        }
        i = i + 1;
    }
    false
}

fn has_tag(tags: &Vec<String>, tag: &str) -> (b: bool)
    ensures
        b == has_tag_text(tags@, tag@),
{
    let mut i: usize = 0;
    while i < tags.len()
        invariant
            i <= tags@.len(),
            forall|j: int| 0 <= j < i ==> (#[trigger] tags@[j])@ != tag@,
        decreases tags.len() - i,
    {
        if str_eq(tags[i].as_str(), tag) {
            return true;
        }
        i = i + 1;
    }
    false
}

fn has_all_tags(tags: &Vec<String>, wanted: &Vec<String>) -> (b: bool)
    ensures
        b == forall|t: int| 0 <= t < wanted@.len() ==> has_tag_text(tags@, (#[trigger] wanted@[t])@),
{
    let mut t: usize = 0;
    while t < wanted.len()
        invariant
            t <= wanted@.len(),
            forall|k: int| 0 <= k < t ==> has_tag_text(tags@, (#[trigger] wanted@[k])@),
        decreases wanted.len() - t,
    {
        if !has_tag(tags, wanted[t].as_str()) {
            return false;
        }
        t = t + 1;
    }
    true
}

impl ReminderFilter {
    /// Whether `r` passes every condition this filter sets.
    pub fn matches(&self, r: &Reminder) -> (b: bool)
        ensures
            b == filter_matches(*self, *r),
    {
        match self.status {
            Some(s) => {
                if r.status != s {
                    return false;
                }
            },
            None => {},
        }
        match self.priority_at_most {
            Some(p) => {
                if r.priority.as_u8() > p.as_u8() {
                    return false;
                }
            },
            None => {},
        }
        match &self.created_by {
            Some(cb) => {
                if !str_eq(r.created_by.as_str(), cb.as_str()) {
                    return false;
                }
            },
            None => {},
        }
        match self.due_before {
            Some(d) => {
                if r.due_at > d {
                    return false;
                }
            },
            None => {},
        }
        match &self.ref_id {
            Some(rid) => {
                if !has_ref(&r.refs, rid.as_str()) {
                    return false;
                }
            },
            None => {},
        }
        has_all_tags(&r.tags, &self.tags)
    }
}

} // verus!
