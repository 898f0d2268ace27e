//! Explicit run and rollout state machines.
//!
//! Progress is tracked per rollout, never inferred from a completed count: a
//! count is a projection of state, not state. Every transition is checked
//! against a declared table, and `Completed` is a claim about evidence,
//! reachable only through [`RunProgress::settle`].

use crate::admission::error::AdmissionErrorCode;
use crate::admission::ids::RolloutId;
use crate::json::{
    array_of, count_view, entries_of, field, lemma_entries_of, object_of, text_value, text_view,
    unsigned_value, JsonValue, JsonView,
};
use crate::text::{concat, concat3, decimal, u64_to_string};
use vstd::prelude::*;

verus! {

// ---------------------------------------------------------------------------
// Run state
// ---------------------------------------------------------------------------

/// The admission-and-execution lifecycle of one evaluation run.
#[derive(Clone, Copy, Debug, PartialEq, Eq, Structural)]
pub enum RunState {
    Draft,
    Validating,
    ReadyForApproval,
    AwaitingApproval,
    Admitted,
    Starting,
    Running,
    Completed,
    Failed,
    Cancelled,
    Degraded,
}

pub open spec fn run_state_text(s: RunState) -> Seq<char> {
    match s {
        RunState::Draft => "draft"@,
        RunState::Validating => "validating"@,
        RunState::ReadyForApproval => "ready_for_approval"@,
        RunState::AwaitingApproval => "awaiting_approval"@,
        RunState::Admitted => "admitted"@,
        RunState::Starting => "starting"@,
        RunState::Running => "running"@,
        RunState::Completed => "completed"@,
        RunState::Failed => "failed"@,
        RunState::Cancelled => "cancelled"@,
        RunState::Degraded => "degraded"@,
    }
}

pub open spec fn run_terminal(s: RunState) -> bool {
    s is Completed || s is Failed || s is Cancelled || s is Degraded
}

/// The declared run transition table, in its declared order. Cancellation is
/// reachable from every non-terminal state; terminal states have no successor.
pub open spec fn run_successors(s: RunState) -> Seq<RunState> {
    match s {
        RunState::Draft => seq![RunState::Validating, RunState::Failed, RunState::Cancelled],
        RunState::Validating => seq![RunState::ReadyForApproval, RunState::Failed, RunState::Cancelled],
        RunState::ReadyForApproval => seq![
            RunState::AwaitingApproval,
            RunState::Failed,
            RunState::Cancelled,
        ],
        RunState::AwaitingApproval => seq![RunState::Admitted, RunState::Failed, RunState::Cancelled],
        RunState::Admitted => seq![RunState::Starting, RunState::Failed, RunState::Cancelled],
        RunState::Starting => seq![
            RunState::Running,
            RunState::Failed,
            RunState::Cancelled,
            RunState::Degraded,
        ],
        RunState::Running => seq![
            RunState::Completed,
            RunState::Failed,
            RunState::Cancelled,
            RunState::Degraded,
        ],
        _ => Seq::empty(),
    }
}

pub open spec fn run_may_transition(from: RunState, to: RunState) -> bool {
    run_successors(from).contains(to)
}

/// The successors a plain transition of a run may take: the table's, less
/// `Completed`, which only settlement enters.
pub open spec fn run_step_successors(s: RunState) -> Seq<RunState> {
    if s == RunState::Running {
        seq![RunState::Failed, RunState::Cancelled, RunState::Degraded]
    } else {
        run_successors(s)
    }
}

proof fn lemma_only_running_completes(s: RunState)
    ensures
        run_successors(s).contains(RunState::Completed) ==> s == RunState::Running,
{
    if run_successors(s).contains(RunState::Completed) {
        let k = choose|k: int| 0 <= k < run_successors(s).len() && run_successors(s)[k] == RunState::Completed;
        assert(run_successors(s)[k] == RunState::Completed);
    }
}

/// Whether a plain transition of a run may take it from `from` to `to`.
pub open spec fn run_step_permitted(from: RunState, to: RunState) -> bool {
    to != RunState::Completed && run_may_transition(from, to)
}

/// The wire names of a sequence of run states.
pub open spec fn run_state_texts(s: Seq<RunState>) -> Seq<Seq<char>> {
    s.map_values(|x: RunState| run_state_text(x))
}

impl RunState {
    pub fn as_str(self) -> (r: &'static str)
        ensures
            r@ == run_state_text(self),
    {
        match self {
            RunState::Draft => "draft",
            RunState::Validating => "validating",
            RunState::ReadyForApproval => "ready_for_approval",
            RunState::AwaitingApproval => "awaiting_approval",
            RunState::Admitted => "admitted",
            RunState::Starting => "starting",
            RunState::Running => "running",
            RunState::Completed => "completed",
            RunState::Failed => "failed",
            RunState::Cancelled => "cancelled",
            RunState::Degraded => "degraded",
        }
    }

    pub fn is_terminal(self) -> (r: bool)
        ensures
            r == run_terminal(self),
    {
        match self {
            RunState::Completed | RunState::Failed | RunState::Cancelled | RunState::Degraded => true,
            _ => false,
        }
    }

    /// The declared successors of this state.
    pub fn permitted_successors(self) -> (r: Vec<RunState>)
        ensures
            r@ == run_successors(self),
    {
        let r = match self {
            RunState::Draft => vec![RunState::Validating, RunState::Failed, RunState::Cancelled],
            RunState::Validating => vec![
                RunState::ReadyForApproval,
                RunState::Failed,
                RunState::Cancelled,
            ],
            RunState::ReadyForApproval => vec![
                RunState::AwaitingApproval,
                RunState::Failed,
                RunState::Cancelled,
            ],
            RunState::AwaitingApproval => vec![
                RunState::Admitted,
                RunState::Failed,
                RunState::Cancelled,
            ],
            RunState::Admitted => vec![RunState::Starting, RunState::Failed, RunState::Cancelled],
            RunState::Starting => vec![
                RunState::Running,
                RunState::Failed,
                RunState::Cancelled,
                RunState::Degraded,
            ],
            RunState::Running => vec![
                RunState::Completed,
                RunState::Failed,
                RunState::Cancelled,
                RunState::Degraded,
            ],
            _ => Vec::new(),
        };
        assert(r@ =~= run_successors(self));
        r
    }

    /// Whether the table permits this transition.
    pub fn may_transition_to(self, next: RunState) -> (r: bool)
        ensures
            r == run_may_transition(self, next),
    {
        let successors = self.permitted_successors();
        let mut i: usize = 0;
        while i < successors.len()
            invariant
                i <= successors.len(),
                successors@ == run_successors(self),
                forall|k: int| 0 <= k < i ==> successors@[k] != next,
            decreases successors.len() - i,
        {
            if successors[i] == next {
                assert(successors@[i as int] == next);
                return true;
            }
            i = i + 1;
        }
        false
    }

    /// Performs a transition, or returns the typed rejection.
    pub fn transition_to(self, next: RunState) -> (r: Result<RunState, StateTransitionError>)
        ensures
            match r {
                Ok(s) => run_may_transition(self, next) && s == next,
                Err(e) => !run_may_transition(self, next) && e.code
                    == AdmissionErrorCode::ExecutionSpecInvalid && e.kind == TransitionKind::Run
                    && e.from@ == run_state_text(self) && e.to@ == run_state_text(next)
                    && static_texts(e.permitted@) == run_state_texts(run_successors(self)),
            },
    {
        if self.may_transition_to(next) {
            return Ok(next);
        }
        let successors = self.permitted_successors();
        let mut permitted: Vec<&'static str> = Vec::new();
        let mut i: usize = 0;
        while i < successors.len()
            invariant
                i <= successors.len(),
                successors@ == run_successors(self),
                static_texts(permitted@) == run_state_texts(successors@.subrange(0, i as int)),
            decreases successors.len() - i,
        {
            permitted.push(successors[i].as_str());
            assert(run_state_texts(successors@.subrange(0, i + 1)) =~= run_state_texts(
                successors@.subrange(0, i as int),
            ).push(run_state_text(successors@[i as int])));
            assert(static_texts(permitted@) =~= static_texts(permitted@.drop_last()).push(
                permitted@.last()@,
            ));
            i = i + 1;
        }
        assert(successors@.subrange(0, successors@.len() as int) =~= successors@);
        Err(
            StateTransitionError {
                code: AdmissionErrorCode::ExecutionSpecInvalid,
                kind: TransitionKind::Run,
                from: self.as_str(),
                to: next.as_str(),
                permitted,
            },
        )
    }
}

/// The texts of a sequence of static strings.
pub open spec fn static_texts(s: Seq<&'static str>) -> Seq<Seq<char>> {
    s.map_values(|t: &'static str| t@)
}

/// Which machine refused a transition.
#[derive(Clone, Copy, Debug, PartialEq, Eq, Structural)]
pub enum TransitionKind {
    Run,
    Rollout,
}

pub open spec fn transition_code_text(kind: TransitionKind) -> Seq<char> {
    match kind {
        TransitionKind::Run => "invalid_run_state_transition"@,
        TransitionKind::Rollout => "invalid_rollout_state_transition"@,
    }
}

impl TransitionKind {
    /// The stable public code for an illegal transition.
    pub fn error_code(self) -> (r: &'static str)
        ensures
            r@ == transition_code_text(self),
    {
        match self {
            TransitionKind::Run => "invalid_run_state_transition",
            TransitionKind::Rollout => "invalid_rollout_state_transition",
        }
    }
}

/// A refused transition: where from, where to, and what the table permits.
#[derive(Clone, Debug)]
pub struct StateTransitionError {
    pub code: AdmissionErrorCode,
    pub kind: TransitionKind,
    pub from: &'static str,
    pub to: &'static str,
    pub permitted: Vec<&'static str>,
}


/// Texts joined by `, `.
pub open spec fn joined(s: Seq<Seq<char>>) -> Seq<char>
    decreases s.len(),
{
    if s.len() == 0 {
        Seq::empty()
    } else if s.len() == 1 {
        s[0]
    } else {
        joined(s.drop_last()) + ", "@ + s.last()
    }
}

/// The texts of `parts`, joined by `, `.
pub fn join_texts(parts: &Vec<&'static str>) -> (r: String)
    ensures
        r@ == joined(static_texts(parts@)),
{
    let mut out = String::new();
    let mut i: usize = 0;
    while i < parts.len()
        invariant
            i <= parts.len(),
            out@ == joined(static_texts(parts@.subrange(0, i as int))),
        decreases parts.len() - i,
    {
        let ghost before = static_texts(parts@.subrange(0, i as int));
        let ghost after = static_texts(parts@.subrange(0, i + 1));
        assert(after.drop_last() =~= before);
        assert(after.last() == parts@[i as int]@);
        if i > 0 {
            out.append(", ");
        }
        out.append(parts[i]);
        proof {
            if i == 0 {
                assert(out@ =~= after[0]);
            } else {
                assert(out@ =~= joined(before) + ", "@ + after.last());
            }
        }
        i = i + 1;
    }
    assert(parts@.subrange(0, parts@.len() as int) =~= parts@);
    out
}

/// The message a refused transition displays.
pub open spec fn transition_message(e: StateTransitionError) -> Seq<char> {
    transition_code_text(e.kind) + ": `"@ + e.from@ + "` may not transition to `"@ + e.to@
        + "` (permitted: "@ + (if e.permitted@.len() == 0 {
        "none, this state is terminal"@
    } else {
        joined(static_texts(e.permitted@))
    }) + ")"@
}

impl StateTransitionError {
    pub fn public_code(&self) -> (r: &'static str)
        ensures
            r@ == transition_code_text(self.kind),
    {
        self.kind.error_code()
    }

    pub fn to_json(&self) -> (r: JsonValue)
        ensures
            r@ == JsonView::Object(
                seq![
                    ("code"@, JsonView::Text(transition_code_text(self.kind))),
                    ("from"@, JsonView::Text(self.from@)),
                    ("to"@, JsonView::Text(self.to@)),
                    ("permitted"@, JsonView::Array(
                        static_texts(self.permitted@).map_values(|t: Seq<char>| JsonView::Text(t)),
                    )),
                ],
            ),
    {
        let mut items: Vec<JsonValue> = Vec::new();
        let mut i: usize = 0;
        while i < self.permitted.len()
            invariant
                i <= self.permitted.len(),
                items@.len() == i,
                forall|k: int|
                    0 <= k < i ==> #[trigger] items@[k]@ == JsonView::Text(self.permitted@[k]@),
            decreases self.permitted.len() - i,
        {
            items.push(text_value(self.permitted[i]));
            i = i + 1;
        }
        let permitted = crate::json::array_of(items);
        assert(items@.map_values(|v: JsonValue| v@) =~= static_texts(self.permitted@).map_values(
            |t: Seq<char>| JsonView::Text(t),
        ));
        let entries = vec![
            field("code", text_value(self.public_code())),
            field("from", text_value(self.from)),
            field("to", text_value(self.to)),
            field("permitted", permitted),
        ];
        proof {
            lemma_entries_of(entries@);
            assert(entries_of(entries@) =~= seq![
                ("code"@, JsonView::Text(transition_code_text(self.kind))),
                ("from"@, JsonView::Text(self.from@)),
                ("to"@, JsonView::Text(self.to@)),
                ("permitted"@, JsonView::Array(
                    static_texts(self.permitted@).map_values(|t: Seq<char>| JsonView::Text(t)),
                )),
            ]);
        }
        object_of(entries)
    }

    /// The message the error displays.
    pub fn to_text(&self) -> (r: String)
        ensures
            r@ == transition_message(*self),
    {
        let list = if self.permitted.len() == 0 {
            String::from_str("none, this state is terminal")
        } else {
            join_texts(&self.permitted)
        };
        let head = concat3(self.public_code(), ": `", self.from);
        let head = concat3(head.as_str(), "` may not transition to `", self.to);
        let head = concat3(head.as_str(), "` (permitted: ", list.as_str());
        crate::text::concat(head.as_str(), ")")
    }
}

// ---------------------------------------------------------------------------
// Rollout state
// ---------------------------------------------------------------------------

/// One rollout's own lifecycle, tracked independently of every other rollout.
#[derive(Clone, Copy, Debug, PartialEq, Eq, Structural)]
pub enum RolloutState {
    Planned,
    Queued,
    Starting,
    Running,
    Completed,
    Failed,
    Cancelled,
    Degraded,
}

pub open spec fn rollout_state_text(s: RolloutState) -> Seq<char> {
    match s {
        RolloutState::Planned => "planned"@,
        RolloutState::Queued => "queued"@,
        RolloutState::Starting => "starting"@,
        RolloutState::Running => "running"@,
        RolloutState::Completed => "completed"@,
        RolloutState::Failed => "failed"@,
        RolloutState::Cancelled => "cancelled"@,
        RolloutState::Degraded => "degraded"@,
    }
}

pub open spec fn rollout_terminal(s: RolloutState) -> bool {
    s is Completed || s is Failed || s is Cancelled || s is Degraded
}

/// Not finished: a run holding any of these cannot be `completed`.
pub open spec fn rollout_in_flight(s: RolloutState) -> bool {
    s is Queued || s is Starting || s is Running
}

/// The declared rollout transition table, in its declared order.
pub open spec fn rollout_successors(s: RolloutState) -> Seq<RolloutState> {
    match s {
        RolloutState::Planned => seq![RolloutState::Queued, RolloutState::Cancelled, RolloutState::Failed],
        RolloutState::Queued => seq![RolloutState::Starting, RolloutState::Cancelled, RolloutState::Failed],
        RolloutState::Starting => seq![
            RolloutState::Running,
            RolloutState::Failed,
            RolloutState::Cancelled,
            RolloutState::Degraded,
        ],
        RolloutState::Running => seq![
            RolloutState::Completed,
            RolloutState::Failed,
            RolloutState::Cancelled,
            RolloutState::Degraded,
        ],
        _ => Seq::empty(),
    }
}

pub open spec fn rollout_may_transition(from: RolloutState, to: RolloutState) -> bool {
    rollout_successors(from).contains(to)
}

pub open spec fn rollout_state_texts(s: Seq<RolloutState>) -> Seq<Seq<char>> {
    s.map_values(|x: RolloutState| rollout_state_text(x))
}

impl RolloutState {
    pub fn as_str(self) -> (r: &'static str)
        ensures
            r@ == rollout_state_text(self),
    {
        match self {
            RolloutState::Planned => "planned",
            RolloutState::Queued => "queued",
            RolloutState::Starting => "starting",
            RolloutState::Running => "running",
            RolloutState::Completed => "completed",
            RolloutState::Failed => "failed",
            RolloutState::Cancelled => "cancelled",
            RolloutState::Degraded => "degraded",
        }
    }

    pub fn is_terminal(self) -> (r: bool)
        ensures
            r == rollout_terminal(self),
    {
        match self {
            RolloutState::Completed | RolloutState::Failed | RolloutState::Cancelled
            | RolloutState::Degraded => true,
            _ => false,
        }
    }

    pub fn is_in_flight(self) -> (r: bool)
        ensures
            r == rollout_in_flight(self),
    {
        match self {
            RolloutState::Queued | RolloutState::Starting | RolloutState::Running => true,
            _ => false,
        }
    }

    pub fn permitted_successors(self) -> (r: Vec<RolloutState>)
        ensures
            r@ == rollout_successors(self),
    {
        let r = match self {
            RolloutState::Planned => vec![
                RolloutState::Queued,
                RolloutState::Cancelled,
                RolloutState::Failed,
            ],
            RolloutState::Queued => vec![
                RolloutState::Starting,
                RolloutState::Cancelled,
                RolloutState::Failed,
            ],
            RolloutState::Starting => vec![
                RolloutState::Running,
                RolloutState::Failed,
                RolloutState::Cancelled,
                RolloutState::Degraded,
            ],
            RolloutState::Running => vec![
                RolloutState::Completed,
                RolloutState::Failed,
                RolloutState::Cancelled,
                RolloutState::Degraded,
            ],
            _ => Vec::new(),
        };
        assert(r@ =~= rollout_successors(self));
        r
    }

    pub fn may_transition_to(self, next: RolloutState) -> (r: bool)
        ensures
            r == rollout_may_transition(self, next),
    {
        let successors = self.permitted_successors();
        let mut i: usize = 0;
        while i < successors.len()
            invariant
                i <= successors.len(),
                successors@ == rollout_successors(self),
                forall|k: int| 0 <= k < i ==> successors@[k] != next,
            decreases successors.len() - i,
        {
            if successors[i] == next {
                assert(successors@[i as int] == next);
                return true;
            }
            i = i + 1;
        }
        false
    }

    pub fn transition_to(self, next: RolloutState) -> (r: Result<RolloutState, StateTransitionError>)
        ensures
            match r {
                Ok(s) => rollout_may_transition(self, next) && s == next,
                Err(e) => !rollout_may_transition(self, next) && e.code
                    == AdmissionErrorCode::ExecutionSpecInvalid && e.kind == TransitionKind::Rollout
                    && e.from@ == rollout_state_text(self) && e.to@ == rollout_state_text(next)
                    && static_texts(e.permitted@) == rollout_state_texts(rollout_successors(self)),
            },
    {
        if self.may_transition_to(next) {
            return Ok(next);
        }
        let successors = self.permitted_successors();
        let mut permitted: Vec<&'static str> = Vec::new();
        let mut i: usize = 0;
        while i < successors.len()
            invariant
                i <= successors.len(),
                successors@ == rollout_successors(self),
                static_texts(permitted@) == rollout_state_texts(successors@.subrange(0, i as int)),
            decreases successors.len() - i,
        {
            permitted.push(successors[i].as_str());
            assert(rollout_state_texts(successors@.subrange(0, i + 1)) =~= rollout_state_texts(
                successors@.subrange(0, i as int),
            ).push(rollout_state_text(successors@[i as int])));
            assert(static_texts(permitted@) =~= static_texts(permitted@.drop_last()).push(
                permitted@.last()@,
            ));
            i = i + 1;
        }
        assert(successors@.subrange(0, successors@.len() as int) =~= successors@);
        Err(
            StateTransitionError {
                code: AdmissionErrorCode::ExecutionSpecInvalid,
                kind: TransitionKind::Rollout,
                from: self.as_str(),
                to: next.as_str(),
                permitted,
            },
        )
    }
}

/// Terminal run states have no successor: a late writeback cannot reopen a
/// settled run, and `completed` is entered only from `running`.
pub proof fn law_run_table_is_closed(from: RunState, to: RunState)
    ensures
        run_terminal(from) ==> !run_may_transition(from, to),
        run_may_transition(from, RunState::Completed) ==> from == RunState::Running,
        !run_terminal(from) ==> run_may_transition(from, RunState::Cancelled),
{
    if run_may_transition(from, to) {
        let k = choose|k: int| 0 <= k < run_successors(from).len() && run_successors(from)[k] == to;
    }
    if run_may_transition(from, RunState::Completed) {
        let k = choose|k: int|
            0 <= k < run_successors(from).len() && run_successors(from)[k] == RunState::Completed;
    }
    if !run_terminal(from) {
        assert(run_successors(from).contains(RunState::Cancelled)) by {
            let s = run_successors(from);
            if from is Draft || from is Validating || from is ReadyForApproval
                || from is AwaitingApproval || from is Admitted {
                assert(s[2] == RunState::Cancelled);
            } else {
                assert(s[2] == RunState::Cancelled);
            }
        }
    }
}

/// Terminal rollout states have no successor, a rollout completes only from
/// `running`, and a rollout that starts must first leave `queued`.
pub proof fn law_rollout_table_is_closed(from: RolloutState, to: RolloutState)
    ensures
        rollout_terminal(from) ==> !rollout_may_transition(from, to),
        rollout_may_transition(from, RolloutState::Completed) ==> from == RolloutState::Running,
        rollout_may_transition(from, RolloutState::Running) ==> from == RolloutState::Starting,
        !rollout_terminal(from) ==> rollout_may_transition(from, RolloutState::Cancelled)
            && rollout_may_transition(from, RolloutState::Failed),
{
    if rollout_may_transition(from, to) {
        let k = choose|k: int|
            0 <= k < rollout_successors(from).len() && rollout_successors(from)[k] == to;
    }
    if rollout_may_transition(from, RolloutState::Completed) {
        let k = choose|k: int|
            0 <= k < rollout_successors(from).len() && rollout_successors(from)[k]
                == RolloutState::Completed;
    }
    if rollout_may_transition(from, RolloutState::Running) {
        let k = choose|k: int|
            0 <= k < rollout_successors(from).len() && rollout_successors(from)[k]
                == RolloutState::Running;
    }
    if !rollout_terminal(from) {
        let s = rollout_successors(from);
        if from is Planned || from is Queued {
            assert(s[1] == RolloutState::Cancelled);
            assert(s[2] == RolloutState::Failed);
        } else {
            assert(s[1] == RolloutState::Failed);
            assert(s[2] == RolloutState::Cancelled);
        }
    }
}


// ---------------------------------------------------------------------------
// Per-rollout evidence
// ---------------------------------------------------------------------------

/// A rollout's state as recorded; a record without one reads as "state
/// unknown" rather than defaulting to a plausible state.
#[derive(Clone, Copy, Debug, PartialEq, Eq, Structural)]
pub struct RolloutStateHolder(pub RolloutState);

/// What a finished rollout must be able to show. `None` means the value was
/// never observed: reported as unavailable, never rendered as zero.
#[derive(Debug)]
pub struct RolloutRecord {
    pub state: Option<RolloutStateHolder>,
    /// The container-minted identity.
    pub rollout_id: Option<RolloutId>,
    /// The scored reward, as the bit pattern of its IEEE-754 double.
    pub reward: Option<u64>,
    /// Sealed trace reference.
    pub trace_ref: Option<String>,
    /// Observed spend in micros.
    pub cost_micros: Option<u64>,
    /// Observed token usage.
    pub total_tokens: Option<u64>,
}

/// A record with nothing observed, not even a state.
pub open spec fn empty_record(r: RolloutRecord) -> bool {
    &&& r.state is None
    &&& r.rollout_id is None
    &&& r.reward is None
    &&& r.trace_ref is None
    &&& r.cost_micros is None
    &&& r.total_tokens is None
}

impl Default for RolloutRecord {
    fn default() -> (r: Self)
        ensures
            empty_record(r),
    {
        RolloutRecord {
            state: None,
            rollout_id: None,
            reward: None,
            trace_ref: None,
            cost_micros: None,
            total_tokens: None,
        }
    }
}

/// Why a declared rollout cannot count toward terminal success.
#[derive(Clone, Copy, Debug, PartialEq, Eq, Structural)]
pub enum EvidenceGap {
    StateUnknown,
    StillInFlight,
    RolloutIdMissing,
    RewardMissing,
    TraceMissing,
    UsageMissing,
    CostMissing,
}

pub open spec fn gap_text(g: EvidenceGap) -> Seq<char> {
    match g {
        EvidenceGap::StateUnknown => "state_unknown"@,
        EvidenceGap::StillInFlight => "still_in_flight"@,
        EvidenceGap::RolloutIdMissing => "rollout_id_missing"@,
        EvidenceGap::RewardMissing => "reward_missing"@,
        EvidenceGap::TraceMissing => "trace_missing"@,
        EvidenceGap::UsageMissing => "usage_missing"@,
        EvidenceGap::CostMissing => "cost_missing"@,
    }
}

impl EvidenceGap {
    pub fn as_str(self) -> (r: &'static str)
        ensures
            r@ == gap_text(self),
    {
        match self {
            EvidenceGap::StateUnknown => "state_unknown",
            EvidenceGap::StillInFlight => "still_in_flight",
            EvidenceGap::RolloutIdMissing => "rollout_id_missing",
            EvidenceGap::RewardMissing => "reward_missing",
            EvidenceGap::TraceMissing => "trace_missing",
            EvidenceGap::UsageMissing => "usage_missing",
            EvidenceGap::CostMissing => "cost_missing",
        }
    }
}

/// What the output contract demands of each rollout record.
#[derive(Clone, Copy, Debug, PartialEq, Eq, Structural)]
pub struct EvidenceRequirements {
    pub requires_reward: bool,
    pub requires_trace: bool,
    pub requires_usage: bool,
}

/// Every reason a record falls short, in a stable order. A failed or cancelled
/// rollout is a legitimate terminal record and owes no evidence it never earned.
/// Usage evidence is token and cost reporting: where usage is required, a
/// completed record owes both.
pub open spec fn gaps_of(r: RolloutRecord, q: EvidenceRequirements) -> Seq<EvidenceGap> {
    match r.state {
        None => seq![EvidenceGap::StateUnknown],
        Some(RolloutStateHolder(s)) => if rollout_in_flight(s) {
            seq![EvidenceGap::StillInFlight]
        } else if s != RolloutState::Completed {
            Seq::empty()
        } else {
            (if r.rollout_id is None {
                seq![EvidenceGap::RolloutIdMissing]
            } else {
                Seq::empty()
            }) + (if q.requires_reward && r.reward is None {
                seq![EvidenceGap::RewardMissing]
            } else {
                Seq::empty()
            }) + (if q.requires_trace && r.trace_ref is None {
                seq![EvidenceGap::TraceMissing]
            } else {
                Seq::empty()
            }) + (if q.requires_usage && r.total_tokens is None {
                seq![EvidenceGap::UsageMissing]
            } else {
                Seq::empty()
            }) + (if q.requires_usage && r.cost_micros is None {
                seq![EvidenceGap::CostMissing]
            } else {
                Seq::empty()
            })
        },
    }
}

/// Where a gap stands in a record's list of gaps.
pub open spec fn gap_rank(g: EvidenceGap) -> int {
    match g {
        EvidenceGap::StateUnknown => 0,
        EvidenceGap::StillInFlight => 1,
        EvidenceGap::RolloutIdMissing => 2,
        EvidenceGap::RewardMissing => 3,
        EvidenceGap::TraceMissing => 4,
        EvidenceGap::UsageMissing => 5,
        EvidenceGap::CostMissing => 6,
    }
}

/// Gaps listed once each, in their stable order.
pub open spec fn gaps_in_order(g: Seq<EvidenceGap>) -> bool {
    forall|i: int, j: int| 0 <= i < j < g.len() ==> gap_rank(#[trigger] g[i]) < gap_rank(#[trigger] g[j])
}

proof fn lemma_ordered_concat(a: Seq<EvidenceGap>, b: Seq<EvidenceGap>)
    requires
        gaps_in_order(a),
        gaps_in_order(b),
        forall|i: int, j: int| 0 <= i < a.len() && 0 <= j < b.len() ==> gap_rank(#[trigger] a[i]) < gap_rank(
            #[trigger] b[j],
        ),
    ensures
        gaps_in_order(a + b),
{
    let c = a + b;
    assert forall|i: int, j: int| 0 <= i < j < c.len() implies gap_rank(#[trigger] c[i]) < gap_rank(#[trigger] c[j]) by {
        if j < a.len() {
            assert(c[i] == a[i] && c[j] == a[j]);
        } else if i < a.len() {
            assert(c[i] == a[i] && c[j] == b[j - a.len()]);
        } else {
            assert(c[i] == b[i - a.len()] && c[j] == b[j - a.len()]);
        }
    }
}

proof fn lemma_contains_concat(a: Seq<EvidenceGap>, b: Seq<EvidenceGap>, x: EvidenceGap)
    ensures
        (a + b).contains(x) <==> a.contains(x) || b.contains(x),
{
    if a.contains(x) {
        let i = choose|i: int| 0 <= i < a.len() && a[i] == x;
        assert((a + b)[i] == x);
    }
    if b.contains(x) {
        let j = choose|j: int| 0 <= j < b.len() && b[j] == x;
        assert((a + b)[a.len() + j] == x);
    }
    if (a + b).contains(x) {
        let k = choose|k: int| 0 <= k < (a + b).len() && (a + b)[k] == x;
        if k < a.len() {
            assert(a[k] == x);
        } else {
            assert(b[k - a.len()] == x);
        }
    }
}

/// What a record's gaps say, each on its own: a record with no state has
/// only `StateUnknown`; one still in flight has only `StillInFlight`; a
/// failed or cancelled one owes nothing. A completed one lacks exactly what
/// it is missing, each gap independent of the other fields: its identity
/// when it has none, its reward, trace, tokens or cost when those are
/// required and absent, and never a state gap; each gap is listed once, in
/// the stable order of `gap_rank`.
pub proof fn law_each_gap_names_one_missing_piece(r: RolloutRecord, q: EvidenceRequirements)
    ensures
        r.state is None ==> gaps_of(r, q) == seq![EvidenceGap::StateUnknown],
        r.state matches Some(RolloutStateHolder(s)) && rollout_in_flight(s) ==> gaps_of(r, q)
            == seq![EvidenceGap::StillInFlight],
        r.state matches Some(RolloutStateHolder(s)) && !rollout_in_flight(s) && s
            != RolloutState::Completed ==> gaps_of(r, q).len() == 0,
        r.state == Some(RolloutStateHolder(RolloutState::Completed)) ==> {
            let g = gaps_of(r, q);
            &&& g.contains(EvidenceGap::RolloutIdMissing) <==> r.rollout_id is None
            &&& g.contains(EvidenceGap::RewardMissing) <==> q.requires_reward && r.reward is None
            &&& g.contains(EvidenceGap::TraceMissing) <==> q.requires_trace && r.trace_ref is None
            &&& g.contains(EvidenceGap::UsageMissing) <==> q.requires_usage && r.total_tokens is None
            &&& g.contains(EvidenceGap::CostMissing) <==> q.requires_usage && r.cost_micros is None
            &&& !g.contains(EvidenceGap::StateUnknown)
            &&& !g.contains(EvidenceGap::StillInFlight)
        },
{
    if r.state == Some(RolloutStateHolder(RolloutState::Completed)) {
        let a: Seq<EvidenceGap> = if r.rollout_id is None {
            seq![EvidenceGap::RolloutIdMissing]
        } else {
            Seq::empty()
        };
        let b: Seq<EvidenceGap> = if r.reward is None && q.requires_reward {
            seq![EvidenceGap::RewardMissing]
        } else {
            Seq::empty()
        };
        let c: Seq<EvidenceGap> = if r.trace_ref is None && q.requires_trace {
            seq![EvidenceGap::TraceMissing]
        } else {
            Seq::empty()
        };
        let d: Seq<EvidenceGap> = if r.total_tokens is None && q.requires_usage {
            seq![EvidenceGap::UsageMissing]
        } else {
            Seq::empty()
        };
        let e: Seq<EvidenceGap> = if r.cost_micros is None && q.requires_usage {
            seq![EvidenceGap::CostMissing]
        } else {
            Seq::empty()
        };
        assert(gaps_of(r, q) == a + b + c + d + e);
        assert forall|x: EvidenceGap| #[trigger] gaps_of(r, q).contains(x) <==> (a.contains(x) || b.contains(x)
            || c.contains(x) || d.contains(x) || e.contains(x)) by {
            lemma_contains_concat(a, b, x);
            lemma_contains_concat(a + b, c, x);
            lemma_contains_concat(a + b + c, d, x);
            lemma_contains_concat(a + b + c + d, e, x);
        }
        assert forall|x: EvidenceGap, y: EvidenceGap| #[trigger] seq![y].contains(x) <==> x == y by {
            if x == y {
                assert(seq![y][0] == x);
            }
        }
        assert forall|x: EvidenceGap| !(#[trigger] Seq::<EvidenceGap>::empty().contains(x)) by {}
    }
}

/// A record's gaps are listed once each, in the stable order of `gap_rank`.
pub proof fn law_gaps_are_listed_in_order(r: RolloutRecord, q: EvidenceRequirements)
    ensures
        gaps_in_order(gaps_of(r, q)),
{
    if r.state == Some(RolloutStateHolder(RolloutState::Completed)) {
        let a: Seq<EvidenceGap> = if r.rollout_id is None {
            seq![EvidenceGap::RolloutIdMissing]
        } else {
            Seq::empty()
        };
        let b: Seq<EvidenceGap> = if r.reward is None && q.requires_reward {
            seq![EvidenceGap::RewardMissing]
        } else {
            Seq::empty()
        };
        let c: Seq<EvidenceGap> = if r.trace_ref is None && q.requires_trace {
            seq![EvidenceGap::TraceMissing]
        } else {
            Seq::empty()
        };
        let d: Seq<EvidenceGap> = if r.total_tokens is None && q.requires_usage {
            seq![EvidenceGap::UsageMissing]
        } else {
            Seq::empty()
        };
        let e: Seq<EvidenceGap> = if r.cost_micros is None && q.requires_usage {
            seq![EvidenceGap::CostMissing]
        } else {
            Seq::empty()
        };
        assert(gaps_of(r, q) == a + b + c + d + e);
        let ab = a + b;
        let abc = ab + c;
        let abcd = abc + d;
        assert forall|k: int| 0 <= k < ab.len() implies gap_rank(#[trigger] ab[k]) <= 3 by {
            if k < a.len() {
                assert(ab[k] == a[k]);
            } else {
                assert(ab[k] == b[k - a.len()]);
            }
        }
        lemma_ordered_concat(a, b);
        assert forall|k: int| 0 <= k < abc.len() implies gap_rank(#[trigger] abc[k]) <= 4 by {
            if k < ab.len() {
                assert(abc[k] == ab[k]);
            } else {
                assert(abc[k] == c[k - ab.len()]);
            }
        }
        lemma_ordered_concat(ab, c);
        assert forall|k: int| 0 <= k < abcd.len() implies gap_rank(#[trigger] abcd[k]) <= 5 by {
            if k < abc.len() {
                assert(abcd[k] == abc[k]);
            } else {
                assert(abcd[k] == d[k - abc.len()]);
            }
        }
        lemma_ordered_concat(abc, d);
        lemma_ordered_concat(abcd, e);
    }
}

impl RolloutRecord {
    pub fn evidence_gaps(&self, requirements: EvidenceRequirements) -> (r: Vec<EvidenceGap>)
        ensures
            r@ == gaps_of(*self, requirements),
    {
        let mut gaps: Vec<EvidenceGap> = Vec::new();
        let state = match self.state {
            Some(RolloutStateHolder(s)) => s,
            None => {
                gaps.push(EvidenceGap::StateUnknown);
                assert(gaps@ =~= seq![EvidenceGap::StateUnknown]);
                return gaps;
            },
        };
        if state.is_in_flight() {
            gaps.push(EvidenceGap::StillInFlight);
            assert(gaps@ =~= seq![EvidenceGap::StillInFlight]);
            return gaps;
        }
        if state != RolloutState::Completed {
            assert(gaps@ =~= Seq::<EvidenceGap>::empty());
            return gaps;
        }
        if self.rollout_id.is_none() {
            gaps.push(EvidenceGap::RolloutIdMissing);
        }
        if requirements.requires_reward && self.reward.is_none() {
            gaps.push(EvidenceGap::RewardMissing);
        }
        if requirements.requires_trace && self.trace_ref.is_none() {
            gaps.push(EvidenceGap::TraceMissing);
        }
        if requirements.requires_usage && self.total_tokens.is_none() {
            gaps.push(EvidenceGap::UsageMissing);
        }
        if requirements.requires_usage && self.cost_micros.is_none() {
            gaps.push(EvidenceGap::CostMissing);
        }
        assert(gaps@ =~= gaps_of(*self, requirements));
        gaps
    }
}


// ---------------------------------------------------------------------------
// Run progress
// ---------------------------------------------------------------------------

/// The authoritative per-rollout progress of one run.
///
/// Records are keyed by the rollout's index in the declared plan, the only
/// identity a rollout has before the container mints one, and kept in index
/// order.
#[derive(Debug)]
pub struct RunProgress {
    pub state: RunState,
    pub rollouts: Vec<(u32, RolloutRecord)>,
    /// Whether the credential capability minted for this run has been
    /// confirmed revoked; unconfirmed revocation blocks `completed`.
    pub credential_revocation_confirmed: bool,
}

/// Keys strictly increasing, so each index appears once.
pub open spec fn keys_increasing(s: Seq<(u32, RolloutRecord)>) -> bool {
    forall|i: int, j: int| 0 <= i < j < s.len() ==> #[trigger] s[i].0 < #[trigger] s[j].0
}

/// A record with nothing observed.
pub open spec fn blank_record() -> RolloutRecord {
    RolloutRecord {
        state: None,
        rollout_id: None,
        reward: None,
        trace_ref: None,
        cost_micros: None,
        total_tokens: None,
    }
}

/// A record holding only a state.
pub open spec fn record_in(state: RolloutState) -> RolloutRecord {
    RolloutRecord { state: Some(RolloutStateHolder(state)), ..blank_record() }
}

/// `p` is where `k` sits, or would sit, among the keys of `s`.
pub open spec fn is_slot(s: Seq<(u32, RolloutRecord)>, k: u32, p: int) -> bool {
    &&& 0 <= p <= s.len()
    &&& forall|i: int| 0 <= i < p ==> #[trigger] s[i].0 < k
    &&& p < s.len() ==> s[p].0 >= k
}

pub open spec fn slot(s: Seq<(u32, RolloutRecord)>, k: u32) -> int {
    choose|p: int| is_slot(s, k, p)
}

pub open spec fn holds_key(s: Seq<(u32, RolloutRecord)>, k: u32) -> bool {
    slot(s, k) < s.len() && s[slot(s, k)].0 == k
}

/// The records with a blank record added under `k` if none was there.
pub open spec fn with_slot(s: Seq<(u32, RolloutRecord)>, k: u32) -> Seq<(u32, RolloutRecord)> {
    if holds_key(s, k) {
        s
    } else {
        s.insert(slot(s, k), (k, blank_record()))
    }
}

proof fn lemma_slot_unique(s: Seq<(u32, RolloutRecord)>, k: u32, p: int)
    requires
        keys_increasing(s),
        is_slot(s, k, p),
    ensures
        slot(s, k) == p,
{
    assert(is_slot(s, k, p));
    let q = slot(s, k);
    assert(is_slot(s, k, q));
    if q < p {
        assert(s[q].0 < k);
    } else if p < q {
        assert(s[p].0 < k);
    }
}

impl RunProgress {
    pub open spec fn wf(self) -> bool {
        keys_increasing(self.rollouts@)
    }

    /// Finds `index`, adding a blank record for it if absent; returns its position.
    fn ensure_slot(&mut self, index: u32) -> (p: usize)
        requires
            old(self).wf(),
        ensures
            final(self).wf(),
            final(self).state == old(self).state,
            final(self).credential_revocation_confirmed == old(self).credential_revocation_confirmed,
            final(self).rollouts@ == with_slot(old(self).rollouts@, index),
            p as int == slot(old(self).rollouts@, index),
            p < final(self).rollouts@.len(),
            final(self).rollouts@[p as int].0 == index,
    {
        let mut p: usize = 0;
        while p < self.rollouts.len() && self.rollouts[p].0 < index
            invariant
                p <= self.rollouts.len(),
                forall|i: int| 0 <= i < p ==> #[trigger] self.rollouts@[i].0 < index,
            decreases self.rollouts.len() - p,
        {
            p = p + 1;
        }
        proof {
            lemma_slot_unique(self.rollouts@, index, p as int);
        }
        if p < self.rollouts.len() && self.rollouts[p].0 == index {
            return p;
        }
        let ghost before = self.rollouts@;
        self.rollouts.insert(p, (index, RolloutRecord::default()));
        proof {
            assert forall|i: int, j: int| 0 <= i < j < self.rollouts@.len() implies #[trigger] self.rollouts@[i].0
                < #[trigger] self.rollouts@[j].0 by {
                if j < p {
                } else if i < p && j == p {
                } else if i < p && j > p {
                    assert(before[i].0 < index);
                    assert(before[j - 1].0 >= index);
                } else if i == p {
                    assert(before[j - 1].0 >= index);
                    assert(before[p as int].0 != index);
                    if j - 1 > p {
                        assert(before[p as int].0 < before[j - 1].0);
                    }
                } else {
                    assert(before[i - 1].0 < before[j - 1].0);
                }
            }
            assert(self.rollouts@ =~= before.insert(p as int, (index, blank_record())));
        }
        p
    }

    fn planned_with(declared: usize, state: RolloutState) -> (r: Vec<(u32, RolloutRecord)>)
        requires
            declared <= 0x1_0000_0000,
        ensures
            r@.len() == declared,
            forall|i: int| 0 <= i < declared ==> #[trigger] r@[i] == (i as u32, record_in(state)),
    {
        let mut rollouts: Vec<(u32, RolloutRecord)> = Vec::new();
        let mut i: usize = 0;
        while i < declared
            invariant
                i <= declared,
                declared <= 0x1_0000_0000,
                rollouts@.len() == i,
                forall|k: int| 0 <= k < i ==> #[trigger] rollouts@[k] == (k as u32, record_in(state)),
            decreases declared - i,
        {
            let mut record = RolloutRecord::default();
            record.state = Some(RolloutStateHolder(state));
            rollouts.push((i as u32, record));
            i = i + 1;
        }
        rollouts
    }

    /// Plans `declared` rollouts, all `Planned`: nothing has been queued yet.
    pub fn plan(declared: usize) -> (r: Self)
        requires
            declared <= 0x1_0000_0000,
        ensures
            r.wf(),
            r.state == RunState::Draft,
            !r.credential_revocation_confirmed,
            r.rollouts@.len() == declared,
            forall|i: int|
                0 <= i < declared ==> #[trigger] r.rollouts@[i] == (
                    i as u32,
                    record_in(RolloutState::Planned),
                ),
    {
        let rollouts = Self::planned_with(declared, RolloutState::Planned);
        let r = RunProgress { state: RunState::Draft, rollouts, credential_revocation_confirmed: false };
        assert forall|i: int, j: int| 0 <= i < j < r.rollouts@.len() implies #[trigger] r.rollouts@[i].0
            < #[trigger] r.rollouts@[j].0 by {
            assert(r.rollouts@[i].0 == i as u32);
            assert(r.rollouts@[j].0 == j as u32);
        }
        r
    }

    /// Execution progress once admission has been consumed: the run starts at
    /// `Starting` with every rollout `Queued`.
    pub fn for_admitted_execution(declared: usize) -> (r: Self)
        requires
            declared <= 0x1_0000_0000,
        ensures
            r.wf(),
            r.state == RunState::Starting,
            !r.credential_revocation_confirmed,
            r.rollouts@.len() == declared,
            forall|i: int|
                0 <= i < declared ==> #[trigger] r.rollouts@[i] == (
                    i as u32,
                    record_in(RolloutState::Queued),
                ),
    {
        let rollouts = Self::planned_with(declared, RolloutState::Queued);
        let r = RunProgress {
            state: RunState::Starting,
            rollouts,
            credential_revocation_confirmed: false,
        };
        assert forall|i: int, j: int| 0 <= i < j < r.rollouts@.len() implies #[trigger] r.rollouts@[i].0
            < #[trigger] r.rollouts@[j].0 by {
            assert(r.rollouts@[i].0 == i as u32);
            assert(r.rollouts@[j].0 == j as u32);
        }
        r
    }

    pub fn declared_rollouts(&self) -> (r: usize)
        ensures
            r == self.rollouts@.len(),
    {
        self.rollouts.len()
    }

    /// Advances the run itself. `Completed` is never entered here: only
    /// `settle`, which checks the evidence first, completes a run.
    pub fn transition_run(&mut self, next: RunState) -> (r: Result<(), StateTransitionError>)
        ensures
            final(self).rollouts@ == old(self).rollouts@,
            final(self).credential_revocation_confirmed == old(self).credential_revocation_confirmed,
            next == RunState::Completed ==> r is Err && final(self).state == old(self).state,
            match r {
                Ok(_) => run_step_permitted(old(self).state, next)
                    && final(self).state == next,
                Err(e) => !run_step_permitted(old(self).state, next) && final(self).state == old(
                    self,
                ).state && e.kind == TransitionKind::Run && e.from@ == run_state_text(old(self).state)
                    && e.to@ == run_state_text(next) && static_texts(e.permitted@)
                    == run_state_texts(run_step_successors(old(self).state)),
            },
    {
        let current = self.state;
        proof {
            lemma_only_running_completes(current);
        }
        if current == RunState::Running && !(next == RunState::Failed || next == RunState::Cancelled || next == RunState::Degraded) {
            let permitted = vec![RunState::Failed.as_str(), RunState::Cancelled.as_str(), RunState::Degraded.as_str()];
            assert(static_texts(permitted@) =~= run_state_texts(run_step_successors(current)));
            Err(
                StateTransitionError {
                    code: AdmissionErrorCode::ExecutionSpecInvalid,
                    kind: TransitionKind::Run,
                    from: current.as_str(),
                    to: next.as_str(),
                    permitted,
                },
            )
        } else {
            match current.transition_to(next) {
                Ok(s) => {
                    self.state = s;
                    Ok(())
                },
                Err(e) => Err(e),
            }
        }
    }
}

/// A record with observed evidence attached: a field the update leaves absent
/// keeps its value, so nothing observed is ever erased or invented.
pub open spec fn merged_record(old: RolloutRecord, update: RolloutRecord) -> RolloutRecord {
    RolloutRecord {
        state: old.state,
        rollout_id: if update.rollout_id is Some {
            update.rollout_id
        } else {
            old.rollout_id
        },
        reward: if update.reward is Some {
            update.reward
        } else {
            old.reward
        },
        trace_ref: if update.trace_ref is Some {
            update.trace_ref
        } else {
            old.trace_ref
        },
        cost_micros: if update.cost_micros is Some {
            update.cost_micros
        } else {
            old.cost_micros
        },
        total_tokens: if update.total_tokens is Some {
            update.total_tokens
        } else {
            old.total_tokens
        },
    }
}

/// The record under `index` once a transition to `next` has been attempted.
pub open spec fn rollout_transition_outcome(s: Seq<(u32, RolloutRecord)>, index: u32, next: RolloutState) -> (
    Seq<(u32, RolloutRecord)>,
    bool,
) {
    let s1 = with_slot(s, index);
    let p = slot(s, index);
    let record = s1[p].1;
    match record.state {
        Some(RolloutStateHolder(current)) => if rollout_may_transition(current, next) {
            (
                s1.update(
                    p,
                    (index, RolloutRecord { state: Some(RolloutStateHolder(next)), ..record }),
                ),
                true,
            )
        } else {
            (s1, false)
        },
        None => (s1, false),
    }
}

impl RunProgress {
    /// Advances one rollout. A record with no state cannot be advanced from a
    /// guess; an undeclared index gains a blank record, as a map entry would.
    pub fn transition_rollout(&mut self, index: u32, next: RolloutState) -> (r: Result<
        (),
        StateTransitionError,
    >)
        requires
            old(self).wf(),
        ensures
            final(self).wf(),
            final(self).state == old(self).state,
            final(self).credential_revocation_confirmed == old(self).credential_revocation_confirmed,
            final(self).rollouts@ == rollout_transition_outcome(old(self).rollouts@, index, next).0,
            r is Ok == rollout_transition_outcome(old(self).rollouts@, index, next).1,
            r matches Err(e) ==> e.kind == TransitionKind::Rollout && e.to@ == rollout_state_text(next)
                && match with_slot(old(self).rollouts@, index)[slot(old(self).rollouts@, index)].1.state {
                Some(RolloutStateHolder(current)) => e.from@ == rollout_state_text(current)
                    && static_texts(e.permitted@) == rollout_state_texts(rollout_successors(current)),
                None => e.from@ == "unknown"@ && e.permitted@.len() == 0,
            },
    {
        let p = self.ensure_slot(index);
        let ghost s1 = self.rollouts@;
        let (key, mut record) = self.rollouts.remove(p);
        let current = match record.state {
            Some(RolloutStateHolder(state)) => state,
            None => {
                self.rollouts.insert(p, (key, record));
                assert(self.rollouts@ =~= s1);
                return Err(
                    StateTransitionError {
                        code: AdmissionErrorCode::ExecutionSpecInvalid,
                        kind: TransitionKind::Rollout,
                        from: "unknown",
                        to: next.as_str(),
                        permitted: Vec::new(),
                    },
                );
            },
        };
        match current.transition_to(next) {
            Ok(state) => {
                record.state = Some(RolloutStateHolder(state));
                self.rollouts.insert(p, (key, record));
                proof {
                    let rec = s1[p as int].1;
                    assert(self.rollouts@ =~= s1.update(
                        p as int,
                        (index, RolloutRecord { state: Some(RolloutStateHolder(next)), ..rec }),
                    ));
                    assert forall|i: int, j: int| 0 <= i < j < self.rollouts@.len() implies #[trigger] self.rollouts@[i].0
                        < #[trigger] self.rollouts@[j].0 by {
                        assert(self.rollouts@[i].0 == s1[i].0);
                        assert(self.rollouts@[j].0 == s1[j].0);
                    }
                }
                Ok(())
            },
            Err(e) => {
                self.rollouts.insert(p, (key, record));
                assert(self.rollouts@ =~= s1);
                Err(e)
            },
        }
    }

    /// Attaches observed evidence to a rollout. Never invents a value: a field
    /// the update leaves absent stays as it was. The update's state is ignored.
    pub fn record_evidence(&mut self, index: u32, update: RolloutRecord)
        requires
            old(self).wf(),
        ensures
            final(self).wf(),
            final(self).state == old(self).state,
            final(self).credential_revocation_confirmed == old(self).credential_revocation_confirmed,
            final(self).rollouts@ == with_slot(old(self).rollouts@, index).update(
                slot(old(self).rollouts@, index),
                (
                    index,
                    merged_record(
                        with_slot(old(self).rollouts@, index)[slot(old(self).rollouts@, index)].1,
                        update,
                    ),
                ),
            ),
    {
        let p = self.ensure_slot(index);
        let ghost s1 = self.rollouts@;
        let (key, mut record) = self.rollouts.remove(p);
        let ghost before = record;
        if update.rollout_id.is_some() {
            record.rollout_id = update.rollout_id;
        }
        if update.reward.is_some() {
            record.reward = update.reward;
        }
        if update.trace_ref.is_some() {
            record.trace_ref = update.trace_ref;
        }
        if update.cost_micros.is_some() {
            record.cost_micros = update.cost_micros;
        }
        if update.total_tokens.is_some() {
            record.total_tokens = update.total_tokens;
        }
        assert(record == merged_record(before, update));
        self.rollouts.insert(p, (key, record));
        proof {
            assert(self.rollouts@ =~= s1.update(p as int, (index, merged_record(before, update))));
            assert forall|i: int, j: int| 0 <= i < j < self.rollouts@.len() implies #[trigger] self.rollouts@[i].0
                < #[trigger] self.rollouts@[j].0 by {
                assert(self.rollouts@[i].0 == s1[i].0);
                assert(self.rollouts@[j].0 == s1[j].0);
            }
        }
    }
}


// ---------------------------------------------------------------------------
// Counting and settling
// ---------------------------------------------------------------------------

pub open spec fn in_flight_record(r: RolloutRecord) -> bool {
    r.state matches Some(RolloutStateHolder(x)) && rollout_in_flight(x)
}

pub open spec fn completed_record(r: RolloutRecord) -> bool {
    r.state == Some(RolloutStateHolder(RolloutState::Completed))
}

/// How many records satisfy `f`.
pub open spec fn count_records(s: Seq<(u32, RolloutRecord)>, f: spec_fn(RolloutRecord) -> bool) -> nat
    decreases s.len(),
{
    if s.len() == 0 {
        0
    } else {
        count_records(s.drop_last(), f) + if f(s.last().1) {
            1nat
        } else {
            0nat
        }
    }
}

pub open spec fn in_flight_count(s: Seq<(u32, RolloutRecord)>) -> nat {
    count_records(s, |r: RolloutRecord| in_flight_record(r))
}

pub open spec fn completed_count(s: Seq<(u32, RolloutRecord)>) -> nat {
    count_records(s, |r: RolloutRecord| completed_record(r))
}

/// The records with evidence gaps, with those gaps, in index order.
pub open spec fn gap_entries(s: Seq<(u32, RolloutRecord)>, q: EvidenceRequirements) -> Seq<
    (u32, Seq<EvidenceGap>),
>
    decreases s.len(),
{
    if s.len() == 0 {
        Seq::empty()
    } else {
        let before = gap_entries(s.drop_last(), q);
        let g = gaps_of(s.last().1, q);
        if g.len() > 0 {
            before.push((s.last().0, g))
        } else {
            before
        }
    }
}

proof fn lemma_count_bounds(s: Seq<(u32, RolloutRecord)>, f: spec_fn(RolloutRecord) -> bool)
    ensures
        count_records(s, f) <= s.len(),
        count_records(s, f) == s.len() <==> forall|i: int| 0 <= i < s.len() ==> f(#[trigger] s[i].1),
        count_records(s, f) == 0 <==> forall|i: int| 0 <= i < s.len() ==> !f(#[trigger] s[i].1),
    decreases s.len(),
{
    if s.len() > 0 {
        let t = s.drop_last();
        lemma_count_bounds(t, f);
        assert forall|i: int| 0 <= i < t.len() implies #[trigger] t[i].1 == s[i].1 by {}
        if count_records(s, f) == s.len() {
            assert forall|i: int| 0 <= i < s.len() implies f(#[trigger] s[i].1) by {
                if i < t.len() {
                    assert(t[i].1 == s[i].1);
                }
            }
        }
        if forall|i: int| 0 <= i < s.len() ==> f(#[trigger] s[i].1) {
            assert(forall|i: int| 0 <= i < t.len() ==> f(#[trigger] t[i].1));
            assert(f(s[s.len() - 1].1));
        }
        if count_records(s, f) == 0 {
            assert forall|i: int| 0 <= i < s.len() implies !f(#[trigger] s[i].1) by {
                if i < t.len() {
                    assert(t[i].1 == s[i].1);
                }
            }
        }
        if forall|i: int| 0 <= i < s.len() ==> !f(#[trigger] s[i].1) {
            assert(forall|i: int| 0 <= i < t.len() ==> !f(#[trigger] t[i].1));
            assert(!f(s[s.len() - 1].1));
        }
    }
}

proof fn lemma_gap_entries_empty(s: Seq<(u32, RolloutRecord)>, q: EvidenceRequirements)
    ensures
        gap_entries(s, q).len() == 0 <==> forall|i: int|
            0 <= i < s.len() ==> gaps_of(#[trigger] s[i].1, q).len() == 0,
    decreases s.len(),
{
    if s.len() > 0 {
        let t = s.drop_last();
        lemma_gap_entries_empty(t, q);
        assert forall|i: int| 0 <= i < t.len() implies #[trigger] t[i].1 == s[i].1 by {}
        if forall|i: int| 0 <= i < s.len() ==> gaps_of(#[trigger] s[i].1, q).len() == 0 {
            assert(forall|i: int| 0 <= i < t.len() ==> gaps_of(#[trigger] t[i].1, q).len() == 0);
            assert(gaps_of(s[s.len() - 1].1, q).len() == 0);
        }
        if gap_entries(s, q).len() == 0 {
            assert forall|i: int| 0 <= i < s.len() implies gaps_of(#[trigger] s[i].1, q).len() == 0 by {
                if i < t.len() {
                    assert(t[i].1 == s[i].1);
                }
            }
        }
    }
}

/// The state a run with no rollout in flight settles into: `Completed` only
/// when every rollout completed with all required evidence and revocation is
/// confirmed; `Failed` when nothing completed; otherwise `Degraded`, because
/// the compute did happen and reporting a clean failure would hide the spend.
pub open spec fn settle_target(p: RunProgress, q: EvidenceRequirements) -> RunState {
    let s = p.rollouts@;
    if gap_entries(s, q).len() == 0 && completed_count(s) == s.len()
        && p.credential_revocation_confirmed {
        RunState::Completed
    } else if completed_count(s) == 0 {
        RunState::Failed
    } else {
        RunState::Degraded
    }
}

/// Why a run could not settle.
#[derive(Debug)]
pub enum SettlementRefusal {
    NoRolloutsDeclared,
    RolloutsStillInFlight(usize),
    InvalidTransition(Box<StateTransitionError>),
}

impl RunProgress {
    /// Rollouts that are queued, starting, or running.
    pub fn in_flight(&self) -> (r: usize)
        ensures
            r == in_flight_count(self.rollouts@),
    {
        let mut n: usize = 0;
        let mut i: usize = 0;
        while i < self.rollouts.len()
            invariant
                i <= self.rollouts.len(),
                n == in_flight_count(self.rollouts@.subrange(0, i as int)),
                n <= i,
            decreases self.rollouts.len() - i,
        {
            let ghost t = self.rollouts@.subrange(0, i + 1);
            assert(t.drop_last() =~= self.rollouts@.subrange(0, i as int));
            let flying = match self.rollouts[i].1.state {
                Some(RolloutStateHolder(x)) => x.is_in_flight(),
                None => false,
            };
            if flying {
                n = n + 1;
            }
            i = i + 1;
        }
        assert(self.rollouts@.subrange(0, self.rollouts@.len() as int) =~= self.rollouts@);
        n
    }

    /// Rollouts that completed.
    pub fn completed(&self) -> (r: usize)
        ensures
            r == completed_count(self.rollouts@),
    {
        let mut n: usize = 0;
        let mut i: usize = 0;
        while i < self.rollouts.len()
            invariant
                i <= self.rollouts.len(),
                n == completed_count(self.rollouts@.subrange(0, i as int)),
                n <= i,
            decreases self.rollouts.len() - i,
        {
            let ghost t = self.rollouts@.subrange(0, i + 1);
            assert(t.drop_last() =~= self.rollouts@.subrange(0, i as int));
            let done = match self.rollouts[i].1.state {
                Some(RolloutStateHolder(x)) => x == RolloutState::Completed,
                None => false,
            };
            if done {
                n = n + 1;
            }
            i = i + 1;
        }
        assert(self.rollouts@.subrange(0, self.rollouts@.len() as int) =~= self.rollouts@);
        n
    }

    /// Every gap between this run and a truthful `completed`, by rollout index.
    pub fn completion_gaps(&self, requirements: EvidenceRequirements) -> (r: Vec<(u32, Vec<EvidenceGap>)>)
        ensures
            r@.map_values(|e: (u32, Vec<EvidenceGap>)| (e.0, e.1@)) == gap_entries(
                self.rollouts@,
                requirements,
            ),
    {
        let mut out: Vec<(u32, Vec<EvidenceGap>)> = Vec::new();
        let mut i: usize = 0;
        while i < self.rollouts.len()
            invariant
                i <= self.rollouts.len(),
                out@.map_values(|e: (u32, Vec<EvidenceGap>)| (e.0, e.1@)) == gap_entries(
                    self.rollouts@.subrange(0, i as int),
                    requirements,
                ),
            decreases self.rollouts.len() - i,
        {
            let ghost t = self.rollouts@.subrange(0, i + 1);
            assert(t.drop_last() =~= self.rollouts@.subrange(0, i as int));
            let found = self.rollouts[i].1.evidence_gaps(requirements);
            if found.len() > 0 {
                let ghost before = out@;
                out.push((self.rollouts[i].0, found));
                assert(out@.map_values(|e: (u32, Vec<EvidenceGap>)| (e.0, e.1@)) =~= before.map_values(
                    |e: (u32, Vec<EvidenceGap>)| (e.0, e.1@),
                ).push((self.rollouts@[i as int].0, gaps_of(self.rollouts@[i as int].1, requirements))));
            }
            i = i + 1;
        }
        assert(self.rollouts@.subrange(0, self.rollouts@.len() as int) =~= self.rollouts@);
        out
    }

    /// Settles the run into its true terminal state. A run with no declared
    /// rollouts, or with any still in flight, is not settleable at all.
    pub fn settle(&mut self, requirements: EvidenceRequirements) -> (r: Result<RunState, SettlementRefusal>)
        ensures
            final(self).rollouts@ == old(self).rollouts@,
            final(self).credential_revocation_confirmed == old(self).credential_revocation_confirmed,
            old(self).rollouts@.len() == 0 ==> (r matches Err(SettlementRefusal::NoRolloutsDeclared)
                && final(self).state == old(self).state),
            old(self).rollouts@.len() > 0 && in_flight_count(old(self).rollouts@) > 0 ==> (r matches Err(
                SettlementRefusal::RolloutsStillInFlight(n),
            ) && n == in_flight_count(old(self).rollouts@) && final(self).state == old(self).state),
            old(self).rollouts@.len() > 0 && in_flight_count(old(self).rollouts@) == 0 ==> {
                let target = settle_target(*old(self), requirements);
                if run_may_transition(old(self).state, target) {
                    r == Ok::<RunState, SettlementRefusal>(target) && final(self).state == target
                } else {
                    (r matches Err(SettlementRefusal::InvalidTransition(e)) && e.kind
                        == TransitionKind::Run && e.from@ == run_state_text(old(self).state) && e.to@
                        == run_state_text(target)) && final(self).state == old(self).state
                }
            },
    {
        if self.rollouts.len() == 0 {
            return Err(SettlementRefusal::NoRolloutsDeclared);
        }
        let in_flight = self.in_flight();
        if in_flight > 0 {
            return Err(SettlementRefusal::RolloutsStillInFlight(in_flight));
        }
        let gaps = self.completion_gaps(requirements);
        let completed = self.completed();
        proof {
            assert(gaps@.len() == gap_entries(self.rollouts@, requirements).len());
        }
        let target = if gaps.len() == 0 && completed == self.rollouts.len()
            && self.credential_revocation_confirmed {
            RunState::Completed
        } else if completed == 0 {
            RunState::Failed
        } else {
            RunState::Degraded
        };
        match self.state.transition_to(target) {
            Ok(state) => {
                self.state = state;
                Ok(state)
            },
            Err(e) => Err(SettlementRefusal::InvalidTransition(Box::new(e))),
        }
    }
}

/// `Completed` is a claim about evidence: a run settles there only when every
/// declared rollout completed with all required evidence and the credential
/// revocation is confirmed; it settles `Failed` exactly when no rollout
/// completed; any other run with rollouts settles `Degraded`.
pub proof fn law_settlement_is_truthful(p: RunProgress, q: EvidenceRequirements)
    requires
        p.rollouts@.len() > 0,
    ensures
        settle_target(p, q) == RunState::Completed <==> (p.credential_revocation_confirmed && forall|i: int|
            0 <= i < p.rollouts@.len() ==> completed_record(#[trigger] p.rollouts@[i].1) && gaps_of(
                p.rollouts@[i].1,
                q,
            ).len() == 0),
        settle_target(p, q) == RunState::Failed <==> forall|i: int|
            0 <= i < p.rollouts@.len() ==> !completed_record(#[trigger] p.rollouts@[i].1),
        settle_target(p, q) == RunState::Degraded <==> (exists|i: int|
            0 <= i < p.rollouts@.len() && completed_record(#[trigger] p.rollouts@[i].1)) && settle_target(p, q)
            != RunState::Completed,
{
    let s = p.rollouts@;
    lemma_count_bounds(s, |r: RolloutRecord| completed_record(r));
    lemma_gap_entries_empty(s, q);
    assert(s[0].1 == s[0].1);
}


/// A record after a pre-dispatch abort: a known, unfinished state is
/// cancelled; a terminal or unknown one is left alone.
pub open spec fn aborted_record(r: RolloutRecord) -> RolloutRecord {
    match r.state {
        Some(RolloutStateHolder(x)) => if !rollout_terminal(x) {
            RolloutRecord { state: Some(RolloutStateHolder(RolloutState::Cancelled)), ..r }
        } else {
            r
        },
        None => r,
    }
}

proof fn lemma_slot_at(s: Seq<(u32, RolloutRecord)>, i: int)
    requires
        keys_increasing(s),
        0 <= i < s.len(),
    ensures
        slot(s, s[i].0) == i,
        holds_key(s, s[i].0),
        with_slot(s, s[i].0) == s,
{
    assert(is_slot(s, s[i].0, i));
    lemma_slot_unique(s, s[i].0, i);
}

impl RunProgress {
    /// A pre-dispatch or worker abort: every unfinished rollout becomes
    /// terminal before the run does, so a failed run keeps no queued rows.
    pub fn fail_pre_dispatch(&mut self) -> (r: Result<(), StateTransitionError>)
        requires
            old(self).wf(),
        ensures
            r is Ok,
            final(self).wf(),
            final(self).credential_revocation_confirmed == old(self).credential_revocation_confirmed,
            final(self).rollouts@.len() == old(self).rollouts@.len(),
            forall|i: int|
                0 <= i < old(self).rollouts@.len() ==> #[trigger] final(self).rollouts@[i] == (
                    old(self).rollouts@[i].0,
                    aborted_record(old(self).rollouts@[i].1),
                ),
            final(self).state == if run_terminal(old(self).state) {
                old(self).state
            } else {
                RunState::Failed
            },
    {
        let ghost start = self.rollouts@;
        let mut i: usize = 0;
        while i < self.rollouts.len()
            invariant
                self.wf(),
                self.state == old(self).state,
                self.credential_revocation_confirmed == old(self).credential_revocation_confirmed,
                start == old(self).rollouts@,
                self.rollouts@.len() == start.len(),
                i <= start.len(),
                forall|k: int|
                    0 <= k < i ==> #[trigger] self.rollouts@[k] == (start[k].0, aborted_record(start[k].1)),
                forall|k: int| i <= k < start.len() ==> #[trigger] self.rollouts@[k] == start[k],
            decreases start.len() - i,
        {
            let key = self.rollouts[i].0;
            let state = self.rollouts[i].1.state;
            match state {
                Some(RolloutStateHolder(current)) => {
                    if !current.is_terminal() {
                        let next = if current.may_transition_to(RolloutState::Cancelled) {
                            RolloutState::Cancelled
                        } else {
                            RolloutState::Failed
                        };
                        proof {
                            law_rollout_table_is_closed(current, RolloutState::Cancelled);
                            lemma_slot_at(self.rollouts@, i as int);
                        }
                        let ghost before = self.rollouts@;
                        let outcome = self.transition_rollout(key, next);
                        proof {
                            assert(outcome is Ok);
                            assert(self.rollouts@ =~= before.update(
                                i as int,
                                (key, aborted_record(start[i as int].1)),
                            ));
                        }
                    }
                },
                None => {},
            }
            i = i + 1;
        }
        if !self.state.is_terminal() {
            proof {
                law_run_table_is_closed(self.state, RunState::Failed);
                assert(run_successors(self.state).contains(RunState::Failed)) by {
                    let s = run_successors(self.state);
                    if self.state is Running {
                        assert(s[1] == RunState::Failed);
                    } else {
                        assert(s[1] == RunState::Failed);
                    }
                }
            }
            let outcome = self.transition_run(RunState::Failed);
            assert(outcome is Ok);
        }
        Ok(())
    }
}

/// After a pre-dispatch abort the run is terminal, and so is every rollout
/// whose state is known.
pub proof fn law_abort_leaves_nothing_in_flight(before: RunProgress, after: RunProgress)
    requires
        after.rollouts@.len() == before.rollouts@.len(),
        forall|i: int|
            0 <= i < before.rollouts@.len() ==> #[trigger] after.rollouts@[i] == (
                before.rollouts@[i].0,
                aborted_record(before.rollouts@[i].1),
            ),
        after.state == if run_terminal(before.state) {
            before.state
        } else {
            RunState::Failed
        },
    ensures
        run_terminal(after.state),
        forall|i: int|
            0 <= i < after.rollouts@.len() ==> (#[trigger] after.rollouts@[i].1.state matches Some(
                RolloutStateHolder(x),
            ) ==> rollout_terminal(x)),
        in_flight_count(after.rollouts@) == 0,
{
    let s = after.rollouts@;
    assert forall|i: int| 0 <= i < s.len() implies !in_flight_record(#[trigger] s[i].1) by {
        assert(s[i] == (before.rollouts@[i].0, aborted_record(before.rollouts@[i].1)));
    }
    lemma_count_bounds(s, |r: RolloutRecord| in_flight_record(r));
}


// ---------------------------------------------------------------------------
// Reconciliation and projection
// ---------------------------------------------------------------------------

/// A record whose rollout has not finished, or whose state is unknown.
pub open spec fn unfinished_record(r: RolloutRecord) -> bool {
    match r.state {
        Some(RolloutStateHolder(x)) => !rollout_terminal(x),
        None => true,
    }
}

/// The contradictions a run's records show: a terminal run still holding
/// unfinished rollouts, and a run with no rollout plan.
pub open spec fn reconciliation_messages(p: RunProgress) -> Seq<Seq<char>> {
    let s = p.rollouts@;
    let n = count_records(s, |r: RolloutRecord| unfinished_record(r));
    (if run_terminal(p.state) && n > 0 {
        seq![
            "This run is "@ + run_state_text(p.state) + ", but "@ + decimal(n) + " "@ + (if n == 1 {
                "rollout is"@
            } else {
                "rollouts are"@
            }) + " still queued or running."@,
        ]
    } else {
        Seq::empty()
    }) + (if s.len() == 0 {
        seq!["This run has no rollout plan."@]
    } else {
        Seq::empty()
    })
}

/// The records whose state is `target` (`None`: unknown).
pub open spec fn with_state(r: RolloutRecord, target: Option<RolloutState>) -> bool {
    match target {
        Some(t) => r.state == Some(RolloutStateHolder(t)),
        None => r.state is None,
    }
}

impl RunProgress {
    fn count_where(&self, target: Option<RolloutState>, unfinished: bool) -> (r: usize)
        ensures
            r == if unfinished {
                count_records(self.rollouts@, |x: RolloutRecord| unfinished_record(x))
            } else {
                count_records(self.rollouts@, |x: RolloutRecord| with_state(x, target))
            },
    {
        let mut n: usize = 0;
        let mut i: usize = 0;
        while i < self.rollouts.len()
            invariant
                i <= self.rollouts.len(),
                n <= i,
                n == if unfinished {
                    count_records(self.rollouts@.subrange(0, i as int), |x: RolloutRecord| unfinished_record(x))
                } else {
                    count_records(
                        self.rollouts@.subrange(0, i as int),
                        |x: RolloutRecord| with_state(x, target),
                    )
                },
            decreases self.rollouts.len() - i,
        {
            let ghost t = self.rollouts@.subrange(0, i + 1);
            assert(t.drop_last() =~= self.rollouts@.subrange(0, i as int));
            let state = self.rollouts[i].1.state;
            let hit = if unfinished {
                match state {
                    Some(RolloutStateHolder(x)) => !x.is_terminal(),
                    None => true,
                }
            } else {
                match (state, target) {
                    (Some(RolloutStateHolder(x)), Some(y)) => x == y,
                    (None, None) => true,
                    _ => false,
                }
            };
            if hit {
                n = n + 1;
            }
            i = i + 1;
        }
        assert(self.rollouts@.subrange(0, self.rollouts@.len() as int) =~= self.rollouts@);
        n
    }

    /// The contradictions this run's records show, as messages.
    pub fn reconciliation_errors(&self) -> (r: Vec<String>)
        ensures
            r@.map_values(|m: String| m@) == reconciliation_messages(*self),
    {
        let mut errors: Vec<String> = Vec::new();
        let nonterminal = self.count_where(None, true);
        proof {
            lemma_count_bounds(self.rollouts@, |r: RolloutRecord| unfinished_record(r));
        }
        if self.state.is_terminal() && nonterminal > 0 {
            let count = u64_to_string(nonterminal as u64);
            let noun = if nonterminal == 1 {
                "rollout is"
            } else {
                "rollouts are"
            };
            let head = concat3("This run is ", self.state.as_str(), ", but ");
            let head = concat3(head.as_str(), count.as_str(), " ");
            let message = concat3(head.as_str(), noun, " still queued or running.");
            errors.push(message);
        }
        if self.rollouts.len() == 0 {
            errors.push(String::from_str("This run has no rollout plan."));
        }
        assert(errors@.map_values(|m: String| m@) =~= reconciliation_messages(*self));
        errors
    }
}


pub open spec fn count_label(s: Seq<(u32, RolloutRecord)>, target: Option<RolloutState>) -> nat {
    count_records(s, |x: RolloutRecord| with_state(x, target))
}

pub open spec fn label_entry(s: Seq<(u32, RolloutRecord)>, label: Seq<char>, target: Option<RolloutState>) -> Seq<
    (Seq<char>, JsonView),
> {
    if count_label(s, target) > 0 {
        seq![(label, count_view(count_label(s, target) as u64))]
    } else {
        Seq::empty()
    }
}

/// Rollouts per state name, in name order, for the states present.
pub open spec fn state_count_entries(s: Seq<(u32, RolloutRecord)>) -> Seq<(Seq<char>, JsonView)> {
    label_entry(s, "cancelled"@, Some(RolloutState::Cancelled)) + label_entry(
        s,
        "completed"@,
        Some(RolloutState::Completed),
    ) + label_entry(s, "degraded"@, Some(RolloutState::Degraded)) + label_entry(
        s,
        "failed"@,
        Some(RolloutState::Failed),
    ) + label_entry(s, "planned"@, Some(RolloutState::Planned)) + label_entry(
        s,
        "queued"@,
        Some(RolloutState::Queued),
    ) + label_entry(s, "running"@, Some(RolloutState::Running)) + label_entry(
        s,
        "starting"@,
        Some(RolloutState::Starting),
    ) + label_entry(s, "unknown"@, None)
}

pub open spec fn known_terminal(r: RolloutRecord) -> bool {
    r.state matches Some(RolloutStateHolder(x)) && rollout_terminal(x)
}

/// The sum of one observed quantity over the records (`false`: cost, `true`: tokens).
pub open spec fn observed_sum(s: Seq<(u32, RolloutRecord)>, tokens: bool) -> nat
    decreases s.len(),
{
    if s.len() == 0 {
        0
    } else {
        let r = s.last().1;
        let value = if tokens {
            r.total_tokens
        } else {
            r.cost_micros
        };
        observed_sum(s.drop_last(), tokens) + match value {
            Some(v) => v as nat,
            None => 0nat,
        }
    }
}

/// An aggregate, reported only when every rollout that should contribute did:
/// every record terminal and carrying the value. A partial sum is never a total.
pub open spec fn observed_total(s: Seq<(u32, RolloutRecord)>, tokens: bool) -> Option<nat> {
    if forall|i: int|
        0 <= i < s.len() ==> known_terminal(#[trigger] s[i].1) && (if tokens {
            s[i].1.total_tokens is Some
        } else {
            s[i].1.cost_micros is Some
        }) {
        Some(observed_sum(s, tokens))
    } else {
        None
    }
}

pub open spec fn total_json(t: Option<nat>) -> JsonView {
    match t {
        Some(n) => count_view(n as u64),
        None => JsonView::Null,
    }
}

pub open spec fn gaps_json(entries: Seq<(u32, Seq<EvidenceGap>)>) -> JsonView {
    JsonView::Object(
        entries.map_values(
            |e: (u32, Seq<EvidenceGap>)|
                (decimal(e.0 as nat), JsonView::Array(e.1.map_values(|g: EvidenceGap| text_view(gap_text(g))))),
        ),
    )
}

/// A truthful projection for display: counts per state, and `null` for every
/// aggregate that is not yet knowable rather than `0`.
pub open spec fn projection(p: RunProgress, q: EvidenceRequirements) -> JsonView {
    let s = p.rollouts@;
    JsonView::Object(
        seq![
            ("state"@, text_view(run_state_text(p.state))),
            ("declaredRollouts"@, count_view(s.len() as u64)),
            ("rolloutStateCounts"@, JsonView::Object(state_count_entries(s))),
            ("inFlight"@, count_view(in_flight_count(s) as u64)),
            ("credentialRevocationConfirmed"@, JsonView::Bool(p.credential_revocation_confirmed)),
            ("totalCostMicros"@, total_json(observed_total(s, false))),
            ("totalTokens"@, total_json(observed_total(s, true))),
            ("completionGaps"@, gaps_json(gap_entries(s, q))),
            ("reconciliationErrors"@, JsonView::Array(
                reconciliation_messages(p).map_values(|m: Seq<char>| text_view(m)),
            )),
        ],
    )
}

proof fn lemma_sum_prefix(s: Seq<(u32, RolloutRecord)>, tokens: bool, i: int)
    requires
        0 <= i <= s.len(),
    ensures
        observed_sum(s.subrange(0, i), tokens) <= observed_sum(s, tokens),
    decreases s.len() - i,
{
    if i < s.len() {
        lemma_sum_prefix(s, tokens, i + 1);
        assert(s.subrange(0, i + 1).drop_last() =~= s.subrange(0, i));
    } else {
        assert(s.subrange(0, i) =~= s);
    }
}

impl RunProgress {
    fn total_of(&self, tokens: bool) -> (r: Option<u64>)
        requires
            observed_total(self.rollouts@, tokens) matches Some(n) ==> n <= u64::MAX,
        ensures
            match observed_total(self.rollouts@, tokens) {
                Some(n) => r == Some(n as u64),
                None => r is None,
            },
    {
        let mut i: usize = 0;
        while i < self.rollouts.len()
            invariant
                i <= self.rollouts.len(),
                forall|k: int|
                    0 <= k < i ==> known_terminal(#[trigger] self.rollouts@[k].1) && (if tokens {
                        self.rollouts@[k].1.total_tokens is Some
                    } else {
                        self.rollouts@[k].1.cost_micros is Some
                    }),
            decreases self.rollouts.len() - i,
        {
            let record = &self.rollouts[i].1;
            let terminal = match record.state {
                Some(RolloutStateHolder(x)) => x.is_terminal(),
                None => false,
            };
            let present = if tokens {
                record.total_tokens.is_some()
            } else {
                record.cost_micros.is_some()
            };
            if !terminal || !present {
                return None;
            }
            i = i + 1;
        }
        let mut sum: u64 = 0;
        let mut j: usize = 0;
        while j < self.rollouts.len()
            invariant
                j <= self.rollouts.len(),
                observed_total(self.rollouts@, tokens) == Some(observed_sum(self.rollouts@, tokens)),
                observed_sum(self.rollouts@, tokens) <= u64::MAX,
                sum == observed_sum(self.rollouts@.subrange(0, j as int), tokens),
            decreases self.rollouts.len() - j,
        {
            let ghost t = self.rollouts@.subrange(0, j + 1);
            assert(t.drop_last() =~= self.rollouts@.subrange(0, j as int));
            proof {
                lemma_sum_prefix(self.rollouts@, tokens, j + 1);
            }
            let value = if tokens {
                self.rollouts[j].1.total_tokens
            } else {
                self.rollouts[j].1.cost_micros
            };
            match value {
                Some(v) => {
                    sum = sum + v;
                },
                None => {},
            }
            j = j + 1;
        }
        assert(self.rollouts@.subrange(0, self.rollouts@.len() as int) =~= self.rollouts@);
        Some(sum)
    }

    fn push_label(
        &self,
        entries: &mut Vec<(String, JsonValue)>,
        label: &str,
        target: Option<RolloutState>,
    )
        ensures
            entries_of(final(entries)@) == entries_of(old(entries)@) + label_entry(
                self.rollouts@,
                label@,
                target,
            ),
    {
        proof {
            lemma_entries_of(entries@);
        }
        let n = self.count_where(target, false);
        proof {
            lemma_count_bounds(self.rollouts@, |x: RolloutRecord| with_state(x, target));
        }
        let ghost before = entries@;
        if n > 0 {
            entries.push(field(label, unsigned_value(n as u64)));
        }
        proof {
            lemma_entries_of(entries@);
            assert(entries_of(entries@) =~= entries_of(before) + label_entry(
                self.rollouts@,
                label@,
                target,
            ));
        }
    }
}


/// The rewards to average: every record terminal and carrying one, in index
/// order; `None` when any is missing, so a partial mean is never reported.
pub open spec fn complete_rewards(s: Seq<(u32, RolloutRecord)>) -> Option<Seq<u64>> {
    if forall|i: int|
        0 <= i < s.len() ==> known_terminal(#[trigger] s[i].1) && s[i].1.reward is Some {
        Some(s.map_values(|e: (u32, RolloutRecord)| e.1.reward->Some_0))
    } else {
        None
    }
}

impl RunProgress {
    /// The reward bit patterns the mean reward is taken over, when knowable.
    pub fn complete_rewards(&self) -> (r: Option<Vec<u64>>)
        ensures
            match complete_rewards(self.rollouts@) {
                Some(v) => r matches Some(w) && w@ == v,
                None => r is None,
            },
    {
        let mut out: Vec<u64> = Vec::new();
        let mut i: usize = 0;
        while i < self.rollouts.len()
            invariant
                i <= self.rollouts.len(),
                out@.len() == i,
                forall|k: int|
                    0 <= k < i ==> known_terminal(#[trigger] self.rollouts@[k].1)
                        && self.rollouts@[k].1.reward is Some && out@[k]
                        == self.rollouts@[k].1.reward->Some_0,
            decreases self.rollouts.len() - i,
        {
            let record = &self.rollouts[i].1;
            let terminal = match record.state {
                Some(RolloutStateHolder(x)) => x.is_terminal(),
                None => false,
            };
            match record.reward {
                Some(bits) => {
                    if !terminal {
                        return None;
                    }
                    out.push(bits);
                },
                None => {
                    return None;
                },
            }
            i = i + 1;
        }
        assert(out@ =~= self.rollouts@.map_values(|e: (u32, RolloutRecord)| e.1.reward->Some_0));
        Some(out)
    }

    /// The display projection. Integer totals that would not fit in `u64`
    /// are outside what this accepts.
    pub fn project(&self, requirements: EvidenceRequirements) -> (r: JsonValue)
        requires
            observed_total(self.rollouts@, false) matches Some(n) ==> n <= u64::MAX,
            observed_total(self.rollouts@, true) matches Some(n) ==> n <= u64::MAX,
        ensures
            r@ == projection(*self, requirements),
    {
        let mut counts: Vec<(String, JsonValue)> = Vec::new();
        proof {
            lemma_entries_of(counts@);
            assert(entries_of(counts@) =~= Seq::<(Seq<char>, JsonView)>::empty());
        }
        self.push_label(&mut counts, "cancelled", Some(RolloutState::Cancelled));
        self.push_label(&mut counts, "completed", Some(RolloutState::Completed));
        self.push_label(&mut counts, "degraded", Some(RolloutState::Degraded));
        self.push_label(&mut counts, "failed", Some(RolloutState::Failed));
        self.push_label(&mut counts, "planned", Some(RolloutState::Planned));
        self.push_label(&mut counts, "queued", Some(RolloutState::Queued));
        self.push_label(&mut counts, "running", Some(RolloutState::Running));
        self.push_label(&mut counts, "starting", Some(RolloutState::Starting));
        self.push_label(&mut counts, "unknown", None);
        assert(entries_of(counts@) =~= state_count_entries(self.rollouts@));
        let counts_value = object_of(counts);
        let cost = match self.total_of(false) {
            Some(n) => unsigned_value(n),
            None => JsonValue::Null,
        };
        let tokens = match self.total_of(true) {
            Some(n) => unsigned_value(n),
            None => JsonValue::Null,
        };
        let gaps = self.completion_gaps(requirements);
        let ghost gap_views = gaps@.map_values(|e: (u32, Vec<EvidenceGap>)| (e.0, e.1@));
        let mut gap_fields: Vec<(String, JsonValue)> = Vec::new();
        let mut i: usize = 0;
        while i < gaps.len()
            invariant
                i <= gaps.len(),
                gap_views == gaps@.map_values(|e: (u32, Vec<EvidenceGap>)| (e.0, e.1@)),
                gap_fields@.len() == i,
                forall|k: int|
                    0 <= k < i ==> (#[trigger] gap_fields@[k]).0@ == decimal(gaps@[k].0 as nat)
                        && gap_fields@[k].1@ == JsonView::Array(
                        gaps@[k].1@.map_values(|g: EvidenceGap| text_view(gap_text(g))),
                    ),
            decreases gaps.len() - i,
        {
            let mut names: Vec<JsonValue> = Vec::new();
            let mut j: usize = 0;
            while j < gaps[i].1.len()
                invariant
                    i < gaps.len(),
                    j <= gaps@[i as int].1@.len(),
                    names@.len() == j,
                    forall|k: int|
                        0 <= k < j ==> #[trigger] names@[k]@ == text_view(gap_text(gaps@[i as int].1@[k])),
                decreases gaps@[i as int].1@.len() - j,
            {
                names.push(text_value(gaps[i].1[j].as_str()));
                j = j + 1;
            }
            assert(names@.map_values(|v: JsonValue| v@) =~= gaps@[i as int].1@.map_values(
                |g: EvidenceGap| text_view(gap_text(g)),
            ));
            let key = u64_to_string(gaps[i].0 as u64);
            gap_fields.push((key, array_of(names)));
            i = i + 1;
        }
        proof {
            lemma_entries_of(gap_fields@);
            assert(entries_of(gap_fields@) =~= gaps_json(gap_entries(self.rollouts@, requirements))->Object_0);
        }
        let gaps_value = object_of(gap_fields);
        let errors = self.reconciliation_errors();
        let mut error_items: Vec<JsonValue> = Vec::new();
        let mut k: usize = 0;
        while k < errors.len()
            invariant
                k <= errors.len(),
                error_items@.len() == k,
                forall|m: int| 0 <= m < k ==> #[trigger] error_items@[m]@ == text_view(errors@[m]@),
            decreases errors.len() - k,
        {
            error_items.push(text_value(errors[k].as_str()));
            k = k + 1;
        }
        assert(error_items@.map_values(|v: JsonValue| v@) =~= reconciliation_messages(*self).map_values(
            |m: Seq<char>| text_view(m),
        ));
        let errors_value = array_of(error_items);
        let in_flight = self.in_flight();
        proof {
            lemma_count_bounds(self.rollouts@, |r: RolloutRecord| in_flight_record(r));
        }
        let entries = vec![
            field("state", text_value(self.state.as_str())),
            field("declaredRollouts", unsigned_value(self.rollouts.len() as u64)),
            field("rolloutStateCounts", counts_value),
            field("inFlight", unsigned_value(in_flight as u64)),
            field("credentialRevocationConfirmed", JsonValue::Bool(self.credential_revocation_confirmed)),
            field("totalCostMicros", cost),
            field("totalTokens", tokens),
            field("completionGaps", gaps_value),
            field("reconciliationErrors", errors_value),
        ];
        proof {
            lemma_entries_of(entries@);
            assert(entries_of(entries@) =~= projection(*self, requirements)->Object_0);
        }
        object_of(entries)
    }
}


/// Attaching evidence never erases an observed value and never invents one:
/// each field takes the update's value when it has one and keeps its own
/// otherwise, and the rollout's state is untouched.
pub proof fn law_evidence_is_never_erased(old: RolloutRecord, update: RolloutRecord)
    ensures
        merged_record(old, update).state == old.state,
        merged_record(old, update).rollout_id == if update.rollout_id is Some {
            update.rollout_id
        } else {
            old.rollout_id
        },
        merged_record(old, update).reward == if update.reward is Some {
            update.reward
        } else {
            old.reward
        },
        merged_record(old, update).trace_ref == if update.trace_ref is Some {
            update.trace_ref
        } else {
            old.trace_ref
        },
        merged_record(old, update).cost_micros == if update.cost_micros is Some {
            update.cost_micros
        } else {
            old.cost_micros
        },
        merged_record(old, update).total_tokens == if update.total_tokens is Some {
            update.total_tokens
        } else {
            old.total_tokens
        },
        old.rollout_id is Some ==> merged_record(old, update).rollout_id is Some,
        old.reward is Some ==> merged_record(old, update).reward is Some,
        old.trace_ref is Some ==> merged_record(old, update).trace_ref is Some,
        old.cost_micros is Some ==> merged_record(old, update).cost_micros is Some,
        old.total_tokens is Some ==> merged_record(old, update).total_tokens is Some,
{
}

/// A rollout transition touches only its own rollout: every other record, and
/// every index, stays as it was.
pub proof fn law_a_transition_touches_one_rollout(
    s: Seq<(u32, RolloutRecord)>,
    i: int,
    next: RolloutState,
)
    requires
        keys_increasing(s),
        0 <= i < s.len(),
    ensures
        rollout_transition_outcome(s, s[i].0, next).0.len() == s.len(),
        forall|j: int|
            0 <= j < s.len() && j != i ==> #[trigger] rollout_transition_outcome(s, s[i].0, next).0[j]
                == s[j],
        rollout_transition_outcome(s, s[i].0, next).0[i].0 == s[i].0,
        rollout_transition_outcome(s, s[i].0, next).1 <==> (s[i].1.state matches Some(
            RolloutStateHolder(x),
        ) && rollout_may_transition(x, next)),
{
    lemma_slot_at(s, i);
}

/// A planned run declares every rollout up front, in index order, each
/// planned and with nothing observed.
pub proof fn law_a_plan_declares_every_rollout(p: RunProgress, declared: int)
    requires
        p.rollouts@.len() == declared,
        forall|i: int|
            0 <= i < declared ==> #[trigger] p.rollouts@[i] == (i as u32, record_in(RolloutState::Planned)),
    ensures
        in_flight_count(p.rollouts@) == 0,
        completed_count(p.rollouts@) == 0,
        forall|i: int| 0 <= i < declared ==> unfinished_record(#[trigger] p.rollouts@[i].1),
{
    let s = p.rollouts@;
    assert forall|i: int| 0 <= i < s.len() implies !in_flight_record(#[trigger] s[i].1) by {
        assert(s[i] == (i as u32, record_in(RolloutState::Planned)));
    }
    assert forall|i: int| 0 <= i < s.len() implies !completed_record(#[trigger] s[i].1) by {
        assert(s[i] == (i as u32, record_in(RolloutState::Planned)));
    }
    lemma_count_bounds(s, |r: RolloutRecord| in_flight_record(r));
    lemma_count_bounds(s, |r: RolloutRecord| completed_record(r));
}

} // verus!
