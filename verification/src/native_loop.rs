//! Goal loops of a harness, shown as automations: which row stands for a loop, and what
//! is recorded of it.
use std::collections::HashMap;

use vstd::prelude::*;

use crate::clock::{is_present, rfc3339, utc_now, Moment};
use crate::ids::new_uuid;
use crate::json::{law_first_member_is_found, object1, Json, JsonView};
use crate::text::{cat2, decimal, str_eq, u64_text};

verus! {

/// What a harness reports of its goal loop.
pub enum LoopObservation {
    Iteration { index: u32, summary: Option<String> },
    Completed { status: String, summary: Option<String> },
}

/// Where the command of an automation comes from.
pub enum CommandSource {
    NativeLoop { harness: String, command: String, args: Json },
    Other,
}

pub enum TriggerType {
    AgentFinished,
    Other,
}

pub enum StopPolicy {
    Never,
    Other,
}

pub enum AutomationDriver {
    HarnessLoop,
    Other,
}

/// How often and after how long a failed execution is repeated.
pub enum RetryConfig {
    /// As the store repeats executions by default.
    Standard,
    Other,
}

/// Whether an execution gets a session of its own.
pub enum FreshSession {
    /// As the store decides by default.
    Standard,
    Other,
}

pub struct Automation {
    pub id: u128,
    pub mission_id: u128,
    pub command_source: CommandSource,
    pub trigger: TriggerType,
    /// What the command is filled in with, by name.
    pub variables: Vec<(String, String)>,
    pub active: bool,
    pub created_at: String,
    pub last_triggered_at: Option<String>,
    pub retry_config: RetryConfig,
    pub stop_policy: StopPolicy,
    pub fresh_session: FreshSession,
    pub consecutive_failures: u32,
    pub driver: AutomationDriver,
}

pub enum ExecutionStatus {
    Running,
    Success,
    Cancelled,
}

pub struct AutomationExecution {
    pub id: u128,
    pub automation_id: u128,
    pub mission_id: u128,
    pub triggered_at: String,
    pub trigger_source: String,
    pub status: ExecutionStatus,
    /// What a webhook was called with, where one triggered the execution.
    pub webhook_payload: Option<Json>,
    pub variables_used: Vec<(String, String)>,
    pub completed_at: Option<String>,
    pub error: Option<String>,
    pub retry_count: u32,
}

/// Whether a status ends a loop for good. A loop that is paused, or that has used up its
/// budget, may go on.
pub open spec fn terminal(status: Seq<char>) -> bool {
    status == "complete"@ || status == "aborted"@ || status == "cleared"@
}

pub fn is_terminal_status(status: &str) -> (r: bool)
    ensures
        r == terminal(status@),
{
    str_eq(status, "complete") || str_eq(status, "aborted") || str_eq(status, "cleared")
}

/// What the status of a loop makes of its execution.
pub open spec fn completion_status(status: Seq<char>) -> ExecutionStatus {
    if status == "complete"@ {
        ExecutionStatus::Success
    } else if status == "aborted"@ || status == "cleared"@ {
        ExecutionStatus::Cancelled
    } else {
        ExecutionStatus::Running
    }
}

/// An execution is closed exactly where the status of its loop is terminal.
pub proof fn law_terminal_status_closes(status: Seq<char>)
    ensures
        terminal(status) <==> !(completion_status(status) is Running),
{
}

/// Whether `a` stands for a loop that is running: an active row for the same harness and
/// command.
pub open spec fn stands_for(a: Automation, harness: Seq<char>, command: Seq<char>) -> bool {
    a.active && (a.command_source matches CommandSource::NativeLoop { harness: h, command: c, .. }
        && h@ == harness && c@ == command)
}

/// The first row that stands for a loop.
pub open spec fn first_row(rows: Seq<Automation>, harness: Seq<char>, command: Seq<char>) -> Option<
    u128,
>
    decreases rows.len(),
{
    if rows.len() == 0 {
        None
    } else if stands_for(rows[0], harness, command) {
        Some(rows[0].id)
    } else {
        first_row(rows.drop_first(), harness, command)
    }
}

fn find_row(rows: &Vec<Automation>, harness: &str, command: &str) -> (r: Option<u128>)
    ensures
        r == first_row(rows@, harness@, command@),
{
    let mut i: usize = 0;
    assert(rows@.skip(0) =~= rows@);
    while i < rows.len()
        invariant
            i <= rows@.len(),
            first_row(rows@, harness@, command@) == first_row(
                rows@.skip(i as int),
                harness@,
                command@,
            ),
        decreases rows@.len() - i,
    {
        assert(rows@.skip(i as int)[0] == rows@[i as int]);
        assert(rows@.skip(i as int).drop_first() =~= rows@.skip(i + 1));
        let a = &rows[i];
        let same = match &a.command_source {
            CommandSource::NativeLoop { harness: h, command: c, .. } => str_eq(h.as_str(), harness)
                && str_eq(c.as_str(), command),
            CommandSource::Other => false,
        };
        if a.active && same {
            return Some(a.id);
        }
        i += 1;
    }
    None
}

/// A new row for a loop.
pub open spec fn is_new_row(
    a: Automation,
    id: u128,
    mission_id: u128,
    harness: Seq<char>,
    command: Seq<char>,
    objective: Seq<char>,
    now: Seq<char>,
) -> bool {
    &&& a.id == id
    &&& a.mission_id == mission_id
    &&& (a.command_source matches CommandSource::NativeLoop { harness: h, command: c, args }
        && h@ == harness && c@ == command && args@ == JsonView::Object(
        seq![("objective"@, JsonView::Text(objective))],
    ))
    &&& a.trigger is AgentFinished
    &&& a.variables@.len() == 0
    &&& a.active
    &&& a.created_at@ == now
    &&& a.last_triggered_at is None
    &&& a.retry_config is Standard
    &&& a.stop_policy is Never
    &&& a.fresh_session is Standard
    &&& a.consecutive_failures == 0
    &&& a.driver is HarnessLoop
}

/// The automation that stands for a loop.
pub enum LoopRow {
    Known(u128),
    /// A row that is to be created, and then remembered.
    Create(Automation),
}

/// The row known to stand for the loop of a mission: the one remembered, or else the
/// first in the store.
pub open spec fn known_row(
    cache: Map<u128, u128>,
    mission_id: u128,
    rows: Seq<Automation>,
    harness: Seq<char>,
    command: Seq<char>,
) -> Option<u128> {
    if cache.dom().contains(mission_id) {
        Some(cache[mission_id])
    } else {
        first_row(rows, harness, command)
    }
}

/// Whether `r` is the row for the loop of a mission: a known one, which is remembered, or
/// one that is to be created.
pub open spec fn ensures_row(
    before: Map<u128, u128>,
    mission_id: u128,
    rows: Seq<Automation>,
    harness: Seq<char>,
    command: Seq<char>,
    objective: Seq<char>,
    fresh: u128,
    now: Seq<char>,
    after: Map<u128, u128>,
    r: LoopRow,
) -> bool {
    match known_row(before, mission_id, rows, harness, command) {
        Some(id) => r == LoopRow::Known(id) && after == before.insert(mission_id, id),
        None => (r matches LoopRow::Create(a) && is_new_row(
            a,
            fresh,
            mission_id,
            harness,
            command,
            objective,
            now,
        )) && after == before,
    }
}

/// What is remembered of a mission whose loop has reached `status`.
pub open spec fn cache_after(cache: Map<u128, u128>, mission_id: u128, status: Seq<char>) -> Map<
    u128,
    u128,
> {
    if terminal(status) {
        cache.remove(mission_id)
    } else {
        cache
    }
}

/// The automations that stand for the loops of missions.
pub struct NativeLoopObserver {
    cache: HashMap<u128, u128>,
}

impl View for NativeLoopObserver {
    type V = Map<u128, u128>;

    closed spec fn view(&self) -> Map<u128, u128> {
        self.cache@
    }
}

impl NativeLoopObserver {
    pub fn new() -> (r: Self)
        ensures
            r@ == Map::<u128, u128>::empty(),
    {
        NativeLoopObserver { cache: HashMap::new() }
    }

    /// The automation remembered for a mission.
    pub fn remembered(&self, mission_id: u128) -> (r: Option<u128>)
        ensures
            match r {
                Some(id) => self@.dom().contains(mission_id) && self@[mission_id] == id,
                None => !self@.dom().contains(mission_id),
            },
    {
        broadcast use vstd::std_specs::hash::group_hash_axioms;

        match self.cache.get(&mission_id) {
            Some(id) => Some(*id),
            None => None,
        }
    }

    /// Remembers the automation of a mission.
    pub fn remember(&mut self, mission_id: u128, automation_id: u128)
        ensures
            final(self)@ == old(self)@.insert(mission_id, automation_id),
    {
        broadcast use vstd::std_specs::hash::group_hash_axioms;

        self.cache.insert(mission_id, automation_id);
    }

    /// The automation for the loop of a mission, among the `rows` of its store. One that
    /// is known is remembered. Where there is none, one is to be created under the
    /// identifier `fresh`, at the time that is written `now`.
    pub fn ensure_automation_with(
        &mut self,
        mission_id: u128,
        harness: &str,
        command: &str,
        objective: &str,
        rows: &Vec<Automation>,
        fresh: u128,
        now: &str,
    ) -> (r: LoopRow)
        ensures
            ensures_row(
                old(self)@,
                mission_id,
                rows@,
                harness@,
                command@,
                objective@,
                fresh,
                now@,
                final(self)@,
                r,
            ),
    {
        if let Some(id) = self.remembered(mission_id) {
            assert(self@ =~= old(self)@.insert(mission_id, id));
            return LoopRow::Known(id);
        }
        if let Some(id) = find_row(rows, harness, command) {
            self.remember(mission_id, id);
            return LoopRow::Known(id);
        }
        LoopRow::Create(
            Automation {
                id: fresh,
                mission_id,
                command_source: CommandSource::NativeLoop {
                    harness: harness.to_string(),
                    command: command.to_string(),
                    args: object1("objective", Json::Text(objective.to_string())),
                },
                trigger: TriggerType::AgentFinished,
                variables: Vec::new(),
                active: true,
                created_at: now.to_string(),
                last_triggered_at: None,
                retry_config: RetryConfig::Standard,
                stop_policy: StopPolicy::Never,
                fresh_session: FreshSession::Standard,
                consecutive_failures: 0,
                driver: AutomationDriver::HarnessLoop,
            },
        )
    }

    /// The automation for the loop of a mission, among the `rows` of its store. One that
    /// is known is remembered. Where there is none, one is to be created now, under a
    /// random identifier.
    pub fn ensure_automation(
        &mut self,
        mission_id: u128,
        harness: &str,
        command: &str,
        objective: &str,
        rows: &Vec<Automation>,
    ) -> (r: LoopRow)
        ensures
            exists|fresh: u128, now: Moment|
                is_present(now) && #[trigger] ensures_row(
                    old(self)@,
                    mission_id,
                    rows@,
                    harness@,
                    command@,
                    objective@,
                    fresh,
                    rfc3339(now.seconds, now.nanos),
                    final(self)@,
                    r,
                ),
    {
        let fresh = new_uuid();
        let (moment, now) = utc_now();
        let r = self.ensure_automation_with(
            mission_id,
            harness,
            command,
            objective,
            rows,
            fresh,
            now.as_str(),
        );
        assert(ensures_row(
            old(self)@,
            mission_id,
            rows@,
            harness@,
            command@,
            objective@,
            fresh,
            rfc3339(moment.seconds, moment.nanos),
            self@,
            r,
        ));
        r
    }

    /// Takes note of a status that was recorded. Says whether the automation is to be
    /// made inactive.
    pub fn after_completion(&mut self, mission_id: u128, status: &str) -> (r: bool)
        ensures
            r == terminal(status@),
            final(self)@ == cache_after(old(self)@, mission_id, status@),
    {
        broadcast use vstd::std_specs::hash::group_hash_axioms;

        if is_terminal_status(status) {
            self.cache.remove(&mission_id);
            assert(self@ =~= old(self)@.remove(mission_id));
            true
        } else {
            false
        }
    }
}

/// Once a loop has ended, the next goal of the mission gets a row of its own, unless the
/// store still holds an active one.
pub proof fn law_next_goal_gets_new_row(
    cache: Map<u128, u128>,
    mission_id: u128,
    status: Seq<char>,
    rows: Seq<Automation>,
    harness: Seq<char>,
    command: Seq<char>,
)
    requires
        terminal(status),
        forall|i: int| 0 <= i < rows.len() ==> !stands_for(#[trigger] rows[i], harness, command),
    ensures
        known_row(cache_after(cache, mission_id, status), mission_id, rows, harness, command)
            is None,
    decreases rows.len(),
{
    if rows.len() > 0 {
        assert(!stands_for(rows[0], harness, command));
        let rest = rows.drop_first();
        assert forall|i: int| 0 <= i < rest.len() implies !stands_for(
            #[trigger] rest[i],
            harness,
            command,
        ) by {
            assert(rest[i] == rows[i + 1]);
        }
        law_next_goal_gets_new_row(cache, mission_id, status, rest, harness, command);
    }
}

/// A loop that has not ended goes on in its row.
pub proof fn law_paused_goal_keeps_row(
    cache: Map<u128, u128>,
    mission_id: u128,
    status: Seq<char>,
    rows: Seq<Automation>,
    harness: Seq<char>,
    command: Seq<char>,
)
    requires
        !terminal(status),
        cache.dom().contains(mission_id),
    ensures
        known_row(cache_after(cache, mission_id, status), mission_id, rows, harness, command)
            == Some(cache[mission_id]),
{
}

/// An execution of an automation, begun and ended at `now`.
pub open spec fn records(
    e: AutomationExecution,
    id: u128,
    automation_id: u128,
    mission_id: u128,
    source: Seq<char>,
    status: ExecutionStatus,
    summary: Option<String>,
    now: Seq<char>,
) -> bool {
    &&& e.id == id
    &&& e.automation_id == automation_id
    &&& e.mission_id == mission_id
    &&& e.triggered_at@ == now
    &&& e.trigger_source@ == source
    &&& e.status == status
    &&& e.webhook_payload is None
    &&& e.variables_used@.len() == 0
    &&& (e.completed_at matches Some(t) && t@ == now)
    &&& e.error == summary
    &&& e.retry_count == 0
}

/// What triggered the execution that an observation is recorded as, and how it ended.
pub open spec fn recorded_as(o: LoopObservation) -> (Seq<char>, ExecutionStatus) {
    match o {
        LoopObservation::Iteration { index, .. } => (
            "harness_loop:iteration:"@ + decimal(index as nat),
            ExecutionStatus::Success,
        ),
        LoopObservation::Completed { status, .. } => (
            "harness_loop:status:"@ + status@,
            completion_status(status@),
        ),
    }
}

pub open spec fn summary_of(o: LoopObservation) -> Option<String> {
    match o {
        LoopObservation::Iteration { summary, .. } => summary,
        LoopObservation::Completed { summary, .. } => summary,
    }
}

/// Whether `e` records an observation.
pub open spec fn records_observation(
    e: AutomationExecution,
    id: u128,
    automation_id: u128,
    mission_id: u128,
    o: LoopObservation,
    now: Seq<char>,
) -> bool {
    records(
        e,
        id,
        automation_id,
        mission_id,
        recorded_as(o).0,
        recorded_as(o).1,
        summary_of(o),
        now,
    )
}

/// The execution that is recorded for an observation, under the identifier `id` and at the
/// time that is written `now`.
pub fn record_execution_with(
    id: u128,
    automation_id: u128,
    mission_id: u128,
    observation: LoopObservation,
    now: &str,
) -> (r: AutomationExecution)
    ensures
        records_observation(r, id, automation_id, mission_id, observation, now@),
{
    let (trigger_source, status, error) = match observation {
        LoopObservation::Iteration { index, summary } => {
            let n = u64_text(index as u64);
            (cat2("harness_loop:iteration:", n.as_str()), ExecutionStatus::Success, summary)
        },
        LoopObservation::Completed { status, summary } => {
            let s = status.as_str();
            let source = cat2("harness_loop:status:", s);
            if str_eq(s, "complete") {
                (source, ExecutionStatus::Success, summary)
            } else if str_eq(s, "aborted") || str_eq(s, "cleared") {
                (source, ExecutionStatus::Cancelled, summary)
            } else {
                (source, ExecutionStatus::Running, summary)
            }
        },
    };
    AutomationExecution {
        id,
        automation_id,
        mission_id,
        triggered_at: now.to_string(),
        trigger_source,
        status,
        webhook_payload: None,
        variables_used: Vec::new(),
        completed_at: Some(now.to_string()),
        error,
        retry_count: 0,
    }
}

/// How an observation is recorded.
pub enum ExecutionRow {
    /// As an execution of its own.
    Create(AutomationExecution),
    /// In the execution that was recorded last, which is closed.
    Close(AutomationExecution),
}

/// Whether an observation ends its loop for good.
pub open spec fn ends_loop(o: LoopObservation) -> bool {
    o is Completed && terminal(o->Completed_status@)
}

/// Whether `after` is the execution `before`, closed at `now` with a status, and with a
/// summary where there is one.
pub open spec fn closes(
    before: AutomationExecution,
    status: ExecutionStatus,
    summary: Option<String>,
    now: Seq<char>,
    after: AutomationExecution,
) -> bool {
    &&& (after.completed_at matches Some(t) && t@ == now)
    &&& after == (AutomationExecution {
        status,
        completed_at: after.completed_at,
        error: match summary {
            Some(_) => summary,
            None => before.error,
        },
        ..before
    })
}

/// Whether `r` records an observation of a loop whose last execution is `latest`. The end of
/// the loop closes that execution; anything else, and an end without one, is recorded as an
/// execution of its own.
pub open spec fn records_in(
    latest: Option<AutomationExecution>,
    id: u128,
    automation_id: u128,
    mission_id: u128,
    o: LoopObservation,
    now: Seq<char>,
    r: ExecutionRow,
) -> bool {
    match latest {
        Some(e) if ends_loop(o) => r is Close && closes(
            e,
            recorded_as(o).1,
            summary_of(o),
            now,
            r->Close_0,
        ),
        _ => r is Create && records_observation(
            r->Create_0,
            id,
            automation_id,
            mission_id,
            o,
            now,
        ),
    }
}

/// Records an observation of a loop whose last execution is `latest`, at the time that is
/// written `now`. An execution of its own gets the identifier `id`.
pub fn record_observation_with(
    latest: Option<AutomationExecution>,
    id: u128,
    automation_id: u128,
    mission_id: u128,
    observation: LoopObservation,
    now: &str,
) -> (r: ExecutionRow)
    ensures
        records_in(latest, id, automation_id, mission_id, observation, now@, r),
{
    let ends = match &observation {
        LoopObservation::Iteration { .. } => false,
        LoopObservation::Completed { status, .. } => is_terminal_status(status.as_str()),
    };
    match latest {
        Some(e) if ends => {
            let recorded = record_execution_with(id, automation_id, mission_id, observation, now);
            let error = match recorded.error {
                Some(summary) => Some(summary),
                None => e.error,
            };
            ExecutionRow::Close(
                AutomationExecution {
                    id: e.id,
                    automation_id: e.automation_id,
                    mission_id: e.mission_id,
                    triggered_at: e.triggered_at,
                    trigger_source: e.trigger_source,
                    status: recorded.status,
                    webhook_payload: e.webhook_payload,
                    variables_used: e.variables_used,
                    completed_at: recorded.completed_at,
                    error,
                    retry_count: e.retry_count,
                },
            )
        },
        _ => ExecutionRow::Create(
            record_execution_with(id, automation_id, mission_id, observation, now),
        ),
    }
}

/// Records an observation of a loop whose last execution is `latest`, now. An execution of
/// its own gets a random identifier.
pub fn record_observation(
    latest: Option<AutomationExecution>,
    automation_id: u128,
    mission_id: u128,
    observation: LoopObservation,
) -> (r: ExecutionRow)
    ensures
        exists|id: u128, now: Moment|
            is_present(now) && #[trigger] records_in(
                latest,
                id,
                automation_id,
                mission_id,
                observation,
                rfc3339(now.seconds, now.nanos),
                r,
            ),
{
    let id = new_uuid();
    let (moment, now) = utc_now();
    let r = record_observation_with(
        latest,
        id,
        automation_id,
        mission_id,
        observation,
        now.as_str(),
    );
    assert(records_in(
        latest,
        id,
        automation_id,
        mission_id,
        observation,
        rfc3339(moment.seconds, moment.nanos),
        r,
    ));
    r
}

/// The end of a loop leaves no execution of its own behind where there is one to close, and
/// the one that it closes is running no more.
pub proof fn law_end_closes_last_execution(
    latest: AutomationExecution,
    id: u128,
    automation_id: u128,
    mission_id: u128,
    o: LoopObservation,
    now: Seq<char>,
    r: ExecutionRow,
)
    requires
        ends_loop(o),
        records_in(Some(latest), id, automation_id, mission_id, o, now, r),
    ensures
        r is Close,
        r->Close_0.id == latest.id,
        r->Close_0.automation_id == latest.automation_id,
        r->Close_0.trigger_source == latest.trigger_source,
        !(r->Close_0.status is Running),
        r->Close_0.completed_at is Some,
{
    law_terminal_status_closes(o->Completed_status@);
}

/// Which states end a loop, and what they make of its execution.
pub proof fn law_states_of_a_loop(status: Seq<char>)
    ensures
        terminal(status) == (status == "complete"@ || status == "aborted"@ || status
            == "cleared"@),
        completion_status(status) == if status == "complete"@ {
            ExecutionStatus::Success
        } else if status == "aborted"@ || status == "cleared"@ {
            ExecutionStatus::Cancelled
        } else {
            ExecutionStatus::Running
        },
{
}

/// The row of a loop is the first that is active and of the same harness and command.
pub proof fn law_first_active_row_counts(
    before: Seq<Automation>,
    a: Automation,
    after: Seq<Automation>,
    harness: Seq<char>,
    command: Seq<char>,
)
    requires
        a.active,
        a.command_source matches CommandSource::NativeLoop { harness: h, command: c, .. } && h@
            == harness && c@ == command,
        forall|i: int|
            0 <= i < before.len() ==> !((#[trigger] before[i]).active && before[i].command_source is NativeLoop
                && before[i].command_source->harness@ == harness
                && before[i].command_source->command@ == command),
    ensures
        first_row(before + seq![a] + after, harness, command) == Some(a.id),
        first_row(before, harness, command) is None,
    decreases before.len(),
{
    let all = before + seq![a] + after;
    if before.len() == 0 {
        assert(all[0] == a);
    } else {
        assert(all[0] == before[0]);
        let fewer = before.drop_first();
        assert forall|i: int| 0 <= i < fewer.len() implies !((#[trigger] fewer[i]).active
            && fewer[i].command_source is NativeLoop && fewer[i].command_source->harness@ == harness
            && fewer[i].command_source->command@ == command) by {
            assert(fewer[i] == before[i + 1]);
        }
        assert(all.drop_first() =~= fewer + seq![a] + after);
        law_first_active_row_counts(fewer, a, after, harness, command);
    }
}

/// A loop without a row gets one of its own, which holds its objective; a known row is
/// remembered, and what is remembered comes before what the store holds.
pub proof fn law_loop_gets_its_row(
    before: Map<u128, u128>,
    mission_id: u128,
    other: u128,
    rows: Seq<Automation>,
    harness: Seq<char>,
    command: Seq<char>,
    objective: Seq<char>,
    fresh: u128,
    now: Seq<char>,
    after: Map<u128, u128>,
    r: LoopRow,
)
    requires
        ensures_row(
            before,
            mission_id,
            rows,
            harness,
            command,
            objective,
            fresh,
            now,
            after,
            r,
        ),
        other != mission_id,
    ensures
        before.dom().contains(mission_id) ==> r == LoopRow::Known(before[mission_id]) && after
            =~= before,
        !before.dom().contains(mission_id) ==> match first_row(rows, harness, command) {
            Some(id) => r == LoopRow::Known(id) && after.dom().contains(mission_id)
                && after[mission_id] == id,
            None => r is Create && after == before && {
                let a = r->Create_0;
                &&& a.id == fresh && a.mission_id == mission_id && a.active && a.created_at@ == now
                &&& a.command_source is NativeLoop && a.command_source->harness@ == harness
                    && a.command_source->command@ == command
                    && a.command_source->args@.get("objective"@) == Some(JsonView::Text(objective))
                &&& a.trigger is AgentFinished && a.stop_policy is Never && a.driver is HarnessLoop
                &&& a.last_triggered_at is None && a.consecutive_failures == 0
                &&& a.variables@.len() == 0 && a.retry_config is Standard
                    && a.fresh_session is Standard
            },
        },
        after.dom().contains(other) == before.dom().contains(other),
        before.dom().contains(other) ==> after[other] == before[other],
{
    law_first_member_is_found(seq![("objective"@, JsonView::Text(objective))], 0);
}

/// What is recorded of an observation: which round it was or what the loop came to, its
/// summary, and when.
pub proof fn law_observation_is_recorded(
    e: AutomationExecution,
    id: u128,
    automation_id: u128,
    mission_id: u128,
    o: LoopObservation,
    now: Seq<char>,
)
    requires
        records_observation(e, id, automation_id, mission_id, o, now),
    ensures
        e.id == id && e.automation_id == automation_id && e.mission_id == mission_id,
        e.triggered_at@ == now && (e.completed_at matches Some(t) && t@ == now),
        e.retry_count == 0 && e.webhook_payload is None && e.variables_used@.len() == 0,
        match o {
            LoopObservation::Iteration { index, summary } => e.trigger_source@
                == "harness_loop:iteration:"@ + decimal(index as nat) && e.status is Success
                && e.error == summary,
            LoopObservation::Completed { status, summary } => e.trigger_source@
                == "harness_loop:status:"@ + status@ && e.error == summary && (status@
                == "complete"@ ==> e.status is Success) && (status@ == "aborted"@ || status@
                == "cleared"@ ==> e.status is Cancelled) && (status@ != "complete"@ && status@
                != "aborted"@ && status@ != "cleared"@ ==> e.status is Running),
        },
{
    reveal_strlit("complete");
    reveal_strlit("aborted");
    reveal_strlit("cleared");
    assert("complete"@.len() == 8 &&
        "aborted"@.len() == 7 &&
        "cleared"@.len() == 7 &&
        "aborted"@[0] == 'a' &&
        "cleared"@[0] == 'c');
}

/// An end closes the last execution with its outcome, its time and its summary, and leaves the
/// rest of it; anything else is recorded by itself.
pub proof fn law_execution_is_closed_as_it_ended(
    latest: Option<AutomationExecution>,
    id: u128,
    automation_id: u128,
    mission_id: u128,
    o: LoopObservation,
    now: Seq<char>,
    r: ExecutionRow,
)
    requires
        records_in(latest, id, automation_id, mission_id, o, now, r),
    ensures
        ({
            let ends = o is Completed && (o->Completed_status@ == "complete"@
                || o->Completed_status@ == "aborted"@ || o->Completed_status@ == "cleared"@);
            &&& r is Close == (ends && latest is Some)
            &&& r is Close ==> {
                let e = r->Close_0;
                let was = latest->0;
                &&& e.id == was.id && e.automation_id == was.automation_id && e.mission_id
                    == was.mission_id && e.triggered_at == was.triggered_at && e.trigger_source
                    == was.trigger_source && e.retry_count == was.retry_count
                &&& e.completed_at matches Some(t) && t@ == now
                &&& e.status is Success == (o->Completed_status@ == "complete"@)
                &&& e.error == if o->Completed_summary is Some {
                    o->Completed_summary
                } else {
                    was.error
                }
            }
            &&& r is Create ==> records_observation(
                r->Create_0,
                id,
                automation_id,
                mission_id,
                o,
                now,
            )
        }),
{
    reveal_strlit("complete");
    reveal_strlit("aborted");
    reveal_strlit("cleared");
    assert("complete"@.len() == 8 &&
        "aborted"@.len() == 7 &&
        "cleared"@.len() == 7 &&
        "aborted"@[0] == 'a' &&
        "cleared"@[0] == 'c');
}

} // verus!
