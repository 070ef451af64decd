//! Indexing of new blocks as the chain grows.

use crate::config::{EventProcessingConfig, TopicId};
use crate::fetch_logs::{
    last_log, last_log_of, next_from_block, Fault, FetchLogsResult, LastLog, RindexerEventFilter,
    WrappedLog,
};
use crate::results::{
    law_last_event_of_a_topic_counts, law_topics_with_a_range_have_a_state,
};
use vstd::prelude::*;

verus! {

/// How long to wait before each pass over the events, in milliseconds.
pub const PASS_INTERVAL: u64 = 100;

/// How long to wait after the first error in a row, in milliseconds.
pub const INITIAL_RETRY_DELAY: u64 = 200;

/// The longest wait after an error, in milliseconds.
pub const MAX_RETRY_DELAY: u64 = 60_000;

/// How long the chain may stand still before that is reported, in nanoseconds.
pub const NO_NEW_BLOCK_INTERVAL: u64 = 300_000_000_000;

/// How far an event has been indexed. The time is that of a clock that never runs backwards, in
/// nanoseconds.
#[derive(Clone, Copy, Debug, PartialEq, Eq, Structural)]
pub struct LiveIndexingState {
    pub filter: RindexerEventFilter,
    pub last_seen_block_number: u64,
    pub last_no_new_block_log_time: u64,
}

/// The state under each topic. A topic occurs once.
pub struct LiveStates {
    entries: Vec<(TopicId, LiveIndexingState)>,
}

impl LiveStates {
    /// The entry at `i` is that of `topic`.
    closed spec fn holds(self, topic: TopicId, i: int) -> bool {
        0 <= i < self.entries@.len() && self.entries@[i].0 == topic
    }

    /// No topic occurs twice.
    pub closed spec fn wf(self) -> bool {
        forall|i: int, j: int|
            0 <= i < self.entries@.len() && 0 <= j < self.entries@.len() && i != j
                ==> self.entries@[i].0 != self.entries@[j].0
    }
}

impl View for LiveStates {
    type V = Map<TopicId, LiveIndexingState>;

    closed spec fn view(&self) -> Map<TopicId, LiveIndexingState> {
        Map::new(
            |topic: TopicId| exists|i: int| self.holds(topic, i),
            |topic: TopicId| self.entries@[choose|i: int| self.holds(topic, i)].1,
        )
    }
}

impl LiveStates {
    /// No states.
    pub fn new() -> (states: Self)
        ensures
            states.wf(),
            states@ == Map::<TopicId, LiveIndexingState>::empty(),
    {
        let states = LiveStates { entries: Vec::new() };
        assert(states@ =~= Map::<TopicId, LiveIndexingState>::empty());
        states
    }

    /// Where the entry of `topic` stands.
    fn find(&self, topic: TopicId) -> (found: Option<usize>)
        ensures
            match found {
                Some(i) => self.holds(topic, i as int),
                None => forall|i: int| !self.holds(topic, i),
            },
    {
        let mut i: usize = 0;
        while i < self.entries.len()
            invariant
                i <= self.entries@.len(),
                forall|j: int| 0 <= j < i ==> !self.holds(topic, j),
            decreases self.entries@.len() - i,
        {
            if self.entries[i].0 == topic {
                return Some(i);
            }
            i += 1;
        }
        None
    }

    /// The state under `topic`.
    pub fn get(&self, topic: TopicId) -> (state: Option<LiveIndexingState>)
        requires
            self.wf(),
        ensures
            state == if self@.contains_key(topic) {
                Some(self@[topic])
            } else {
                None
            },
    {
        match self.find(topic) {
            Some(i) => Some(self.entries[i].1),
            None => None,
        }
    }

    /// Puts `state` under `topic`, in place of the one that was there.
    pub fn insert(&mut self, topic: TopicId, state: LiveIndexingState)
        requires
            old(self).wf(),
        ensures
            final(self).wf(),
            final(self)@ == old(self)@.insert(topic, state),
    {
        match self.find(topic) {
            Some(i) => {
                self.entries.set(i, (topic, state));
                proof {
                    assert forall|t: TopicId, j: int| self.holds(t, j) == old(self).holds(t, j) by {}
                    assert(self@ =~= old(self)@.insert(topic, state)) by {
                        assert(self.holds(topic, i as int));
                    }
                }
            },
            None => {
                proof {
                    assert forall|i: int| 0 <= i < self.entries@.len() implies self.entries@[i].0
                        != topic by {
                        assert(!self.holds(topic, i));
                    }
                }
                self.entries.push((topic, state));
                proof {
                    let last = self.entries@.len() - 1;
                    assert(self.holds(topic, last));
                    assert forall|t: TopicId, j: int| t != topic implies self.holds(t, j)
                        == old(self).holds(t, j) by {}
                    assert forall|t: TopicId|
                        t != topic && old(self)@.contains_key(t) implies self@.contains_key(t)
                        && self@[t] == old(self)@[t] by {
                        let before = choose|i: int| old(self).holds(t, i);
                        assert(self.holds(t, before));
                        let after = choose|i: int| self.holds(t, i);
                        assert(old(self).holds(t, after));
                    }
                    assert(self@ =~= old(self)@.insert(topic, state));
                }
            },
        }
    }
}

/// What a new head of the chain leads to for an event.
#[derive(Clone, Copy, Debug, PartialEq, Eq, Structural)]
pub enum LiveDecision {
    /// The head has been seen before.
    NothingNew,
    /// The head has been seen before, and it is time to report that.
    ReportNothingNew,
    /// The next block to index is not safe from a reorganisation yet.
    NotSafeYet,
    /// The next block is the only safe one: the bloom filter of the head tells whether to request
    /// its logs.
    CheckLogsBloom { to_block: u64 },
    /// The logs from the next block to this one are to be requested.
    Request { to_block: u64 },
    /// The task fails.
    Abort(Fault),
}

/// The last block to request when `from_block` is next and `safe_block` is the last safe one: the
/// provider's limit allows that many blocks.
pub open spec fn requested_to_block(
    from_block: u64,
    safe_block: u64,
    max_block_range: Option<u64>,
) -> Result<u64, Fault> {
    match max_block_range {
        None => Ok(safe_block),
        Some(max) => if safe_block - from_block + 1 > u64::MAX {
            Err(Fault::ArithmeticOverflow)
        } else if safe_block - from_block + 1 <= max {
            Ok(safe_block)
        } else if from_block + max == 0 {
            Err(Fault::ArithmeticOverflow)
        } else {
            Ok((from_block + max - 1) as u64)
        },
    }
}

/// The request for blocks up to `safe_block`, cut to the provider's limit.
pub open spec fn limited_request(
    from_block: u64,
    safe_block: u64,
    max_block_range: Option<u64>,
) -> LiveDecision {
    match requested_to_block(from_block, safe_block, max_block_range) {
        Ok(to_block) => LiveDecision::Request { to_block },
        Err(fault) => LiveDecision::Abort(fault),
    }
}

/// What the head `latest` leads to at time `now`.
pub open spec fn decision(
    state: LiveIndexingState,
    config: EventProcessingConfig,
    latest: u64,
    now: u64,
) -> LiveDecision {
    let from_block = state.filter.from_block;
    let safe_block = latest - config.indexing_distance_from_head;
    if state.last_seen_block_number == latest {
        if now - state.last_no_new_block_log_time >= NO_NEW_BLOCK_INTERVAL {
            LiveDecision::ReportNothingNew
        } else {
            LiveDecision::NothingNew
        }
    } else if safe_block < 0 {
        LiveDecision::Abort(Fault::ArithmeticOverflow)
    } else if from_block > safe_block {
        LiveDecision::NotSafeYet
    } else if from_block == safe_block && !config.disable_logs_bloom_checks {
        LiveDecision::CheckLogsBloom { to_block: safe_block as u64 }
    } else {
        limited_request(from_block, safe_block as u64, config.max_block_range)
    }
}

/// Cuts the request for blocks up to `safe_block` to the provider's limit.
pub fn limit_request(from_block: u64, safe_block: u64, max_block_range: Option<u64>) -> (decided:
    LiveDecision)
    requires
        from_block <= safe_block,
    ensures
        decided == limited_request(from_block, safe_block, max_block_range),
        max_block_range is None ==> decided == (LiveDecision::Request { to_block: safe_block }),
        max_block_range matches Some(max) ==> if safe_block - from_block == u64::MAX || from_block
            + max == 0 {
            decided == LiveDecision::Abort(Fault::ArithmeticOverflow)
        } else {
            decided matches LiveDecision::Request { to_block } && to_block == if safe_block
                - from_block + 1 > max {
                from_block + max - 1
            } else {
                safe_block as int
            }
        },
{
    if let Some(max) = max_block_range {
        let distance: u64 = safe_block - from_block;
        if distance == u64::MAX {
            return LiveDecision::Abort(Fault::ArithmeticOverflow);
        }
        let block_range: u64 = distance + 1;
        if block_range > max {
            if from_block == 0 && max == 0 {
                return LiveDecision::Abort(Fault::ArithmeticOverflow);
            }
            return LiveDecision::Request { to_block: from_block + max - 1 };
        }
    }
    LiveDecision::Request { to_block: safe_block }
}

/// Decides what the head `latest` leads to at time `now`.
pub fn decide(state: &LiveIndexingState, config: &EventProcessingConfig, latest: u64, now: u64) -> (
decided: LiveDecision)
    ensures
        decided == decision(*state, *config, latest, now),
        latest == state.last_seen_block_number ==> decided == if now
            - state.last_no_new_block_log_time >= 300_000_000_000 {
            LiveDecision::ReportNothingNew
        } else {
            LiveDecision::NothingNew
        },
        latest != state.last_seen_block_number ==> {
            let safe_block = latest - config.indexing_distance_from_head;
            &&& safe_block < 0 ==> decided == LiveDecision::Abort(Fault::ArithmeticOverflow)
            &&& 0 <= safe_block < state.filter.from_block ==> decided == LiveDecision::NotSafeYet
            &&& safe_block == state.filter.from_block && !config.disable_logs_bloom_checks
                ==> decided == (LiveDecision::CheckLogsBloom { to_block: safe_block as u64 })
            &&& decided matches LiveDecision::Request { to_block } ==> {
                &&& state.filter.from_block < safe_block || state.filter.from_block == safe_block
                    && config.disable_logs_bloom_checks
                &&& config.max_block_range is None ==> to_block == safe_block
                &&& config.max_block_range matches Some(max) ==> to_block == if safe_block
                    - state.filter.from_block + 1 > max {
                    state.filter.from_block + max - 1
                } else {
                    safe_block
                }
            }
        },
{
    if state.last_seen_block_number == latest {
        let last_time = state.last_no_new_block_log_time;
        return if now >= last_time && now - last_time >= NO_NEW_BLOCK_INTERVAL {
            LiveDecision::ReportNothingNew
        } else {
            LiveDecision::NothingNew
        };
    }
    if latest < config.indexing_distance_from_head {
        return LiveDecision::Abort(Fault::ArithmeticOverflow);
    }
    let safe_block: u64 = latest - config.indexing_distance_from_head;
    let from_block = state.filter.from_block;
    if from_block > safe_block {
        return LiveDecision::NotSafeYet;
    }
    if from_block == safe_block && !config.disable_logs_bloom_checks {
        return LiveDecision::CheckLogsBloom { to_block: safe_block };
    }
    limit_request(from_block, safe_block, config.max_block_range)
}

/// The state once the blocks up to `to_block` have been indexed and `next` is the next one.
pub open spec fn advanced(state: LiveIndexingState, to_block: u64, next: u64) -> LiveIndexingState {
    LiveIndexingState {
        filter: RindexerEventFilter { from_block: next, to_block },
        last_seen_block_number: to_block,
        ..state
    }
}

/// The state once the block `to_block` has been skipped.
pub open spec fn skipped(state: LiveIndexingState, to_block: u64) -> LiveIndexingState {
    LiveIndexingState {
        filter: RindexerEventFilter {
            from_block: (to_block + 1) as u64,
            to_block: state.filter.to_block,
        },
        last_seen_block_number: to_block,
        ..state
    }
}

/// The wait after the next error in a row.
pub open spec fn next_delay(delay: u64) -> u64 {
    if 2 * delay <= MAX_RETRY_DELAY {
        (2 * delay) as u64
    } else {
        MAX_RETRY_DELAY
    }
}

/// The state of an event whose history is indexed up to the end of `filter`.
pub open spec fn initial_state(filter: RindexerEventFilter, now: u64) -> LiveIndexingState {
    LiveIndexingState {
        filter: RindexerEventFilter {
            from_block: (filter.to_block + 1) as u64,
            to_block: (filter.to_block + 1) as u64,
        },
        last_seen_block_number: filter.to_block,
        last_no_new_block_log_time: now,
    }
}

/// The states of the first `n` events that have a filter. Of events with the same topic the last
/// one counts.
pub open spec fn initial_states(
    configs: Seq<EventProcessingConfig>,
    filters: Seq<Option<RindexerEventFilter>>,
    n: int,
    now: u64,
) -> Map<TopicId, LiveIndexingState>
    decreases n,
{
    if n <= 0 {
        Map::empty()
    } else {
        let before = initial_states(configs, filters, n - 1, now);
        match filters[n - 1] {
            Some(filter) => before.insert(configs[n - 1].topic_id, initial_state(filter, now)),
            None => before,
        }
    }
}

/// The first event at or after `from` that has a state; the number of events where there is none.
pub open spec fn next_event(
    configs: Seq<EventProcessingConfig>,
    states: Map<TopicId, LiveIndexingState>,
    from: int,
) -> int
    decreases configs.len() - from,
{
    if from >= configs.len() {
        configs.len() as int
    } else if states.contains_key(configs[from].topic_id) {
        from
    } else {
        next_event(configs, states, from + 1)
    }
}

/// What live indexing waits for.
#[derive(Clone, Copy, Debug, PartialEq, Eq, Structural)]
pub enum LivePhase {
    /// The end of the wait before a pass.
    Pause,
    /// The head of the chain.
    LatestBlock,
    /// Whether the bloom filter of the head lets logs of the event be expected.
    LogsBloom { to_block: u64 },
    /// A permit to send the request for the blocks up to this one.
    Permit { to_block: u64 },
    /// The logs up to this block.
    Logs { to_block: u64 },
    /// The handling of the logs up to this block, the last of which stands there.
    Handling { to_block: u64, last: LastLog },
    /// The end of the task that handles the logs.
    Task { to_block: u64, last: LastLog },
    /// The end of a report or of a wait, after which the next event has its turn.
    Interlude,
    /// Nothing: live indexing failed.
    Ended,
}

/// What live indexing asks for. Events are named by their place among the configurations.
#[derive(Clone, Copy, Debug, PartialEq, Eq, Structural)]
pub enum LiveAction {
    /// Wait.
    Sleep { millis: u64 },
    /// Ask the provider of the event for the head of its chain.
    GetLatestBlock { event: usize },
    /// Report that the chain of the event stands still.
    ReportNothingNew { event: usize },
    /// Check the bloom filter of the head for the event.
    CheckLogsBloom { event: usize },
    /// Wait for a permit to send a request.
    AcquirePermit { event: usize },
    /// Request the logs of these blocks.
    GetLogs { event: usize, filter: RindexerEventFilter },
    /// Wait for the task that handles the logs of the event.
    AwaitTask { event: usize },
    /// Fail.
    Abort(Fault),
}

/// The head of a chain as a provider reports it.
#[derive(Clone, Copy, Debug, PartialEq, Eq, Structural)]
pub enum LatestBlock {
    /// The request failed.
    Failed,
    /// The provider returned no block.
    Missing,
    /// The provider returned a block without a number.
    Unnumbered,
    /// The provider returned this block.
    Number(u64),
}

/// Indexing of new blocks for a list of events, each in its turn. It asks for one thing at a time
/// and goes on with what came of it.
pub struct LiveIndexing {
    configs: Vec<EventProcessingConfig>,
    is_dependency_mode: bool,
    states: LiveStates,
    error_retry_delay: u64,
    position: usize,
    phase: LivePhase,
}

/// [`LiveIndexing`] as contracts speak of it.
pub struct LiveView {
    pub configs: Seq<EventProcessingConfig>,
    pub is_dependency_mode: bool,
    pub states: Map<TopicId, LiveIndexingState>,
    /// The wait after the next error, in milliseconds.
    pub error_retry_delay: u64,
    /// The event whose turn it is.
    pub position: usize,
    pub phase: LivePhase,
}

impl LiveView {
    /// The event whose turn it is.
    pub open spec fn config(self) -> EventProcessingConfig {
        self.configs[self.position as int]
    }

    /// How far the event whose turn it is has been indexed.
    pub open spec fn state(self) -> LiveIndexingState {
        self.states[self.config().topic_id]
    }

    /// An event has its turn while something is asked for on its behalf, and only an event that
    /// has a state. The wait after an error stays between its bounds. The bloom filter is asked
    /// for the next block only.
    pub open spec fn wf(self) -> bool {
        &&& self.configs.len() <= usize::MAX
        &&& INITIAL_RETRY_DELAY <= self.error_retry_delay <= MAX_RETRY_DELAY
        &&& !(self.phase is Pause) ==> self.position < self.configs.len()
            && self.states.contains_key(self.config().topic_id)
        &&& self.phase matches LivePhase::LogsBloom { to_block }
            ==> self.state().filter.from_block == to_block
    }

    /// The turn passes to the first event at or after `from` that has a state. The pass ends where
    /// there is none.
    pub open spec fn turn_from(self, from: int) -> LiveView {
        let next = next_event(self.configs, self.states, from);
        if next < self.configs.len() {
            LiveView { position: next as usize, phase: LivePhase::LatestBlock, ..self }
        } else {
            LiveView { position: 0, phase: LivePhase::Pause, ..self }
        }
    }

    /// The turn passes to the next event.
    pub open spec fn next_turn(self) -> LiveView {
        self.turn_from(self.position + 1)
    }

    /// What is asked for when a turn or a pass begins.
    pub open spec fn request(self) -> LiveAction {
        if self.phase is LatestBlock {
            LiveAction::GetLatestBlock { event: self.position }
        } else {
            LiveAction::Sleep { millis: PASS_INTERVAL }
        }
    }

    /// With this state of the event whose turn it is.
    pub open spec fn with_state(self, state: LiveIndexingState) -> LiveView {
        LiveView { states: self.states.insert(self.config().topic_id, state), ..self }
    }

    /// In this phase.
    pub open spec fn in_phase(self, phase: LivePhase) -> LiveView {
        LiveView { phase, ..self }
    }

    /// With this wait after the next error.
    pub open spec fn with_delay(self, error_retry_delay: u64) -> LiveView {
        LiveView { error_retry_delay, ..self }
    }

    /// After an error: the wait after the next one is longer, and nothing else has changed.
    pub open spec fn backed_off(self) -> LiveView {
        self.with_delay(next_delay(self.error_retry_delay)).in_phase(LivePhase::Interlude)
    }

    /// After `decided` for the event whose turn it is, at time `now`.
    pub open spec fn after_decision(self, decided: LiveDecision, now: u64) -> LiveView {
        match decided {
            LiveDecision::NothingNew | LiveDecision::NotSafeYet => self.next_turn(),
            LiveDecision::ReportNothingNew => self.with_state(
                LiveIndexingState { last_no_new_block_log_time: now, ..self.state() },
            ).in_phase(LivePhase::Interlude),
            LiveDecision::CheckLogsBloom { to_block } => self.in_phase(
                LivePhase::LogsBloom { to_block },
            ),
            LiveDecision::Request { to_block } => self.in_phase(LivePhase::Permit { to_block }),
            LiveDecision::Abort(_) => self.in_phase(LivePhase::Ended),
        }
    }

    /// What is asked for after `decided`.
    pub open spec fn asked_by_decision(self, decided: LiveDecision) -> LiveAction {
        let event = self.position;
        match decided {
            LiveDecision::NothingNew | LiveDecision::NotSafeYet => self.next_turn().request(),
            LiveDecision::ReportNothingNew => LiveAction::ReportNothingNew { event },
            LiveDecision::CheckLogsBloom { .. } => LiveAction::CheckLogsBloom { event },
            LiveDecision::Request { .. } => LiveAction::AcquirePermit { event },
            LiveDecision::Abort(fault) => LiveAction::Abort(fault),
        }
    }

    /// After the logs up to `to_block`, the last of which stands at `last`, have been handled. The
    /// next block is past the last log, or past the request where it had none. A last log without
    /// a block number counts as an error.
    pub open spec fn after_handling(self, to_block: u64, last: LastLog) -> LiveView {
        match next_from_block(last, to_block) {
            Err(_) => self.backed_off(),
            Ok(next) => if next > u64::MAX {
                self.in_phase(LivePhase::Ended)
            } else {
                self.with_state(advanced(self.state(), to_block, next as u64)).next_turn()
            },
        }
    }

    /// What is asked for after the logs up to `to_block` have been handled.
    pub open spec fn asked_by_handling(self, to_block: u64, last: LastLog) -> LiveAction {
        match next_from_block(last, to_block) {
            Err(_) => self.backoff(),
            Ok(next) => if next > u64::MAX {
                LiveAction::Abort(Fault::ArithmeticOverflow)
            } else {
                self.after_handling(to_block, last).request()
            },
        }
    }

    /// What is asked for after an error: the wait that was due.
    pub open spec fn backoff(self) -> LiveAction {
        LiveAction::Sleep { millis: self.error_retry_delay }
    }
}

/// What came of what live indexing asked for.
pub enum LiveStep {
    /// A wait or a report ended.
    Resumed,
    /// The provider was asked for the head of the chain, and the answer came at this time.
    LatestBlock(LatestBlock, u64),
    /// The bloom filter of the head says whether logs of the event are to be expected.
    LogsBloom(bool),
    /// A permit was acquired or not.
    Permit(bool),
    /// Logs came, the last of which stands there.
    Logs(LastLog),
    /// The request for logs failed.
    LogsFailed,
    /// Logs were handed over for handling or not.
    Handled(bool),
    /// The task that handles the logs ran to its end or not.
    Task(bool),
}

impl LiveView {
    /// `step` can come: it is what is waited for.
    pub open spec fn expects(self, step: LiveStep) -> bool {
        match step {
            LiveStep::Resumed => self.phase is Pause || self.phase is Interlude,
            LiveStep::LatestBlock(..) => self.phase is LatestBlock,
            LiveStep::LogsBloom(_) => self.phase is LogsBloom,
            LiveStep::Permit(_) => self.phase is Permit,
            LiveStep::Logs(_) => self.phase is Logs,
            LiveStep::LogsFailed => self.phase is Logs,
            LiveStep::Handled(_) => self.phase is Handling,
            LiveStep::Task(_) => self.phase is Task,
        }
    }

    /// After `step`.
    pub open spec fn after(self, step: LiveStep) -> LiveView {
        match (self.phase, step) {
            (LivePhase::Pause, LiveStep::Resumed) => self.turn_from(0),
            (_, LiveStep::Resumed) => self.next_turn(),
            (_, LiveStep::LatestBlock(LatestBlock::Number(latest), now)) => self.after_decision(
                decision(self.state(), self.config(), latest, now),
                now,
            ),
            (LivePhase::LogsBloom { to_block }, LiveStep::LogsBloom(true)) => self.after_decision(
                limited_request(to_block, to_block, self.config().max_block_range),
                0,
            ),
            (LivePhase::LogsBloom { to_block }, LiveStep::LogsBloom(false)) => if to_block
                == u64::MAX {
                self.in_phase(LivePhase::Ended)
            } else {
                self.with_state(skipped(self.state(), to_block)).next_turn()
            },
            (LivePhase::Permit { to_block }, LiveStep::Permit(true)) => self.in_phase(
                LivePhase::Logs { to_block },
            ),
            (_, LiveStep::Permit(false)) => self.next_turn(),
            (LivePhase::Logs { to_block }, LiveStep::Logs(last)) => self.with_delay(
                INITIAL_RETRY_DELAY,
            ).in_phase(LivePhase::Handling { to_block, last }),
            (LivePhase::Handling { to_block, last }, LiveStep::Handled(true)) => if self.is_dependency_mode {
                self.in_phase(LivePhase::Task { to_block, last })
            } else {
                self.after_handling(to_block, last)
            },
            (LivePhase::Task { to_block, last }, LiveStep::Task(true)) => self.after_handling(
                to_block,
                last,
            ),
            _ => self.backed_off(),
        }
    }
}

impl View for LiveIndexing {
    type V = LiveView;

    closed spec fn view(&self) -> LiveView {
        LiveView {
            configs: self.configs@,
            is_dependency_mode: self.is_dependency_mode,
            states: self.states@,
            error_retry_delay: self.error_retry_delay,
            position: self.position,
            phase: self.phase,
        }
    }
}

impl LiveIndexing {
    /// Each topic has one state.
    pub closed spec fn states_wf(self) -> bool {
        self.states.wf()
    }

    /// The invariant of live indexing.
    pub open spec fn wf(self) -> bool {
        self.states_wf() && self@.wf()
    }

    /// Passes the turn to the first event at or after `from` that has a state.
    fn take_turn(&mut self, from: usize) -> (action: LiveAction)
        requires
            old(self).states_wf(),
            old(self)@.configs.len() <= usize::MAX,
            INITIAL_RETRY_DELAY <= old(self)@.error_retry_delay <= MAX_RETRY_DELAY,
        ensures
            final(self).wf(),
            final(self)@ == old(self)@.turn_from(from as int),
            action == final(self)@.request(),
            action matches LiveAction::GetLatestBlock { event } ==> {
                &&& from <= event < old(self)@.configs.len()
                &&& final(self)@.position == event
                &&& final(self)@.states.contains_key(old(self)@.configs[event as int].topic_id)
                &&& forall|j: int|
                    from <= j < event ==> !final(self)@.states.contains_key(
                        (#[trigger] old(self)@.configs[j]).topic_id,
                    )
            },
            action matches LiveAction::Sleep { millis } ==> {
                &&& millis == 100
                &&& forall|j: int|
                    from <= j < old(self)@.configs.len() ==> !final(self)@.states.contains_key(
                        (#[trigger] old(self)@.configs[j]).topic_id,
                    )
            },
            action is GetLatestBlock || action is Sleep,
            final(self)@.states == old(self)@.states,
    {
        let mut next: usize = from;
        while next < self.configs.len()
            invariant
                *self == *old(self),
                self.states.wf(),
                self@ == old(self)@,
                next_event(self@.configs, self@.states, next as int) == next_event(
                    self@.configs,
                    self@.states,
                    from as int,
                ),
                from <= next,
                forall|j: int|
                    from <= j < next ==> !self@.states.contains_key(
                        (#[trigger] self@.configs[j]).topic_id,
                    ),
            ensures
                from <= next,
                forall|j: int|
                    from <= j < next ==> !self@.states.contains_key(
                        (#[trigger] self@.configs[j]).topic_id,
                    ),
                next >= self@.configs.len() ==> forall|j: int|
                    from <= j < self@.configs.len() ==> !self@.states.contains_key(
                        (#[trigger] self@.configs[j]).topic_id,
                    ),
                next_event(self@.configs, self@.states, from as int) == if next
                    < self@.configs.len() {
                    next as int
                } else {
                    self@.configs.len() as int
                },
                next < self@.configs.len() ==> self@.states.contains_key(
                    self@.configs[next as int].topic_id,
                ),
            decreases self.configs@.len() - next,
        {
            if self.states.get(self.configs[next].topic_id).is_some() {
                break ;
            }
            next += 1;
        }
        if next < self.configs.len() {
            self.position = next;
            self.phase = LivePhase::LatestBlock;
            LiveAction::GetLatestBlock { event: next }
        } else {
            self.position = 0;
            self.phase = LivePhase::Pause;
            LiveAction::Sleep { millis: PASS_INTERVAL }
        }
    }

    /// Waits as long as is due after an error, and longer after the next one.
    fn back_off(&mut self) -> (action: LiveAction)
        requires
            old(self).wf(),
            !(old(self)@.phase is Pause),
        ensures
            final(self).wf(),
            final(self)@ == old(self)@.backed_off(),
            action == old(self)@.backoff(),
            action == (LiveAction::Sleep { millis: old(self)@.error_retry_delay }),
            final(self)@.error_retry_delay == if 2 * old(self)@.error_retry_delay < 60_000 {
                2 * old(self)@.error_retry_delay
            } else {
                60_000
            },
            final(self)@.phase == LivePhase::Interlude,
            final(self)@.states == old(self)@.states,
            final(self)@.position == old(self)@.position,
            final(self)@.configs == old(self)@.configs,
            final(self)@.is_dependency_mode == old(self)@.is_dependency_mode,
    {
        let millis = self.error_retry_delay;
        self.error_retry_delay =
        if 2 * millis <= MAX_RETRY_DELAY {
            2 * millis
        } else {
            MAX_RETRY_DELAY
        };
        self.phase = LivePhase::Interlude;
        LiveAction::Sleep { millis }
    }

    /// Fails.
    fn abort(&mut self, fault: Fault) -> (action: LiveAction)
        requires
            old(self).wf(),
            !(old(self)@.phase is Pause),
        ensures
            final(self).wf(),
            final(self)@ == old(self)@.in_phase(LivePhase::Ended),
            action == LiveAction::Abort(fault),
    {
        self.phase = LivePhase::Ended;
        LiveAction::Abort(fault)
    }

    /// How far the event whose turn it is has been indexed.
    fn current_state(&self) -> (state: LiveIndexingState)
        requires
            self.wf(),
            !(self@.phase is Pause),
        ensures
            state == self@.state(),
    {
        self.states.get(self.configs[self.position].topic_id).unwrap()
    }

    /// Keeps the state of the event whose turn it is and passes the turn on.
    fn commit(&mut self, state: LiveIndexingState) -> (action: LiveAction)
        requires
            old(self).wf(),
            !(old(self)@.phase is Pause),
        ensures
            final(self).wf(),
            final(self)@ == old(self)@.with_state(state).next_turn(),
            action == final(self)@.request(),
    {
        let topic = self.configs[self.position].topic_id;
        self.states.insert(topic, state);
        let from: usize = self.position + 1;
        self.take_turn(from)
    }

    /// Goes on with what was decided for the event whose turn it is.
    fn follow(&mut self, decided: LiveDecision, now: u64) -> (action: LiveAction)
        requires
            old(self).wf(),
            !(old(self)@.phase is Pause),
            decided matches LiveDecision::CheckLogsBloom { to_block }
                ==> old(self)@.state().filter.from_block == to_block,
        ensures
            final(self).wf(),
            final(self)@ == old(self)@.after_decision(decided, now),
            action == old(self)@.asked_by_decision(decided),
    {
        let event = self.position;
        match decided {
            LiveDecision::NothingNew => self.take_turn(event + 1),
            LiveDecision::NotSafeYet => self.take_turn(event + 1),
            LiveDecision::ReportNothingNew => {
                let mut state = self.current_state();
                state.last_no_new_block_log_time = now;
                let topic = self.configs[event].topic_id;
                self.states.insert(topic, state);
                self.phase = LivePhase::Interlude;
                LiveAction::ReportNothingNew { event }
            },
            LiveDecision::CheckLogsBloom { to_block } => {
                self.phase = LivePhase::LogsBloom { to_block };
                LiveAction::CheckLogsBloom { event }
            },
            LiveDecision::Request { to_block } => {
                self.phase = LivePhase::Permit { to_block };
                LiveAction::AcquirePermit { event }
            },
            LiveDecision::Abort(fault) => self.abort(fault),
        }
    }

    /// Goes on after a wait or a report: a new pass begins, or the turn passes on.
    pub fn on_resumed(&mut self) -> (action: LiveAction)
        requires
            old(self).wf(),
            old(self)@.phase is Pause || old(self)@.phase is Interlude,
        ensures
            final(self).wf(),
            final(self)@ == if old(self)@.phase is Pause {
                old(self)@.turn_from(0)
            } else {
                old(self)@.next_turn()
            },
            action == final(self)@.request(),
            final(self)@ == old(self)@.after(LiveStep::Resumed),
            final(self)@.states == old(self)@.states,
            old(self)@.phase is Pause ==> {
                &&& action matches LiveAction::GetLatestBlock { event } ==> forall|j: int|
                    0 <= j < event ==> !old(self)@.states.contains_key(
                        (#[trigger] old(self)@.configs[j]).topic_id,
                    )
                &&& action is Sleep ==> forall|j: int|
                    0 <= j < old(self)@.configs.len() ==> !old(self)@.states.contains_key(
                        (#[trigger] old(self)@.configs[j]).topic_id,
                    )
            },
            old(self)@.phase is Interlude ==> {
                &&& action matches LiveAction::GetLatestBlock { event } ==> {
                    &&& event > old(self)@.position
                    &&& forall|j: int|
                        old(self)@.position < j < event ==> !old(self)@.states.contains_key(
                            (#[trigger] old(self)@.configs[j]).topic_id,
                        )
                }
                &&& action is Sleep ==> forall|j: int|
                    old(self)@.position < j < old(self)@.configs.len() ==> !old(
                        self,
                    )@.states.contains_key((#[trigger] old(self)@.configs[j]).topic_id)
            },
            action is GetLatestBlock || action == (LiveAction::Sleep { millis: 100 }),
    {
        match self.phase {
            LivePhase::Pause => self.take_turn(0),
            _ => {
                let from: usize = self.position + 1;
                self.take_turn(from)
            },
        }
    }

    /// Goes on with the head of the chain, which came at time `now`.
    pub fn on_latest_block(&mut self, latest: LatestBlock, now: u64) -> (action: LiveAction)
        requires
            old(self).wf(),
            old(self)@.phase is LatestBlock,
        ensures
            final(self).wf(),
            match latest {
                LatestBlock::Number(latest) => {
                    let decided = decision(old(self)@.state(), old(self)@.config(), latest, now);
                    &&& final(self)@ == old(self)@.after_decision(decided, now)
                    &&& action == old(self)@.asked_by_decision(decided)
                },
                _ => {
                    &&& final(self)@ == old(self)@.backed_off()
                    &&& action == old(self)@.backoff()
                },
            },
            final(self)@ == old(self)@.after(LiveStep::LatestBlock(latest, now)),
            !(latest is Number) ==> {
                &&& action == LiveAction::Sleep { millis: old(self)@.error_retry_delay }
                &&& final(self)@.error_retry_delay == if 2 * old(self)@.error_retry_delay < 60_000 {
                    2 * old(self)@.error_retry_delay
                } else {
                    60_000
                }
                &&& final(self)@.phase == LivePhase::Interlude
                &&& final(self)@.states == old(self)@.states
                &&& final(self)@.position == old(self)@.position
                &&& final(self)@.configs == old(self)@.configs
                &&& final(self)@.is_dependency_mode == old(self)@.is_dependency_mode
            },
            final(self)@.configs == old(self)@.configs,
            final(self)@.is_dependency_mode == old(self)@.is_dependency_mode,
            !(action is ReportNothingNew) ==> final(self)@.states == old(self)@.states,
            action matches LiveAction::AcquirePermit { event } ==> event == old(self)@.position,
            action matches LiveAction::CheckLogsBloom { event } ==> event == old(self)@.position,
            action matches LiveAction::ReportNothingNew { event } ==> {
                let topic = old(self)@.configs[event as int].topic_id;
                &&& event == old(self)@.position
                &&& latest == LatestBlock::Number(old(self)@.states[topic].last_seen_block_number)
                &&& now - old(self)@.states[topic].last_no_new_block_log_time >= 300_000_000_000
                &&& final(self)@.states == old(self)@.states.insert(
                    topic,
                    LiveIndexingState {
                        filter: old(self)@.states[topic].filter,
                        last_seen_block_number: old(self)@.states[topic].last_seen_block_number,
                        last_no_new_block_log_time: now,
                    },
                )
            },
    {
        match latest {
            LatestBlock::Number(latest) => {
                let state = self.current_state();
                let decided = decide(&state, &self.configs[self.position], latest, now);
                self.follow(decided, now)
            },
            _ => self.back_off(),
        }
    }

    /// Goes on with what the bloom filter of the head says: where no logs of the event are to be
    /// expected, the block is skipped.
    pub fn on_logs_bloom(&mut self, relevant: bool) -> (action: LiveAction)
        requires
            old(self).wf(),
            old(self)@.phase is LogsBloom,
        ensures
            final(self).wf(),
            ({
                let to_block = old(self)@.phase->LogsBloom_to_block;
                let state = old(self)@.state();
                if relevant {
                    let decided = limited_request(
                        to_block,
                        to_block,
                        old(self)@.config().max_block_range,
                    );
                    &&& final(self)@ == old(self)@.after_decision(decided, 0)
                    &&& action == old(self)@.asked_by_decision(decided)
                } else if to_block == u64::MAX {
                    &&& final(self)@ == old(self)@.in_phase(LivePhase::Ended)
                    &&& action == LiveAction::Abort(Fault::ArithmeticOverflow)
                } else {
                    &&& final(self)@ == old(self)@.with_state(skipped(state, to_block)).next_turn()
                    &&& action == final(self)@.request()
                }
            }),
            final(self)@ == old(self)@.after(LiveStep::LogsBloom(relevant)),
    {
        let to_block: u64 = match self.phase {
            LivePhase::LogsBloom { to_block } => to_block,
            _ => 0,
        };
        let mut state = self.current_state();
        if relevant {
            let max_block_range = self.configs[self.position].max_block_range;
            let decided = limit_request(state.filter.from_block, to_block, max_block_range);
            return self.follow(decided, 0);
        }
        if to_block == u64::MAX {
            return self.abort(Fault::ArithmeticOverflow);
        }
        state.filter.from_block = to_block + 1;
        state.last_seen_block_number = to_block;
        self.commit(state)
    }

    /// Goes on once a permit has been acquired, or acquiring it has failed. Without a permit the
    /// turn passes on.
    pub fn on_permit(&mut self, acquired: bool) -> (action: LiveAction)
        requires
            old(self).wf(),
            old(self)@.phase is Permit,
        ensures
            final(self).wf(),
            ({
                let to_block = old(self)@.phase->Permit_to_block;
                if acquired {
                    &&& final(self)@ == old(self)@.in_phase(LivePhase::Logs { to_block })
                    &&& action == (LiveAction::GetLogs {
                        event: old(self)@.position,
                        filter: RindexerEventFilter {
                            from_block: old(self)@.state().filter.from_block,
                            to_block,
                        },
                    })
                } else {
                    &&& final(self)@ == old(self)@.next_turn()
                    &&& action == final(self)@.request()
                }
            }),
            final(self)@ == old(self)@.after(LiveStep::Permit(acquired)),
            final(self)@.states == old(self)@.states,
            acquired ==> (action matches LiveAction::GetLogs { event, filter } && {
                &&& event == old(self)@.position
                &&& filter.from_block == old(
                    self,
                )@.states[old(self)@.configs[event as int].topic_id].filter.from_block
                &&& filter.to_block == old(self)@.phase->Permit_to_block
            }),
    {
        let event = self.position;
        let to_block: u64 = match self.phase {
            LivePhase::Permit { to_block } => to_block,
            _ => 0,
        };
        if !acquired {
            return self.take_turn(event + 1);
        }
        let from_block = self.current_state().filter.from_block;
        self.phase = LivePhase::Logs { to_block };
        LiveAction::GetLogs { event, filter: RindexerEventFilter { from_block, to_block } }
    }

    /// Goes on with the logs of the requested blocks: they are to be handled with the range. The
    /// wait after an error is short again.
    pub fn on_logs<T>(&mut self, logs: Vec<WrappedLog<T>>) -> (result: FetchLogsResult<T>)
        requires
            old(self).wf(),
            old(self)@.phase is Logs,
        ensures
            final(self).wf(),
            ({
                let to_block = old(self)@.phase->Logs_to_block;
                &&& final(self)@ == old(self)@.with_delay(INITIAL_RETRY_DELAY).in_phase(
                    LivePhase::Handling { to_block, last: last_log(logs@) },
                )
                &&& result == (FetchLogsResult {
                    logs,
                    from_block: old(self)@.state().filter.from_block,
                    to_block,
                })
            }),
            final(self)@ == old(self)@.after(LiveStep::Logs(last_log(logs@))),
            final(self)@.error_retry_delay == 200,
            result.logs == logs,
            result.to_block == old(self)@.phase->Logs_to_block,
            result.from_block == old(
                self,
            )@.states[old(self)@.configs[old(self)@.position as int].topic_id].filter.from_block,
            final(self)@.states == old(self)@.states,
    {
        let to_block: u64 = match self.phase {
            LivePhase::Logs { to_block } => to_block,
            _ => 0,
        };
        let from_block = self.current_state().filter.from_block;
        self.error_retry_delay = INITIAL_RETRY_DELAY;
        self.phase = LivePhase::Handling { to_block, last: last_log_of(&logs) };
        FetchLogsResult { logs, from_block, to_block }
    }

    /// Goes on once the request for logs has failed.
    pub fn on_logs_error(&mut self) -> (action: LiveAction)
        requires
            old(self).wf(),
            old(self)@.phase is Logs,
        ensures
            final(self).wf(),
            final(self)@ == old(self)@.backed_off(),
            action == old(self)@.backoff(),
            final(self)@ == old(self)@.after(LiveStep::LogsFailed),
            action == (LiveAction::Sleep { millis: old(self)@.error_retry_delay }),
            final(self)@.error_retry_delay == if 2 * old(self)@.error_retry_delay < 60_000 {
                2 * old(self)@.error_retry_delay
            } else {
                60_000
            },
            final(self)@.phase == LivePhase::Interlude,
            final(self)@.states == old(self)@.states,
            final(self)@.position == old(self)@.position,
            final(self)@.configs == old(self)@.configs,
            final(self)@.is_dependency_mode == old(self)@.is_dependency_mode,
    {
        self.back_off()
    }

    /// Keeps how far the event has been indexed once the logs up to `to_block` are handled.
    fn finish(&mut self, to_block: u64, last: LastLog) -> (action: LiveAction)
        requires
            old(self).wf(),
            !(old(self)@.phase is Pause),
        ensures
            final(self).wf(),
            final(self)@ == old(self)@.after_handling(to_block, last),
            action == old(self)@.asked_by_handling(to_block, last),
    {
        let past: u64 = match last {
            LastLog::Absent => to_block,
            LastLog::At(block) => block,
            LastLog::Unnumbered => {
                return self.back_off();
            },
        };
        if past == u64::MAX {
            return self.abort(Fault::ArithmeticOverflow);
        }
        let mut state = self.current_state();
        state.last_seen_block_number = to_block;
        state.filter = RindexerEventFilter { from_block: past + 1, to_block };
        self.commit(state)
    }

    /// Goes on once the logs have been handed over for handling, or that has failed. Where order
    /// matters, the task that handles them is waited for.
    pub fn on_handled(&mut self, handled: bool) -> (action: LiveAction)
        requires
            old(self).wf(),
            old(self)@.phase is Handling,
        ensures
            final(self).wf(),
            ({
                let to_block = old(self)@.phase->Handling_to_block;
                let last = old(self)@.phase->Handling_last;
                if !handled {
                    &&& final(self)@ == old(self)@.backed_off()
                    &&& action == old(self)@.backoff()
                } else if old(self)@.is_dependency_mode {
                    &&& final(self)@ == old(self)@.in_phase(LivePhase::Task { to_block, last })
                    &&& action == LiveAction::AwaitTask { event: old(self)@.position }
                } else {
                    &&& final(self)@ == old(self)@.after_handling(to_block, last)
                    &&& action == old(self)@.asked_by_handling(to_block, last)
                }
            }),
            final(self)@ == old(self)@.after(LiveStep::Handled(handled)),
            !handled ==> {
                &&& action == LiveAction::Sleep { millis: old(self)@.error_retry_delay }
                &&& final(self)@.error_retry_delay == if 2 * old(self)@.error_retry_delay < 60_000 {
                    2 * old(self)@.error_retry_delay
                } else {
                    60_000
                }
                &&& final(self)@.phase == LivePhase::Interlude
                &&& final(self)@.states == old(self)@.states
                &&& final(self)@.position == old(self)@.position
                &&& final(self)@.configs == old(self)@.configs
                &&& final(self)@.is_dependency_mode == old(self)@.is_dependency_mode
            },
    {
        if !handled {
            return self.back_off();
        }
        match self.phase {
            LivePhase::Handling { to_block, last } => {
                if self.is_dependency_mode {
                    self.phase = LivePhase::Task { to_block, last };
                    LiveAction::AwaitTask { event: self.position }
                } else {
                    self.finish(to_block, last)
                }
            },
            _ => self.back_off(),
        }
    }

    /// Goes on once the task that handles the logs has ended, in order or not.
    pub fn on_task(&mut self, completed: bool) -> (action: LiveAction)
        requires
            old(self).wf(),
            old(self)@.phase is Task,
        ensures
            final(self).wf(),
            if completed {
                let to_block = old(self)@.phase->Task_to_block;
                let last = old(self)@.phase->Task_last;
                &&& final(self)@ == old(self)@.after_handling(to_block, last)
                &&& action == old(self)@.asked_by_handling(to_block, last)
            } else {
                &&& final(self)@ == old(self)@.backed_off()
                &&& action == old(self)@.backoff()
            },
            final(self)@ == old(self)@.after(LiveStep::Task(completed)),
            !completed ==> {
                &&& action == LiveAction::Sleep { millis: old(self)@.error_retry_delay }
                &&& final(self)@.error_retry_delay == if 2 * old(self)@.error_retry_delay < 60_000 {
                    2 * old(self)@.error_retry_delay
                } else {
                    60_000
                }
                &&& final(self)@.phase == LivePhase::Interlude
                &&& final(self)@.states == old(self)@.states
                &&& final(self)@.position == old(self)@.position
                &&& final(self)@.configs == old(self)@.configs
                &&& final(self)@.is_dependency_mode == old(self)@.is_dependency_mode
            },
    {
        match self.phase {
            LivePhase::Task { to_block, last } if completed => self.finish(to_block, last),
            _ => self.back_off(),
        }
    }

    /// How far the events of a topic have been indexed.
    pub fn state_of(&self, topic: TopicId) -> (state: Option<LiveIndexingState>)
        requires
            self.wf(),
        ensures
            state == if self@.states.contains_key(topic) {
                Some(self@.states[topic])
            } else {
                None
            },
    {
        self.states.get(topic)
    }
}

/// Starts to index new blocks for the events of `configs` and says what to do first. `filters`
/// holds the range of blocks that is already indexed for each event, where its filter could be
/// built; an event without one has no state of its own. In dependency mode the logs of one
/// request are handled before the next one.
pub fn live_indexing_stream(
    configs: Vec<EventProcessingConfig>,
    filters: &Vec<Option<RindexerEventFilter>>,
    is_dependency_mode: bool,
    now: u64,
) -> (started: (LiveIndexing, LiveAction))
    requires
        filters@.len() == configs@.len(),
        forall|i: int|
            0 <= i < filters@.len() ==> (#[trigger] filters@[i] matches Some(filter)
                ==> filter.to_block < u64::MAX),
    ensures
        started.0.wf(),
        started.0@ == (LiveView {
            configs: configs@,
            is_dependency_mode,
            states: initial_states(configs@, filters@, configs@.len() as int, now),
            error_retry_delay: INITIAL_RETRY_DELAY,
            position: 0,
            phase: LivePhase::Pause,
        }),
        started.1 == (LiveAction::Sleep { millis: PASS_INTERVAL }),
        started.1 == (LiveAction::Sleep { millis: 100 }),
        started.0@.error_retry_delay == 200,
        forall|topic: TopicId| #[trigger]
            started.0@.states.contains_key(topic) <==> exists|i: int|
                0 <= i < configs@.len() && (#[trigger] configs@[i]).topic_id == topic
                    && filters@[i] is Some,
        forall|i: int|
            0 <= i < configs@.len() && filters@[i] is Some && (forall|j: int|
                i < j < configs@.len() && (#[trigger] configs@[j]).topic_id == configs@[i].topic_id
                    ==> filters@[j] is None) ==> {
                let state = started.0@.states[(#[trigger] configs@[i]).topic_id];
                &&& state.filter.from_block == filters@[i]->0.to_block + 1
                &&& state.filter.to_block == filters@[i]->0.to_block + 1
                &&& state.last_seen_block_number == filters@[i]->0.to_block
                &&& state.last_no_new_block_log_time == now
            },
{
    let mut states = LiveStates::new();
    let mut i: usize = 0;
    while i < configs.len()
        invariant
            i <= configs@.len(),
            filters@.len() == configs@.len(),
            forall|i: int|
                0 <= i < filters@.len() ==> (#[trigger] filters@[i] matches Some(filter)
                    ==> filter.to_block < u64::MAX),
            states.wf(),
            states@ == initial_states(configs@, filters@, i as int, now),
        decreases configs@.len() - i,
    {
        if let Some(filter) = filters[i] {
            let last_seen_block_number = filter.to_block;
            let next_block_number: u64 = last_seen_block_number + 1;
            let state = LiveIndexingState {
                filter: RindexerEventFilter {
                    from_block: next_block_number,
                    to_block: next_block_number,
                },
                last_seen_block_number,
                last_no_new_block_log_time: now,
            };
            states.insert(configs[i].topic_id, state);
        }
        i += 1;
    }
    proof {
        let n = configs@.len() as int;
        assert forall|topic: TopicId| #[trigger]
            states@.contains_key(topic) <==> exists|i: int|
                0 <= i < n && (#[trigger] configs@[i]).topic_id == topic && filters@[i] is Some by {
            law_topics_with_a_range_have_a_state(configs@, filters@, n, now, topic);
        }
        assert forall|i: int|
            0 <= i < n && filters@[i] is Some && (forall|j: int|
                i < j < n && (#[trigger] configs@[j]).topic_id == configs@[i].topic_id
                    ==> filters@[j] is None) implies {
            let state = states@[(#[trigger] configs@[i]).topic_id];
            &&& state.filter.from_block == filters@[i]->0.to_block + 1
            &&& state.filter.to_block == filters@[i]->0.to_block + 1
            &&& state.last_seen_block_number == filters@[i]->0.to_block
            &&& state.last_no_new_block_log_time == now
        } by {
            law_last_event_of_a_topic_counts(configs@, filters@, n, now, i, filters@[i]->0);
        }
    }
    let live = LiveIndexing {
        configs,
        is_dependency_mode,
        states,
        error_retry_delay: INITIAL_RETRY_DELAY,
        position: 0,
        phase: LivePhase::Pause,
    };
    (live, LiveAction::Sleep { millis: PASS_INTERVAL })
}

} // verus!
