//! What holds of the indexer as a whole.

use crate::config::{EventProcessingConfig, TopicId};
use crate::fetch_logs::{
    capped_to_block, halved, historic_step, limit_fits, next_from_block, range_after_error,
    range_after_logs, Fault, HistoricPhase, HistoricStep, HistoricSync, LastLog,
    RindexerEventFilter,
};
use crate::live::{
    advanced, decision, limited_request, next_delay, next_event, LatestBlock, LiveDecision,
    LiveIndexingState, LivePhase, LiveStep, LiveView, INITIAL_RETRY_DELAY, MAX_RETRY_DELAY,
};
use crate::process::{
    first_contract_error, first_error, levels, live_of, EventsDependencyTree, LevelOutcome,
    ProcessContractEventsWithDependenciesError,
};
use crate::retry::{error_hints, retry_range, BlockNumber, JsonRpcError, ProviderHints};
use vstd::arithmetic::power2::{lemma2_to64, lemma_pow2_unfold, pow2};
use vstd::prelude::*;

verus! {

/// A new range ends at the snapshot at the latest, holds no more blocks than the limit allows, and
/// holds a block unless the limit is nothing.
pub proof fn law_range_keeps_to_limit_and_snapshot(
    from_block: u64,
    snapshot_to_block: u64,
    limit: Option<u64>,
)
    requires
        from_block <= snapshot_to_block,
        limit_fits(from_block, limit),
    ensures
        ({
            let to_block = capped_to_block(from_block, snapshot_to_block, limit);
            &&& to_block <= snapshot_to_block
            &&& limit matches Some(limit) ==> to_block - from_block + 1 <= limit
            &&& limit != Some(0u64) ==> from_block <= to_block
        }),
{
}

/// A delivery whose last log is not before the requested blocks moves the range forward, and the
/// new range stays within the snapshot.
pub proof fn law_delivery_moves_forward(
    last: LastLog,
    filter: RindexerEventFilter,
    snapshot_to_block: u64,
    limit: Option<u64>,
    next: RindexerEventFilter,
)
    requires
        filter.countable(),
        range_after_logs(last, filter.to_block, snapshot_to_block, limit) == Ok::<
            Option<RindexerEventFilter>,
            Fault,
        >(Some(next)),
        last matches LastLog::At(block) ==> filter.from_block <= block,
    ensures
        filter.from_block < next.from_block <= snapshot_to_block,
        next.to_block <= snapshot_to_block,
{
}

/// A delivery whose last log is not past the requested blocks leaves no block out: the next range
/// starts right behind the delivered one at the latest.
pub proof fn law_delivery_leaves_no_gap(
    last: LastLog,
    filter: RindexerEventFilter,
    snapshot_to_block: u64,
    limit: Option<u64>,
    next: RindexerEventFilter,
)
    requires
        range_after_logs(last, filter.to_block, snapshot_to_block, limit) == Ok::<
            Option<RindexerEventFilter>,
            Fault,
        >(Some(next)),
        last matches LastLog::At(block) ==> block <= filter.to_block,
    ensures
        next.from_block <= filter.to_block + 1,
{
}

/// Without a proposal of the provider and without a number of blocks from it, a retry starts where
/// the failed request did and ends before it did.
pub proof fn law_fallback_retry_shrinks(hints: ProviderHints, from_block: u64, to_block: u64)
    requires
        hints.suggested is None,
        !hints.too_wide,
        hints.limited_to is None,
        !hints.too_large,
        from_block < to_block,
    ensures
        retry_range(hints, from_block, to_block) matches Some(retry) && {
            &&& retry.from == BlockNumber::Number(from_block)
            &&& retry.to matches BlockNumber::Number(end) && from_block <= end < to_block
        },
{
}

/// Only a proposal of the provider moves the first block of a range after an error.
pub proof fn law_error_keeps_first_block(
    response: Option<JsonRpcError>,
    filter: RindexerEventFilter,
    limit: Option<u64>,
)
    requires
        response matches Some(error) ==> error_hints(error).suggested is None,
    ensures
        range_after_error(response, filter, limit).from_block == filter.from_block,
{
}

/// Half the limit never makes a range longer, and never empties it.
pub proof fn law_halving_never_grows(filter: RindexerEventFilter, limit: u64)
    requires
        filter.countable(),
    ensures
        halved(filter, limit).from_block == filter.from_block,
        filter.from_block <= halved(filter, limit).to_block <= filter.to_block,
{
}

/// A run of historic indexing: `steps[i]` takes it from `states[i]` to the next state.
pub open spec fn is_historic_run(states: Seq<HistoricSync>, steps: Seq<HistoricStep>) -> bool {
    &&& states.len() == steps.len() + 1
    &&& forall|i: int|
        0 <= i < steps.len() ==> #[trigger] historic_step(states[i], steps[i], states[i + 1])
}

/// The logs of `block` were delivered in one of the first `n` steps.
pub open spec fn delivered(
    states: Seq<HistoricSync>,
    steps: Seq<HistoricStep>,
    n: int,
    block: int,
) -> bool {
    exists|i: int|
        0 <= i < n && #[trigger] steps[i] is Delivered && states[i].current_filter.from_block
            <= block <= states[i].current_filter.to_block
}

/// No error proposed bounds, and no last log was past the blocks that were requested.
pub open spec fn is_plain_run(states: Seq<HistoricSync>, steps: Seq<HistoricStep>) -> bool {
    forall|i: int|
        0 <= i < steps.len() ==> {
            &&& #[trigger] steps[i] matches HistoricStep::LogsFailed(Some(error)) ==> error_hints(
                error,
            ).suggested is None
            &&& steps[i] is Delivered ==> (states[i].phase matches HistoricPhase::Delivery(
                LastLog::At(block),
            ) ==> block <= states[i].current_filter.to_block)
        }
}

/// Up to any state of a run, the blocks before the current range have been delivered.
pub proof fn law_blocks_before_the_range_are_delivered(
    states: Seq<HistoricSync>,
    steps: Seq<HistoricStep>,
    n: int,
)
    requires
        is_historic_run(states, steps),
        is_plain_run(states, steps),
        0 <= n <= steps.len(),
        states[0].current_filter.from_block <= states[0].snapshot_to_block,
    ensures
        forall|block: int|
            states[0].current_filter.from_block <= block < states[n].current_filter.from_block
                ==> #[trigger] delivered(states, steps, n, block),
        states[n].snapshot_to_block == states[0].snapshot_to_block,
        states[n].current_filter.from_block <= states[n].snapshot_to_block,
    decreases n,
{
    if n > 0 {
        law_blocks_before_the_range_are_delivered(states, steps, n - 1);
        let before = states[n - 1];
        let after = states[n];
        assert(historic_step(states[n - 1], steps[n - 1], states[n - 1 + 1]));
        assert forall|block: int|
            states[0].current_filter.from_block <= block
                < after.current_filter.from_block implies #[trigger] delivered(
            states,
            steps,
            n,
            block,
        ) by {
            if block < before.current_filter.from_block {
                assert(delivered(states, steps, n - 1, block));
            } else {
                assert(steps[n - 1] is Delivered);
            }
        }
    }
}

/// A run that ends because the snapshot is reached has delivered every block from the first one to
/// the snapshot.
pub proof fn law_finished_run_delivers_every_block(
    states: Seq<HistoricSync>,
    steps: Seq<HistoricStep>,
    block: int,
)
    requires
        is_historic_run(states, steps),
        is_plain_run(states, steps),
        steps.len() > 0,
        states[0].current_filter.from_block <= block <= states[0].snapshot_to_block,
        steps.last() is Delivered,
        states[steps.len() - 1].phase matches HistoricPhase::Delivery(last) && range_after_logs(
            last,
            states[steps.len() - 1].current_filter.to_block,
            states[steps.len() - 1].snapshot_to_block,
            states.last().block_range_limitation,
        ) == Ok::<Option<RindexerEventFilter>, Fault>(None),
    ensures
        delivered(states, steps, steps.len() as int, block),
{
    let n = steps.len() - 1;
    law_blocks_before_the_range_are_delivered(states, steps, n);
    assert(steps[n] is Delivered);
    if block < states[n].current_filter.from_block {
        assert(delivered(states, steps, n, block));
    }
}

/// How many of the first `n` steps delivered logs.
pub open spec fn deliveries(steps: Seq<HistoricStep>, n: int) -> nat
    decreases n,
{
    if n <= 0 {
        0
    } else if steps[n - 1] is Delivered {
        deliveries(steps, n - 1) + 1
    } else {
        deliveries(steps, n - 1)
    }
}

/// Historic indexing does not deliver for ever: where no error proposed bounds and no last log was
/// before the blocks that were requested, there are no more deliveries than blocks.
pub proof fn law_deliveries_are_bounded(
    states: Seq<HistoricSync>,
    steps: Seq<HistoricStep>,
    n: int,
)
    requires
        is_historic_run(states, steps),
        0 <= n <= steps.len(),
        states[0].wf(),
        states[0].phase is Permit,
        forall|i: int|
            0 <= i < steps.len() ==> {
                &&& #[trigger] steps[i] matches HistoricStep::LogsFailed(Some(error))
                    ==> error_hints(error).suggested is None
                &&& steps[i] is Delivered ==> (states[i].phase matches HistoricPhase::Delivery(
                    LastLog::At(block),
                ) ==> states[i].current_filter.from_block <= block)
            },
    ensures
        states[n].wf(),
        states[n].snapshot_to_block == states[0].snapshot_to_block,
        states[n].current_filter.from_block <= states[n].snapshot_to_block,
        deliveries(steps, n) <= states[n].current_filter.from_block
            - states[0].current_filter.from_block + if states[n].phase is Ended {
            1int
        } else {
            0int
        },
        deliveries(steps, n) <= states[0].snapshot_to_block
            - states[0].current_filter.from_block + 1,
    decreases n,
{
    if n > 0 {
        law_deliveries_are_bounded(states, steps, n - 1);
        assert(historic_step(states[n - 1], steps[n - 1], states[n - 1 + 1]));
    }
}

/// What is asked of the provider for a new head is safe from a reorganisation: the last block is
/// at least the configured distance behind the head. The request starts at the next block, holds no
/// more blocks than the provider's limit allows, and holds a block unless that limit is nothing.
pub proof fn law_live_requests_are_safe(
    state: LiveIndexingState,
    config: EventProcessingConfig,
    latest: u64,
    now: u64,
)
    ensures
        decision(state, config, latest, now) matches LiveDecision::Request { to_block } ==> {
            &&& to_block + config.indexing_distance_from_head <= latest
            &&& config.max_block_range matches Some(max) ==> to_block - state.filter.from_block + 1
                <= max
            &&& config.max_block_range != Some(0u64) ==> state.filter.from_block <= to_block
        },
        decision(state, config, latest, now) matches LiveDecision::CheckLogsBloom { to_block } ==> {
            &&& to_block + config.indexing_distance_from_head == latest
            &&& to_block == state.filter.from_block
            &&& limited_request(
                to_block,
                to_block,
                config.max_block_range,
            ) matches LiveDecision::Request { to_block: end } ==> end <= to_block
        },
{
}

/// A head that was seen before leads to no request.
pub proof fn law_seen_head_asks_for_nothing(
    state: LiveIndexingState,
    config: EventProcessingConfig,
    now: u64,
)
    ensures
        ({
            let decided = decision(state, config, state.last_seen_block_number, now);
            decided is NothingNew || decided is ReportNothingNew
        }),
{
}

/// With bloom checks disabled no block is left to a bloom filter.
pub proof fn law_disabled_bloom_checks_are_not_made(
    state: LiveIndexingState,
    config: EventProcessingConfig,
    latest: u64,
    now: u64,
)
    requires
        config.disable_logs_bloom_checks,
    ensures
        !(decision(state, config, latest, now) is CheckLogsBloom),
{
}

/// Whatever comes of what live indexing asks for, its invariant is kept.
pub proof fn law_live_steps_keep_the_invariant(live: LiveView, step: LiveStep)
    requires
        live.wf(),
        live.expects(step),
    ensures
        live.after(step).wf(),
        live.after(step).configs == live.configs,
        live.after(step).is_dependency_mode == live.is_dependency_mode,
        live.after(step).states.dom() == live.states.dom(),
{
    assert forall|state: LiveIndexingState|
        !(live.phase is Pause) implies #[trigger] live.with_state(state).states.dom()
        =~= live.states.dom() by {}
    assert forall|states: Map<TopicId, LiveIndexingState>, from: int| from >= 0 implies ({
        let next = #[trigger] next_event(live.configs, states, from);
        next < live.configs.len() ==> 0 <= next && states.contains_key(live.configs[next].topic_id)
    }) by {
        lemma_next_event_has_state(live.configs, states, from);
    }
}

/// An event that has its turn has a state.
proof fn lemma_next_event_has_state(
    configs: Seq<EventProcessingConfig>,
    states: Map<TopicId, LiveIndexingState>,
    from: int,
)
    requires
        from >= 0,
    ensures
        ({
            let next = next_event(configs, states, from);
            next < configs.len() ==> from <= next && states.contains_key(configs[next].topic_id)
        }),
    decreases configs.len() - from,
{
    if from < configs.len() && !states.contains_key(configs[from].topic_id) {
        lemma_next_event_has_state(configs, states, from + 1);
    }
}

/// A run of live indexing: `steps[i]` takes it from `states[i]` to the next state.
pub open spec fn is_live_run(states: Seq<LiveView>, steps: Seq<LiveStep>) -> bool {
    &&& states.len() == steps.len() + 1
    &&& states[0].wf()
    &&& forall|i: int|
        #![trigger steps[i]]
        0 <= i < steps.len() ==> states[i].expects(steps[i]) && states[i + 1] == states[i].after(
            steps[i],
        )
}

/// The blocks that a step finishes for the event whose turn it is: their logs have been handled,
/// or the bloom filter of the head let them be skipped.
pub open spec fn finished_range(live: LiveView, step: LiveStep) -> Option<RindexerEventFilter> {
    let from_block = live.state().filter.from_block;
    match (live.phase, step) {
        (LivePhase::LogsBloom { to_block }, LiveStep::LogsBloom(false)) => Some(
            RindexerEventFilter { from_block, to_block },
        ),
        (LivePhase::Handling { to_block, .. }, LiveStep::Handled(
            true,
        )) if !live.is_dependency_mode => Some(RindexerEventFilter { from_block, to_block }),
        (LivePhase::Task { to_block, .. }, LiveStep::Task(true)) => Some(
            RindexerEventFilter { from_block, to_block },
        ),
        _ => None,
    }
}

/// The last log of the logs at hand is not past the blocks that were requested.
pub open spec fn last_log_in_range(live: LiveView) -> bool {
    match live.phase {
        LivePhase::Handling { to_block, last: LastLog::At(block) } => block <= to_block,
        LivePhase::Task { to_block, last: LastLog::At(block) } => block <= to_block,
        _ => true,
    }
}

/// A step moves the next block of a topic only by finishing the blocks before it.
pub proof fn law_live_step_leaves_no_gap(live: LiveView, step: LiveStep, topic: TopicId)
    requires
        live.wf(),
        live.expects(step),
        last_log_in_range(live),
        live.states.contains_key(topic),
    ensures
        ({
            let before = live.states[topic].filter.from_block;
            let after = live.after(step).states[topic].filter.from_block;
            after != before ==> {
                &&& live.config().topic_id == topic
                &&& finished_range(live, step) matches Some(range)
                &&& range.from_block == before
                &&& after <= range.to_block + 1
            }
        }),
{
}

/// The states of a run keep the invariant and the events.
proof fn lemma_live_run_keeps_the_invariant(
    states: Seq<LiveView>,
    steps: Seq<LiveStep>,
    topic: TopicId,
    n: int,
)
    requires
        is_live_run(states, steps),
        0 <= n <= steps.len(),
    ensures
        states[n].wf(),
        states[n].configs == states[0].configs,
        states[n].states.dom() == states[0].states.dom(),
        states[n].states.contains_key(topic) == states[0].states.contains_key(topic),
    decreases n,
{
    if n > 0 {
        lemma_live_run_keeps_the_invariant(states, steps, topic, n - 1);
        assert(states[n - 1].expects(steps[n - 1]));
        law_live_steps_keep_the_invariant(states[n - 1], steps[n - 1]);
        assert(states[n].states.dom().contains(topic) == states[0].states.dom().contains(topic));
    }
}

/// `block` was finished for `topic` in one of the first `n` steps.
pub open spec fn finished(
    states: Seq<LiveView>,
    steps: Seq<LiveStep>,
    topic: TopicId,
    n: int,
    block: int,
) -> bool {
    exists|i: int|
        0 <= i < n && states[i].config().topic_id == topic && (#[trigger] finished_range(
            states[i],
            steps[i],
        ) matches Some(range) && range.from_block <= block <= range.to_block)
}

/// Live indexing leaves no block out: where no last log is past the blocks that were requested,
/// each block between the first one of a topic and its next one has been finished.
pub proof fn law_live_indexing_leaves_no_gap(
    states: Seq<LiveView>,
    steps: Seq<LiveStep>,
    topic: TopicId,
    n: int,
    block: int,
)
    requires
        is_live_run(states, steps),
        forall|i: int| 0 <= i < states.len() ==> last_log_in_range(#[trigger] states[i]),
        states[0].states.contains_key(topic),
        0 <= n <= steps.len(),
        states[0].states[topic].filter.from_block <= block
            < states[n].states[topic].filter.from_block,
    ensures
        finished(states, steps, topic, n, block),
    decreases n,
{
    if n > 0 {
        lemma_live_run_keeps_the_invariant(states, steps, topic, n - 1);
        assert(states[n - 1].expects(steps[n - 1]));
        law_live_step_leaves_no_gap(states[n - 1], steps[n - 1], topic);
        if block < states[n - 1].states[topic].filter.from_block {
            law_live_indexing_leaves_no_gap(states, steps, topic, n - 1, block);
            let i = choose|i: int|
                0 <= i < n - 1 && states[i].config().topic_id == topic && (
                #[trigger] finished_range(states[i], steps[i]) matches Some(range)
                    && range.from_block <= block <= range.to_block);
            assert(finished_range(states[i], steps[i]) is Some);
        } else {
            assert(finished_range(states[n - 1], steps[n - 1]) is Some);
        }
    }
}

/// The last block that is asked for, or whose logs are at hand, on behalf of the event whose turn
/// it is.
pub open spec fn last_requested(live: LiveView) -> Option<u64> {
    match live.phase {
        LivePhase::LogsBloom { to_block } => Some(to_block),
        LivePhase::Permit { to_block } => Some(to_block),
        LivePhase::Logs { to_block } => Some(to_block),
        LivePhase::Handling { to_block, .. } => Some(to_block),
        LivePhase::Task { to_block, .. } => Some(to_block),
        _ => None,
    }
}

/// In one of the first `n` steps the provider of `event` reported a head that makes `block` safe
/// from a reorganisation.
pub open spec fn reported_safe(
    states: Seq<LiveView>,
    steps: Seq<LiveStep>,
    event: usize,
    n: int,
    block: u64,
) -> bool {
    exists|i: int|
        0 <= i < n && states[i].position == event && (#[trigger] steps[i] matches LiveStep::LatestBlock(
            LatestBlock::Number(latest),
            _,
        ) && block + states[0].configs[event as int].indexing_distance_from_head <= latest)
}

/// Live indexing asks for safe blocks only: whatever it requests and hands on was reported to be
/// at least the configured distance behind the head of the chain.
pub proof fn law_live_indexing_stays_safe(states: Seq<LiveView>, steps: Seq<LiveStep>, n: int)
    requires
        is_live_run(states, steps),
        0 <= n <= steps.len(),
        last_requested(states[0]) is None,
    ensures
        last_requested(states[n]) matches Some(block) ==> reported_safe(
            states,
            steps,
            states[n].position,
            n,
            block,
        ),
    decreases n,
{
    if n > 0 {
        law_live_indexing_stays_safe(states, steps, n - 1);
        let before = states[n - 1];
        let step = steps[n - 1];
        lemma_live_run_keeps_the_invariant(states, steps, before.config().topic_id, n - 1);
        assert(before.expects(step));
        if let Some(block) = last_requested(states[n]) {
            let event = states[n].position;
            assert(event == before.position);
            if let LiveStep::LatestBlock(LatestBlock::Number(latest), now) = step {
                law_live_requests_are_safe(before.state(), before.config(), latest, now);
                assert(steps[n - 1] is LatestBlock);
            } else {
                let earlier = last_requested(before)->0;
                assert(block <= earlier);
                let i = choose|i: int|
                    0 <= i < n - 1 && states[i].position == event && (
                    #[trigger] steps[i] matches LiveStep::LatestBlock(
                        LatestBlock::Number(latest),
                        _,
                    ) && earlier + states[0].configs[event as int].indexing_distance_from_head
                        <= latest);
                assert(steps[i] is LatestBlock);
            }
        }
    }
}

/// Handled logs, the last of which is not before the requested blocks, move an event forward.
pub proof fn law_live_indexing_moves_forward(
    state: LiveIndexingState,
    to_block: u64,
    last: LastLog,
    next: int,
)
    requires
        next_from_block(last, to_block) == Ok::<int, Fault>(next),
        next <= u64::MAX,
        state.filter.from_block <= to_block,
        last matches LastLog::At(block) ==> state.filter.from_block <= block,
    ensures
        state.filter.from_block < advanced(state, to_block, next as u64).filter.from_block,
{
}

/// Something failed in the turn of an event: its provider, the bloom filter aside, or the handling
/// of its logs.
pub open spec fn is_failure(step: LiveStep) -> bool {
    match step {
        LiveStep::LatestBlock(latest, _) => !(latest is Number),
        LiveStep::Permit(acquired) => !acquired,
        LiveStep::LogsFailed => true,
        LiveStep::Handled(handled) => !handled,
        LiveStep::Task(completed) => !completed,
        _ => false,
    }
}

/// A failure changes nothing of what has been indexed: the same blocks are next.
pub proof fn law_failure_keeps_progress(live: LiveView, step: LiveStep)
    requires
        live.wf(),
        live.expects(step),
        is_failure(step),
    ensures
        live.after(step).states == live.states,
{
}

/// Where order matters, handing logs over does not count as progress before the task that handles
/// them has run to its end.
pub proof fn law_dependency_mode_waits_for_the_task(live: LiveView, handled: bool)
    requires
        live.wf(),
        live.expects(LiveStep::Handled(handled)),
        live.is_dependency_mode,
    ensures
        live.after(LiveStep::Handled(handled)).states == live.states,
{
}

/// The wait after `n` errors in a row.
pub open spec fn delay_after(n: nat) -> u64
    decreases n,
{
    if n == 0 {
        INITIAL_RETRY_DELAY
    } else {
        next_delay(delay_after((n - 1) as nat))
    }
}

/// The wait doubles with each error in a row until it reaches its longest.
pub proof fn law_backoff_doubles_up_to_its_cap(n: nat)
    ensures
        delay_after(n) == if INITIAL_RETRY_DELAY * pow2(n) <= MAX_RETRY_DELAY {
            INITIAL_RETRY_DELAY * pow2(n)
        } else {
            MAX_RETRY_DELAY as int
        },
        INITIAL_RETRY_DELAY <= delay_after(n) <= MAX_RETRY_DELAY,
    decreases n,
{
    lemma2_to64();
    if n > 0 {
        law_backoff_doubles_up_to_its_cap((n - 1) as nat);
        lemma_pow2_unfold(n);
    }
}

/// The turn passes over no event that has a state.
pub proof fn law_turn_passes_over_stateless_events_only(live: LiveView, from: int, event: int)
    requires
        0 <= from <= event < live.configs.len() <= usize::MAX,
        live.states.contains_key(live.configs[event].topic_id),
    ensures
        ({
            let after = live.turn_from(from);
            &&& after.phase is LatestBlock
            &&& from <= after.position <= event
            &&& live.states.contains_key(live.configs[after.position as int].topic_id)
        }),
{
    lemma_next_event(live, from, event);
}

/// The next event from `from` is no later than any event from there that has a state.
proof fn lemma_next_event(live: LiveView, from: int, event: int)
    requires
        0 <= from <= event < live.configs.len(),
        live.states.contains_key(live.configs[event].topic_id),
    ensures
        from <= next_event(live.configs, live.states, from) <= event,
        live.states.contains_key(
            live.configs[next_event(live.configs, live.states, from)].topic_id,
        ),
    decreases event - from,
{
    if !live.states.contains_key(live.configs[from].topic_id) {
        lemma_next_event(live, from + 1, event);
    }
}

/// No level of dependent events is passed over or repeated: what is to come shrinks by its first
/// level each time, and that level is the one that is processed next.
pub proof fn law_levels_come_in_order(trees: Seq<Option<Box<EventsDependencyTree>>>, n: int)
    requires
        0 <= n < trees.len(),
        forall|i: int|
            0 <= i < trees.len() - 1 ==> (#[trigger] trees[i] matches Some(tree) && trees[i + 1]
                == tree.next),
    ensures
        levels(trees[n]) == levels(trees[0]).skip(n),
        trees[n] matches Some(tree) ==> n < levels(trees[0]).len() && levels(trees[0])[n]
            == tree.contract_events@,
        trees[n] is None ==> n == levels(trees[0]).len(),
    decreases n,
{
    if n > 0 {
        law_levels_come_in_order(trees, n - 1);
        assert(trees[n - 1] is Some);
        let tree = trees[n - 1]->0;
        assert(levels(trees[n - 1]).skip(1) =~= levels(tree.next));
        assert(levels(trees[0]).skip(n - 1).skip(1) =~= levels(trees[0]).skip(n));
    } else {
        assert(levels(trees[0]).skip(0) =~= levels(trees[0]));
    }
    if let Some(tree) = trees[n] {
        assert(levels(trees[n])[0] == tree.contract_events@);
        assert(levels(trees[0]).skip(n).len() > 0);
        assert(levels(trees[0]).skip(n)[0] == levels(trees[0])[n]);
    } else {
        assert(levels(trees[n]).len() == 0);
    }
}

/// A level ends without an error exactly where each of its events was processed.
pub proof fn law_level_succeeds_with_all_its_events(outcomes: Seq<LevelOutcome>)
    ensures
        first_error(outcomes) is None <==> forall|i: int|
            0 <= i < outcomes.len() ==> #[trigger] outcomes[i] matches Ok(Ok(_)),
    decreases outcomes.len(),
{
    if outcomes.len() > 0 {
        let rest = outcomes.skip(1);
        law_level_succeeds_with_all_its_events(rest);
        assert forall|i: int| 0 <= i < rest.len() implies #[trigger] rest[i] == outcomes[i + 1] by {}
        if first_error(outcomes) is None {
            assert forall|i: int| 0 <= i < outcomes.len() implies #[trigger] outcomes[i] matches Ok(
                Ok(_),
            ) by {
                if i > 0 {
                    assert(rest[i - 1] matches Ok(Ok(_)));
                }
            }
        }
        if forall|i: int| 0 <= i < outcomes.len() ==> #[trigger] outcomes[i] matches Ok(Ok(_)) {
            assert(outcomes[0] matches Ok(Ok(_)));
            assert forall|i: int| 0 <= i < rest.len() implies #[trigger] rest[i] matches Ok(
                Ok(_),
            ) by {
                assert(outcomes[i + 1] matches Ok(Ok(_)));
            }
        }
    }
}

/// Live indexing follows for the configurations of a level that were processed and ask for it, and
/// for no others.
pub proof fn law_live_indexing_follows_where_configured(
    configs: Seq<EventProcessingConfig>,
    outcomes: Seq<LevelOutcome>,
    config: usize,
)
    ensures
        live_of(configs, outcomes).contains(config) <==> configs[config as int].live_indexing
            && outcomes.contains(Ok(Ok(config))),
    decreases outcomes.len(),
{
    if outcomes.len() > 0 {
        let earlier = outcomes.drop_last();
        law_live_indexing_follows_where_configured(configs, earlier, config);
        let wanted: LevelOutcome = Ok(Ok(config));
        assert(outcomes =~= earlier.push(outcomes.last()));
        if earlier.contains(wanted) {
            let i = choose|i: int| 0 <= i < earlier.len() && earlier[i] == wanted;
            assert(outcomes[i] == wanted);
        }
        if outcomes.last() == wanted {
            assert(outcomes[outcomes.len() - 1] == wanted);
        }
        let before = live_of(configs, earlier);
        let after = live_of(configs, outcomes);
        if before.contains(config) {
            let i = choose|i: int| 0 <= i < before.len() && before[i] == config;
            assert(after[i] == config);
        }
        if outcomes.last() == wanted && configs[config as int].live_indexing {
            assert(after[after.len() - 1] == config);
        }
    }
}

/// Some contracts are processed without an error exactly where each of them is.
pub proof fn law_contracts_succeed_together(
    results: Seq<Result<Result<(), ProcessContractEventsWithDependenciesError>, String>>,
)
    ensures
        first_contract_error(results) is None <==> forall|i: int|
            0 <= i < results.len() ==> #[trigger] results[i] matches Ok(Ok(_)),
    decreases results.len(),
{
    if results.len() > 0 {
        let rest = results.skip(1);
        law_contracts_succeed_together(rest);
        if first_contract_error(results) is None {
            assert forall|i: int| 0 <= i < results.len() implies #[trigger] results[i] matches Ok(
                Ok(_),
            ) by {
                if i > 0 {
                    assert(rest[i - 1] matches Ok(Ok(_)));
                }
            }
        }
        if forall|i: int| 0 <= i < results.len() ==> #[trigger] results[i] matches Ok(Ok(_)) {
            assert(results[0] matches Ok(Ok(_)));
            assert forall|i: int| 0 <= i < rest.len() implies #[trigger] rest[i] matches Ok(
                Ok(_),
            ) by {
                assert(results[i + 1] matches Ok(Ok(_)));
            }
        }
    }
}

} // verus!
