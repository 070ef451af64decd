//! What single decisions come to, said of what goes in and what comes out.

use crate::config::{EventProcessingConfig, TopicId};
use crate::fetch_logs::{
    block_of, capped_to_block, halved, historic_step, last_log, limit_fits, limit_to_decrease,
    next_from_block, range_after_error, range_after_logs, recoverable, retry_after, Fault,
    FetchLogsResult, HistoricAction, HistoricStep, HistoricSync, LastLog, RindexerEventFilter,
    WrappedLog,
};
use crate::laws::is_historic_run;
use crate::live::{
    advanced, decision, initial_state, initial_states, limited_request, next_delay, next_event,
    requested_to_block, skipped, LatestBlock, LiveAction, LiveDecision, LiveIndexingState,
    LivePhase, LiveStep, LiveView,
};
use crate::process::{
    are_tasks_of, config_of, events_of, first_contract_error, first_error, is_config_of,
    is_task_of, levels, live_of, ContractEventMapping, EventsDependencyTree, LevelOutcome,
    LevelTask, ProcessContractEventsWithDependenciesError,
    ProcessContractsEventsWithDependenciesError, ProcessEventError, ProviderError,
};
use crate::retry::{
    block_number_text, bounds_of, captured, data_text, error_hints, groups, hints_of,
    is_hex_literal, limit_of, regex_captures, retry_fits, retry_length, retry_range, BlockBounds,
    BlockNumber, Captures, JsonRpcError, ProviderHints, RetryWithBlockRangeResult,
};
use crate::text::{
    all_digits, decimal_text, digit_value, not_separator, number, occurs, occurs_at, without,
};
use vstd::prelude::*;

verus! {

/// Historic indexing that has ended asks to finish, and live indexing follows exactly where the
/// state says so. While a permit is wanted, nothing else is asked for.
pub proof fn law_ended_indexing_hands_over_to_live(sync: HistoricSync)
    ensures
        sync.phase is Ended ==> sync.request() == (HistoricAction::Finish {
            live_indexing: sync.live_indexing,
        }),
        sync.phase is Permit ==> sync.request() == HistoricAction::AcquirePermit,
{
}

/// Historic indexing goes on with a range that starts at or before the snapshot, and finishes with
/// one that starts behind it. Everything but the range and the limit stays.
pub proof fn law_range_behind_the_snapshot_finishes(
    sync: HistoricSync,
    filter: RindexerEventFilter,
    limit: Option<u64>,
)
    ensures
        sync.at(filter, limit).current_filter == filter,
        sync.at(filter, limit).block_range_limitation == limit,
        sync.at(filter, limit).min_block_range_limitation == sync.min_block_range_limitation,
        sync.at(filter, limit).snapshot_to_block == sync.snapshot_to_block,
        sync.at(filter, limit).live_indexing == sync.live_indexing,
        sync.at(filter, limit).phase is Permit <==> filter.from_block <= sync.snapshot_to_block,
        sync.at(filter, limit).phase is Ended <==> filter.from_block > sync.snapshot_to_block,
        filter.from_block <= sync.snapshot_to_block ==> sync.at(filter, limit).request()
            == HistoricAction::AcquirePermit,
        filter.from_block > sync.snapshot_to_block ==> sync.at(filter, limit).request() == (
        HistoricAction::Finish { live_indexing: sync.live_indexing }),
{
}

/// The end changes nothing but the limit.
pub proof fn law_end_keeps_the_range(sync: HistoricSync, limit: Option<u64>)
    ensures
        sync.ended(limit).phase is Ended,
        sync.ended(limit).block_range_limitation == limit,
        sync.ended(limit).current_filter == sync.current_filter,
        sync.ended(limit).min_block_range_limitation == sync.min_block_range_limitation,
        sync.ended(limit).snapshot_to_block == sync.snapshot_to_block,
        sync.ended(limit).live_indexing == sync.live_indexing,
        sync.ended(limit).request() == (HistoricAction::Finish {
            live_indexing: sync.live_indexing,
        }),
{
}

/// No step of historic indexing changes its snapshot, its smallest limit, or whether live indexing
/// follows.
pub proof fn law_run_keeps_its_settings(
    states: Seq<HistoricSync>,
    steps: Seq<HistoricStep>,
    n: int,
)
    requires
        is_historic_run(states, steps),
        0 <= n <= steps.len(),
    ensures
        states[n].snapshot_to_block == states[0].snapshot_to_block,
        states[n].min_block_range_limitation == states[0].min_block_range_limitation,
        states[n].live_indexing == states[0].live_indexing,
        states[n].phase is Ended ==> states[n].request() == (HistoricAction::Finish {
            live_indexing: states[0].live_indexing,
        }),
    decreases n,
{
    if n > 0 {
        law_run_keeps_its_settings(states, steps, n - 1);
        assert(historic_step(states[n - 1], steps[n - 1], states[n - 1 + 1]));
    }
}

/// What a step leads to: no permit changes nothing, a permit leads to the request for the current
/// range unless its blocks cannot be counted, logs lead to their delivery, and a lost delivery to
/// the end.
pub proof fn law_historic_steps(before: HistoricSync, step: HistoricStep, after: HistoricSync)
    requires
        historic_step(before, step, after),
    ensures
        step is PermitLost ==> before.phase is Permit && after == before,
        step is PermitAcquired ==> {
            &&& before.phase is Permit
            &&& after.current_filter == before.current_filter
            &&& after.block_range_limitation == before.block_range_limitation
            &&& after.phase is Logs || after.phase is Ended
            &&& after.phase is Logs <==> before.current_filter.from_block
                <= before.current_filter.to_block && before.current_filter.to_block
                - before.current_filter.from_block + 1 <= u64::MAX
        },
        step is LogsFetched ==> {
            &&& before.phase is Logs
            &&& after.phase is Delivery
            &&& after.current_filter == before.current_filter
            &&& after.block_range_limitation == before.block_range_limitation
        },
        step is LogsFailed ==> {
            &&& before.phase is Logs
            &&& after.phase is Permit ==> after.current_filter.from_block
                <= before.snapshot_to_block
        },
        step is Delivered ==> {
            &&& before.phase is Delivery
            &&& after.phase is Permit ==> {
                &&& after.current_filter.from_block <= before.snapshot_to_block
                &&& after.current_filter.to_block <= before.snapshot_to_block
                &&& match before.phase->Delivery_0 {
                    LastLog::Absent => after.current_filter.from_block
                        == before.current_filter.to_block + 1,
                    LastLog::At(block) => after.current_filter.from_block == block + 1,
                    LastLog::Unnumbered => false,
                }
            }
            &&& after.phase is Permit || after.phase is Ended
            &&& after.phase is Ended ==> after.current_filter == before.current_filter
        },
        step is DeliveryLost ==> {
            &&& before.phase is Delivery
            &&& after.phase is Ended
            &&& after.current_filter == before.current_filter
            &&& after.block_range_limitation == before.block_range_limitation
        },
{
}

/// The last log is the one at the end of the response.
pub proof fn law_last_log_is_at_the_end<T>(logs: Seq<WrappedLog<T>>, log: WrappedLog<T>)
    ensures
        last_log(Seq::<WrappedLog<T>>::empty()) == LastLog::Absent,
        log.block_number matches Some(block) ==> last_log(logs.push(log)) == LastLog::At(block),
        log.block_number is None ==> last_log(logs.push(log)) == LastLog::Unnumbered,
{
}

/// A range can be counted where it holds a block and the number of its blocks is a 64-bit number.
pub proof fn law_countable_ranges(filter: RindexerEventFilter)
    ensures
        filter.countable() <==> 1 <= filter.to_block - filter.from_block + 1 <= u64::MAX,
{
}

/// A limit fits where the block right behind that many blocks is a positive 64-bit number. No
/// limit always fits.
pub proof fn law_limit_fits(from_block: u64, limit: u64)
    ensures
        limit_fits(from_block, None),
        limit_fits(from_block, Some(limit)) <==> 1 <= from_block + limit <= u64::MAX,
{
}

/// A range ends at the snapshot, or earlier where the limit allows no more blocks: whichever of
/// the two comes first.
pub proof fn law_range_ends_at_limit_or_snapshot(
    from_block: u64,
    snapshot_to_block: u64,
    limit: u64,
)
    requires
        1 <= from_block + limit <= u64::MAX,
    ensures
        capped_to_block(from_block, snapshot_to_block, None) == snapshot_to_block,
        ({
            let to_block = capped_to_block(from_block, snapshot_to_block, Some(limit));
            &&& to_block <= snapshot_to_block
            &&& to_block + 1 <= from_block + limit
            &&& to_block == snapshot_to_block || to_block + 1 == from_block + limit
        }),
{
}

/// The next range starts behind the delivered one where that had no logs, and else behind its last
/// log. A last log without a number gives no next block.
pub proof fn law_next_range_starts_behind_the_last_log(to_block: u64, block: u64)
    ensures
        next_from_block(LastLog::Absent, to_block) == Ok::<int, Fault>(to_block + 1),
        next_from_block(LastLog::At(block), to_block) == Ok::<int, Fault>(block + 1),
        next_from_block(LastLog::Unnumbered, to_block) == Err::<int, Fault>(
            Fault::MissingBlockNumber,
        ),
{
}

/// What follows the delivery of a range whose next block is `next`: the end where the snapshot has
/// been reached, a fault where a block is no 64-bit number, and else a range from `next` to the
/// snapshot or to the end of the limit, whichever comes first.
pub proof fn law_range_after_delivery(
    last: LastLog,
    to_block: u64,
    snapshot_to_block: u64,
    limit: Option<u64>,
    next: int,
)
    requires
        last is Absent ==> next == to_block + 1,
        last matches LastLog::At(block) ==> next == block + 1,
    ensures
        ({
            let after = range_after_logs(last, to_block, snapshot_to_block, limit);
            &&& last is Unnumbered ==> after == Err::<Option<RindexerEventFilter>, Fault>(
                Fault::MissingBlockNumber,
            )
            &&& !(last is Unnumbered) && next > u64::MAX ==> after == Err::<
                Option<RindexerEventFilter>,
                Fault,
            >(Fault::ArithmeticOverflow)
            &&& !(last is Unnumbered) && snapshot_to_block < next <= u64::MAX ==> after == Ok::<
                Option<RindexerEventFilter>,
                Fault,
            >(None)
            &&& !(last is Unnumbered) && next <= snapshot_to_block && limit is None ==> {
                &&& after matches Ok(Some(range))
                &&& range.from_block == next
                &&& range.to_block == snapshot_to_block
            }
            &&& !(last is Unnumbered) && next <= snapshot_to_block ==> (limit matches Some(limit)
                ==> {
                &&& next + limit > u64::MAX ==> after == Err::<Option<RindexerEventFilter>, Fault>(
                    Fault::ArithmeticOverflow,
                )
                &&& next + limit <= u64::MAX ==> {
                    &&& after matches Ok(Some(range))
                    &&& range.from_block == next
                    &&& range.to_block <= snapshot_to_block
                    &&& range.to_block <= next + limit - 1
                    &&& range.to_block == snapshot_to_block || range.to_block == next + limit - 1
                }
            })
        }),
{
}

/// A numbered bound is its number.
pub proof fn law_block_of_a_number(n: u64)
    ensures
        block_of(BlockNumber::Number(n)) == n,
{
}

/// The bounds that a provider proposes are what is requested next, whatever was requested before
/// and whatever limit is set. The whole limit is decreased.
pub proof fn law_proposed_bounds_are_requested(
    error: JsonRpcError,
    filter: RindexerEventFilter,
    limit: Option<u64>,
    bounds: BlockBounds,
)
    requires
        error_hints(error).suggested == Some(bounds),
    ensures
        range_after_error(Some(error), filter, limit) == (RindexerEventFilter {
            from_block: block_of(bounds.from),
            to_block: block_of(bounds.to),
        }),
        bounds.from matches BlockNumber::Number(from_block) ==> range_after_error(
            Some(error),
            filter,
            limit,
        ).from_block == from_block,
        bounds.to matches BlockNumber::Number(to_block) ==> range_after_error(
            Some(error),
            filter,
            limit,
        ).to_block == to_block,
        limit_to_decrease(Some(error), filter, limit) == Some(limit),
        recoverable(Some(error), filter, limit) <==> filter.countable(),
{
}

/// An error that proposes no bounds leads to a range that starts where the failed one did and
/// reaches as far as the error lets it: 3000 blocks for Ankr, what the provider says, 2000 for Base,
/// or half the distance. The limit that is set plays no part in it.
pub proof fn law_error_without_bounds_limits_the_reach(
    error: JsonRpcError,
    filter: RindexerEventFilter,
    limit: Option<u64>,
    reach: int,
)
    requires
        error_hints(error).suggested is None,
        if error_hints(error).too_wide {
            reach == 3000
        } else if error_hints(error).limited_to is Some {
            reach == error_hints(error).limited_to->0
        } else if error_hints(error).too_large {
            reach == 2000
        } else {
            filter.to_block > filter.from_block && 2 * reach <= filter.to_block - filter.from_block < 2 * reach + 2
        },
    ensures
        filter.from_block + reach <= u64::MAX ==> {
            &&& range_after_error(Some(error), filter, limit).from_block == filter.from_block
            &&& range_after_error(Some(error), filter, limit).to_block == filter.from_block + reach
        },
        limit_to_decrease(Some(error), filter, limit) == Some(limit),
        recoverable(Some(error), filter, limit) <==> filter.countable() && filter.from_block + reach
            <= u64::MAX,
{
}

/// Without an error response, and with an error that says nothing of a range of one block, half
/// the limit is tried for: the range keeps its first block, and ends that many blocks behind it or
/// where it ended before, whichever comes first. Half a limit of one block or none changes nothing.
pub proof fn law_silent_error_halves_the_limit(
    response: Option<JsonRpcError>,
    filter: RindexerEventFilter,
    limit: u64,
)
    requires
        filter.countable(),
        response matches Some(error) ==> {
            &&& error_hints(error).suggested is None
            &&& !error_hints(error).too_wide
            &&& error_hints(error).limited_to is None
            &&& !error_hints(error).too_large
            &&& filter.from_block >= filter.to_block
        },
    ensures
        range_after_error(response, filter, None) == filter,
        limit_to_decrease(response, filter, None) is None,
        recoverable(response, filter, None),
        limit < 2 ==> range_after_error(response, filter, Some(limit)) == filter,
        limit >= 2 ==> {
            let next = range_after_error(response, filter, Some(limit));
            &&& next.from_block == filter.from_block
            &&& next.to_block <= filter.to_block
            &&& next.to_block <= filter.from_block + limit / 2
            &&& next.to_block == filter.to_block || next.to_block == filter.from_block + limit / 2
        },
        limit_to_decrease(response, filter, Some(limit)) == Some(Some((limit / 2) as u64)),
        recoverable(response, filter, Some(limit)) <==> filter.from_block + limit / 2 <= u64::MAX,
{
}

/// Half a limit of at least two blocks cuts a range to that many blocks behind its first one.
pub proof fn law_halved_range(filter: RindexerEventFilter, limit: u64)
    ensures
        halved(filter, limit).from_block == filter.from_block,
        limit < 2 || filter.from_block + limit / 2 >= filter.to_block ==> halved(filter, limit)
            == filter,
        limit >= 2 && filter.from_block + limit / 2 < filter.to_block ==> halved(
            filter,
            limit,
        ).to_block == filter.from_block + limit / 2,
{
}

/// A range whose blocks cannot be counted is not recovered from.
pub proof fn law_uncountable_ranges_are_not_recoverable(
    response: Option<JsonRpcError>,
    filter: RindexerEventFilter,
    limit: Option<u64>,
)
    requires
        filter.from_block > filter.to_block || filter.to_block - filter.from_block == u64::MAX,
    ensures
        !recoverable(response, filter, limit),
{
}

/// Without an error response there is no range to retry with.
pub proof fn law_no_response_gives_no_retry(error: JsonRpcError, filter: RindexerEventFilter)
    ensures
        retry_after(None, filter) is None,
        retry_after(Some(error), filter) == retry_range(
            error_hints(error),
            filter.from_block,
            filter.to_block,
        ),
{
}

/// A retry takes the bounds that the provider proposes as they are.
pub proof fn law_retry_takes_proposed_bounds(
    hints: ProviderHints,
    from_block: u64,
    to_block: u64,
    bounds: BlockBounds,
)
    requires
        hints.suggested == Some(bounds),
    ensures
        retry_range(hints, from_block, to_block) == Some(
            RetryWithBlockRangeResult { from: bounds.from, to: bounds.to, max_block_range: None },
        ),
        retry_fits(hints, from_block, to_block),
{
}

/// Without proposed bounds a retry starts at the same block and reaches as far as the error lets
/// it: 3000 blocks for Ankr, what the provider says, 2000 for Base, or half the distance. It fits where its last block is a 64-bit number.
pub proof fn law_retry_reaches_as_far_as_allowed(
    hints: ProviderHints,
    from_block: u64,
    to_block: u64,
    reach: int,
)
    requires
        hints.suggested is None,
        if hints.too_wide {
            reach == 3000
        } else if hints.limited_to is Some {
            reach == hints.limited_to->0
        } else if hints.too_large {
            reach == 2000
        } else {
            to_block > from_block && 2 * reach <= to_block - from_block < 2 * reach + 2
        },
    ensures
        retry_length(hints, from_block, to_block) matches Some(length) && length == reach,
        retry_fits(hints, from_block, to_block) <==> from_block + reach <= u64::MAX,
        from_block + reach <= u64::MAX ==> {
            &&& retry_range(hints, from_block, to_block) matches Some(retry)
            &&& retry.from == BlockNumber::Number(from_block)
            &&& retry.to matches BlockNumber::Number(end) && end == from_block + reach
            &&& retry.max_block_range matches Some(length) && length == reach
        },
{
}

/// There is no retry for one block, nor for none, that the error says nothing of.
pub proof fn law_no_retry_for_a_single_block(hints: ProviderHints, from_block: u64, to_block: u64)
    requires
        hints.suggested is None,
        !hints.too_wide,
        hints.limited_to is None,
        !hints.too_large,
        to_block <= from_block,
    ensures
        retry_range(hints, from_block, to_block) is None,
        retry_length(hints, from_block, to_block) is None,
        retry_fits(hints, from_block, to_block),
{
}

/// A pattern is looked for in the message, and in the additional data only where the message does
/// not match. No data is as good as empty data.
pub proof fn law_message_is_searched_before_the_data(pattern: Seq<char>, error: JsonRpcError)
    ensures
        regex_captures(pattern, error.message@) is Some ==> captured(pattern, error)
            == regex_captures(pattern, error.message@),
        regex_captures(pattern, error.message@) is None ==> {
            &&& error.data matches Some(data) ==> captured(pattern, error) == regex_captures(
                pattern,
                data@,
            )
            &&& error.data is None ==> captured(pattern, error) == regex_captures(
                pattern,
                Seq::<char>::empty(),
            )
        },
        error.data matches Some(data) ==> data_text(error) == data@,
        error.data is None ==> data_text(error) == Seq::<char>::empty(),
{
}

/// The groups of a match are its two texts, in their order.
pub proof fn law_groups_of_a_match(captures: Captures)
    ensures
        groups(None) is None,
        groups(Some(captures)) matches Some((first, second)) && {
            &&& captures.first matches Some(text) ==> first == Some(text@)
            &&& captures.first is None ==> first is None
            &&& captures.second matches Some(text) ==> second == Some(text@)
            &&& captures.second is None ==> second is None
        },
{
}

/// Two groups that name blocks bound a range, the first group first. Where either group is absent
/// or names no block, there are no bounds.
pub proof fn law_bounds_are_read_from_both_groups(
    first: Seq<char>,
    second: Seq<char>,
    prefix: Seq<char>,
)
    ensures
        bounds_of(None, prefix) is None,
        bounds_of(Some((None, Some(second))), prefix) is None,
        bounds_of(Some((Some(first), None)), prefix) is None,
        bounds_of(Some((None, None)), prefix) is None,
        block_number_text(prefix + first) is None ==> bounds_of(
            Some((Some(first), Some(second))),
            prefix,
        ) is None,
        block_number_text(prefix + second) is None ==> bounds_of(
            Some((Some(first), Some(second))),
            prefix,
        ) is None,
        block_number_text(prefix + first) matches Some(from) ==> (block_number_text(
            prefix + second,
        ) matches Some(to) ==> bounds_of(Some((Some(first), Some(second))), prefix) == Some(
            BlockBounds { from, to },
        )),
{
}

/// Points and commas in a number of blocks count for nothing.
pub proof fn law_separators_count_for_nothing(
    digits: Seq<char>,
    text: Seq<char>,
    second: Option<Seq<char>>,
)
    requires
        digits == text.filter(|c: char| c != '.' && c != ','),
    ensures
        limit_of(Some((Some(text), second))) == decimal_text(digits),
        limit_of(Some((None, second))) is None,
        limit_of(None) is None,
{
    assert((|c: char| not_separator(c)) =~= (|c: char| c != '.' && c != ','));
}

/// A separator is a point or a comma.
pub proof fn law_separators(c: char)
    ensures
        not_separator(c) <==> c != '.' && c != ',',
{
}

/// The bounds that an error proposes are those behind `this block range should work` or, failing
/// that, those behind `Try with this block range`, which stand there without their `0x`.
pub proof fn law_proposed_bounds(error: JsonRpcError)
    ensures
        ({
            let should_work = captured(
                r"this block range should work: \[(0x[0-9a-fA-F]+),\s*(0x[0-9a-fA-F]+)]"@,
                error,
            );
            let to_try = captured(
                r"Try with this block range \[0x([0-9a-fA-F]+),\s*0x([0-9a-fA-F]+)\]"@,
                error,
            );
            &&& bounds_of(should_work, Seq::empty()) is Some ==> error_hints(error).suggested
                == bounds_of(should_work, Seq::empty())
            &&& bounds_of(should_work, Seq::empty()) is None ==> error_hints(error).suggested
                == bounds_of(to_try, "0x"@)
            &&& should_work is None && to_try is None ==> error_hints(error).suggested is None
        }),
{
}

/// The number of blocks that an error names stands behind `limited to a`.
pub proof fn law_named_number_of_blocks(error: JsonRpcError)
    ensures
        captured(r"limited to a ([\d,.]+)"@, error) is None ==> error_hints(error).limited_to is None,
        captured(r"limited to a ([\d,.]+)"@, error) matches Some((Some(text), _)) ==> error_hints(
            error,
        ).limited_to == decimal_text(text.filter(|c: char| c != '.' && c != ',')),
        captured(r"limited to a ([\d,.]+)"@, error) matches Some((None, _)) ==> error_hints(
            error,
        ).limited_to is None,
{
    if let Some((Some(text), second)) = captured(r"limited to a ([\d,.]+)"@, error) {
        law_separators_count_for_nothing(
            text.filter(|c: char| c != '.' && c != ','),
            text,
            second,
        );
    }
}

/// A range is too wide where the message says so under the code of an invalid request, and too
/// large where the message says so under any code.
pub proof fn law_refusals_of_wide_and_large_ranges(
    error: JsonRpcError,
    before: Seq<char>,
    behind: Seq<char>,
)
    ensures
        error.message@ == before + "block range is too wide"@ + behind && error.code == -32600
            ==> error_hints(error).too_wide,
        error.code != -32600 ==> !error_hints(error).too_wide,
        error.message@ == before + "block range too large"@ + behind ==> error_hints(
            error,
        ).too_large,
        error_hints(error).too_wide <==> error.code == -32600 && occurs(
            error.message@,
            "block range is too wide"@,
        ),
        error_hints(error).too_large <==> occurs(error.message@, "block range too large"@),
{
    if error.message@ == before + "block range is too wide"@ + behind {
        law_part_occurs(before, "block range is too wide"@, behind);
    }
    if error.message@ == before + "block range too large"@ + behind {
        law_part_occurs(before, "block range too large"@, behind);
    }
}

/// What an error says of each kind, given the matches in it.
pub proof fn law_hints_are_read_one_by_one(
    code: i64,
    message: Seq<char>,
    should_work: Option<(Option<Seq<char>>, Option<Seq<char>>)>,
    to_try: Option<(Option<Seq<char>>, Option<Seq<char>>)>,
    limited_to: Option<(Option<Seq<char>>, Option<Seq<char>>)>,
)
    ensures
        ({
            let hints = hints_of(code, message, should_work, to_try, limited_to);
            &&& bounds_of(should_work, Seq::empty()) is Some ==> hints.suggested == bounds_of(
                should_work,
                Seq::empty(),
            )
            &&& bounds_of(should_work, Seq::empty()) is None ==> hints.suggested == bounds_of(
                to_try,
                "0x"@,
            )
            &&& hints.too_wide <==> code == -32600 && occurs(message, "block range is too wide"@)
            &&& hints.limited_to == limit_of(limited_to)
            &&& hints.too_large <==> occurs(message, "block range too large"@)
        }),
{
}

/// A text that stands between two others occurs in the whole.
pub proof fn law_part_occurs(before: Seq<char>, needle: Seq<char>, behind: Seq<char>)
    ensures
        occurs(before + needle + behind, needle),
{
    let text = before + needle + behind;
    assert(text.subrange(before.len() as int, (before.len() + needle.len()) as int) =~= needle);
    assert(occurs_at(text, needle, before.len() as int));
}

/// A text occurs in another one exactly where it stands between two parts of it.
pub proof fn law_occurs_between_two_parts(text: Seq<char>, needle: Seq<char>)
    ensures
        occurs(text, needle) <==> exists|before: Seq<char>, behind: Seq<char>|
            text == #[trigger] (before + needle + behind),
{
    if occurs(text, needle) {
        let at = choose|at: int| occurs_at(text, needle, at);
        assert(text =~= text.take(at) + needle + text.skip(at + needle.len()));
    }
    if exists|before: Seq<char>, behind: Seq<char>| text == #[trigger] (before + needle + behind) {
        let (before, behind) = choose|before: Seq<char>, behind: Seq<char>|
            text == #[trigger] (before + needle + behind);
        law_part_occurs(before, needle, behind);
    }
}

/// A text stands at an offset where each of its characters does.
pub proof fn law_occurs_character_by_character(text: Seq<char>, needle: Seq<char>, at: int)
    ensures
        occurs_at(text, needle, at) <==> {
            &&& 0 <= at
            &&& at + needle.len() <= text.len()
            &&& forall|i: int| 0 <= i < needle.len() ==> text[at + i] == #[trigger] needle[i]
        },
{
    if 0 <= at && at + needle.len() <= text.len() {
        let part = text.subrange(at, at + needle.len());
        if part == needle {
            assert forall|i: int| 0 <= i < needle.len() implies text[at + i]
                == #[trigger] needle[i] by {
                assert(part[i] == text[at + i]);
            }
        }
        if forall|i: int| 0 <= i < needle.len() ==> text[at + i] == #[trigger] needle[i] {
            assert forall|i: int| 0 <= i < needle.len() implies part[i] == #[trigger] needle[i] by {
                assert(part[i] == text[at + i]);
            }
            assert(part =~= needle);
        }
    }
}

/// Removal leaves a text as it is where nothing is to be removed.
pub proof fn law_removal_keeps_other_text(text: Seq<char>, needle: Seq<char>)
    requires
        needle.len() > 0,
        !occurs(text, needle),
    ensures
        without(text, needle) == text,
    decreases text.len(),
{
    if text.len() >= needle.len() {
        assert(!occurs_at(text, needle, 0));
        let rest = text.skip(1);
        assert forall|at: int| !occurs_at(rest, needle, at) by {
            if occurs_at(rest, needle, at) {
                assert(rest.subrange(at, at + needle.len()) =~= text.subrange(
                    at + 1,
                    at + 1 + needle.len(),
                ));
                assert(occurs_at(text, needle, at + 1));
            }
        }
        law_removal_keeps_other_text(rest, needle);
        assert(seq![text[0]] + rest =~= text);
    }
}

/// Removal keeps what stands before the first occurrence, leaves that occurrence out, and goes on
/// behind it.
pub proof fn law_removal_leaves_out_each_occurrence(text: Seq<char>, needle: Seq<char>, at: int)
    requires
        needle.len() > 0,
        occurs_at(text, needle, at),
        forall|earlier: int| 0 <= earlier < at ==> !occurs_at(text, needle, earlier),
    ensures
        without(text, needle) == text.take(at) + without(text.skip(at + needle.len()), needle),
    decreases at,
{
    if at == 0 {
        assert(text.take(0) + without(text.skip(needle.len() as int), needle) =~= without(
            text.skip(needle.len() as int),
            needle,
        ));
    } else {
        assert(!occurs_at(text, needle, 0));
        let rest = text.skip(1);
        assert(rest.subrange(at - 1, at - 1 + needle.len()) =~= text.subrange(
            at,
            at + needle.len(),
        ));
        assert forall|earlier: int| 0 <= earlier < at - 1 implies !occurs_at(
            rest,
            needle,
            earlier,
        ) by {
            assert(!occurs_at(text, needle, earlier + 1));
            if occurs_at(rest, needle, earlier) {
                assert(rest.subrange(earlier, earlier + needle.len()) =~= text.subrange(
                    earlier + 1,
                    earlier + 1 + needle.len(),
                ));
            }
        }
        law_removal_leaves_out_each_occurrence(rest, needle, at - 1);
        assert(rest.skip(at - 1 + needle.len()) =~= text.skip(at + needle.len()));
        assert(seq![text[0]] + (rest.take(at - 1) + without(
            text.skip(at + needle.len()),
            needle,
        )) =~= text.take(at) + without(text.skip(at + needle.len()), needle));
    }
}

/// Each further digit shifts a number by one place.
pub proof fn law_digits_shift_a_number(digits: Seq<char>, digit: char, radix: nat)
    ensures
        number(Seq::<char>::empty(), radix) == 0,
        number(digits.push(digit), radix) == number(digits, radix) * radix + digit_value(digit),
{
    assert(digits.push(digit).drop_last() =~= digits);
}

/// Digits count from 0 to 9, and letters of either case from 10 to 15. Nothing else is a digit.
pub proof fn law_values_of_digits(c: char)
    ensures
        '0' <= c <= '9' ==> digit_value(c) == c as int - 48,
        'a' <= c <= 'f' ==> digit_value(c) == c as int - 97 + 10,
        'A' <= c <= 'F' ==> digit_value(c) == c as int - 65 + 10,
        digit_value(c) < 10 <==> '0' <= c <= '9',
        digit_value(c) < 16 <==> '0' <= c <= '9' || 'a' <= c <= 'f' || 'A' <= c <= 'F',
{
}

/// Decimal text is text of the digits from 0 to 9 and nothing else, and its number is the one that
/// they write, where that is a 64-bit number.
pub proof fn law_decimal_text(text: Seq<char>, n: u64)
    ensures
        decimal_text(text) == Some(n) <==> number(text, 10) == n && forall|i: int|
            0 <= i < text.len() ==> '0' <= #[trigger] text[i] <= '9',
        decimal_text(text) is None <==> number(text, 10) > u64::MAX || exists|i: int|
            0 <= i < text.len() && !('0' <= #[trigger] text[i] <= '9'),
{
    if forall|i: int| 0 <= i < text.len() ==> '0' <= #[trigger] text[i] <= '9' {
        assert(all_digits(text, 10));
    }
    if all_digits(text, 10) {
        assert forall|i: int| 0 <= i < text.len() implies '0' <= #[trigger] text[i] <= '9' by {
            assert(digit_value(text[i]) < 10);
        }
    }
}

/// A hexadecimal literal is `0x` and digits, at least one.
pub proof fn law_hex_literals(digits: Seq<char>)
    ensures
        is_hex_literal("0x"@ + digits) <==> digits.len() > 0 && forall|i: int|
            0 <= i < digits.len() ==> {
                ||| '0' <= #[trigger] digits[i] <= '9'
                ||| 'a' <= digits[i] <= 'f'
                ||| 'A' <= digits[i] <= 'F'
            },
        forall|text: Seq<char>| #[trigger]
            is_hex_literal(text) ==> text.len() > 2 && text[0] == '0' && text[1] == 'x',
{
    reveal_strlit("0x");
    assert(("0x"@ + digits).skip(2) =~= digits);
    lemma_hex_digits(digits);
}

/// Hexadecimal digits, character by character.
proof fn lemma_hex_digits(digits: Seq<char>)
    ensures
        all_digits(digits, 16) <==> forall|i: int|
            0 <= i < digits.len() ==> {
                ||| '0' <= #[trigger] digits[i] <= '9'
                ||| 'a' <= digits[i] <= 'f'
                ||| 'A' <= digits[i] <= 'F'
            },
{
    if all_digits(digits, 16) {
        assert forall|i: int| 0 <= i < digits.len() implies {
            ||| '0' <= #[trigger] digits[i] <= '9'
            ||| 'a' <= digits[i] <= 'f'
            ||| 'A' <= digits[i] <= 'F'
        } by {
            assert(digit_value(digits[i]) < 16);
        }
    }
}

/// Each tag names its own block, and no other text does.
pub proof fn law_tags_name_their_blocks(text: Seq<char>)
    ensures
        block_number_text(text) == Some(BlockNumber::Latest) <==> text == "latest"@,
        block_number_text(text) == Some(BlockNumber::Finalized) <==> text == "finalized"@,
        block_number_text(text) == Some(BlockNumber::Safe) <==> text == "safe"@,
        block_number_text(text) == Some(BlockNumber::Earliest) <==> text == "earliest"@,
        block_number_text(text) == Some(BlockNumber::Pending) <==> text == "pending"@,
{
    reveal_strlit("latest");
    reveal_strlit("finalized");
    reveal_strlit("safe");
    reveal_strlit("earliest");
    reveal_strlit("pending");
    assert("latest"@.len() == 6 && "finalized"@.len() == 9 && "safe"@.len() == 4
        && "earliest"@.len() == 8 && "pending"@.len() == 7);
}

/// Behind `0x`, up to 16 hexadecimal digits name the block whose number they write. Nothing else
/// behind `0x` names a block.
pub proof fn law_hexadecimal_block_numbers(digits: Seq<char>)
    ensures
        block_number_text("0x"@ + digits) is Some <==> digits.len() <= 16 && forall|i: int|
            0 <= i < digits.len() ==> {
                ||| '0' <= #[trigger] digits[i] <= '9'
                ||| 'a' <= digits[i] <= 'f'
                ||| 'A' <= digits[i] <= 'F'
            },
        block_number_text("0x"@ + digits) matches Some(block) ==> (block matches BlockNumber::Number(
            n,
        ) && n == number(digits, 16)),
{
    reveal_strlit("0x");
    reveal_strlit("latest");
    reveal_strlit("finalized");
    reveal_strlit("safe");
    reveal_strlit("earliest");
    reveal_strlit("pending");
    let text = "0x"@ + digits;
    assert(text[0] == '0' && text[1] == 'x');
    assert(text.skip(2) =~= digits);
    lemma_hex_digits(digits);
    if digits.len() <= 16 && all_digits(digits, 16) {
        lemma_hexadecimal_number_bound(digits);
        reveal_with_fuel(vstd::arithmetic::power::pow, 17);
        vstd::arithmetic::power::lemma_pow_increases(16, digits.len(), 16);
        assert(vstd::arithmetic::power::pow(16, 16) == 0x1_0000_0000_0000_0000);
    }
}

/// Hexadecimal digits write less than 16 to the power of their number.
proof fn lemma_hexadecimal_number_bound(digits: Seq<char>)
    requires
        all_digits(digits, 16),
    ensures
        number(digits, 16) < vstd::arithmetic::power::pow(16, digits.len()),
    decreases digits.len(),
{
    if digits.len() == 0 {
        vstd::arithmetic::power::lemma_pow0(16);
    } else {
        let earlier = digits.drop_last();
        assert forall|i: int| 0 <= i < earlier.len() implies #[trigger] digit_value(earlier[i])
            < 16 by {
            assert(digit_value(digits[i]) < 16);
        }
        lemma_hexadecimal_number_bound(earlier);
        assert(digit_value(digits[digits.len() - 1]) < 16);
        reveal(vstd::arithmetic::power::pow);
        assert(vstd::arithmetic::power::pow(16, digits.len()) == 16
            * vstd::arithmetic::power::pow(16, earlier.len()));
    }
}

/// One or more decimal digits name the block whose number they write, where that is a 64-bit
/// number. A plus sign in front changes nothing.
pub proof fn law_decimal_block_numbers(digits: Seq<char>)
    requires
        digits.len() > 0,
        forall|i: int| 0 <= i < digits.len() ==> '0' <= #[trigger] digits[i] <= '9',
    ensures
        block_number_text(digits) == if number(digits, 10) <= u64::MAX {
            Some(BlockNumber::Number(number(digits, 10) as u64))
        } else {
            None
        },
        block_number_text(seq!['+'] + digits) == block_number_text(digits),
{
    reveal_strlit("latest");
    reveal_strlit("finalized");
    reveal_strlit("safe");
    reveal_strlit("earliest");
    reveal_strlit("pending");
    assert('0' <= digits[0] <= '9');
    assert(digits.len() >= 2 ==> '0' <= digits[1] <= '9');
    assert((seq!['+'] + digits)[0] == '+');
    assert((seq!['+'] + digits).skip(1) =~= digits);
    assert(all_digits(digits, 10));
}

/// Text without a plus sign, a tag or `0x` in front names a block only where all of it is digits.
/// The empty text names none.
pub proof fn law_other_text_names_no_block(text: Seq<char>, i: int)
    requires
        0 <= i < text.len(),
        !('0' <= text[i] <= '9'),
        i > 0 || text[0] != '+',
        text.len() >= 2 ==> !(text[0] == '0' && text[1] == 'x'),
        text != "latest"@,
        text != "finalized"@,
        text != "safe"@,
        text != "earliest"@,
        text != "pending"@,
    ensures
        block_number_text(text) is None,
        block_number_text(Seq::empty()) is None,
        block_number_text(seq!['+']) is None,
{
    reveal_strlit("latest");
    reveal_strlit("finalized");
    reveal_strlit("safe");
    reveal_strlit("earliest");
    reveal_strlit("pending");
    assert(seq!['+'].skip(1) =~= Seq::<char>::empty());
    if text[0] == '+' {
        assert(digit_value(text.skip(1)[i - 1]) >= 10);
    } else {
        assert(digit_value(text[i]) >= 10);
    }
}

/// Every log becomes an event, none is left out and none is added. Each event keeps its log, its
/// place and the range that the log was fetched with.
pub proof fn law_every_log_becomes_an_event<T>(result: FetchLogsResult<T>, i: int)
    ensures
        events_of(result).len() == result.logs@.len(),
        0 <= i < result.logs@.len() ==> {
            &&& events_of(result)[i].log == result.logs@[i]
            &&& events_of(result)[i].from_block == result.from_block
            &&& events_of(result)[i].to_block == result.to_block
        },
{
}

/// A configuration is for an event where the names of the events are the same, and those of the
/// contracts are, with or without `Filter`.
pub proof fn law_configuration_of_an_event(
    config: EventProcessingConfig,
    dependency: ContractEventMapping,
)
    ensures
        is_config_of(config, dependency) ==> config.event_name@ == dependency.event_name@,
        is_config_of(config, dependency) ==> config.contract_name@ == dependency.contract_name@
            || without(config.contract_name@, "Filter"@) == dependency.contract_name@,
        config.event_name@ == dependency.event_name@ && config.contract_name@
            == dependency.contract_name@ ==> is_config_of(config, dependency),
        config.event_name@ == dependency.event_name@ && without(config.contract_name@, "Filter"@)
            == dependency.contract_name@ ==> is_config_of(config, dependency),
{
}

/// The name of a contract that is indexed by a filter is that of the contract and `Filter`.
pub proof fn law_filter_of_a_contract(
    config: EventProcessingConfig,
    dependency: ContractEventMapping,
)
    requires
        config.event_name@ == dependency.event_name@,
        config.contract_name@ == dependency.contract_name@ + "Filter"@,
        !occurs(dependency.contract_name@ + "Filter"@.drop_last(), "Filter"@),
    ensures
        is_config_of(config, dependency),
{
    reveal_strlit("Filter");
    let name = dependency.contract_name@;
    let filter = "Filter"@;
    let text = name + filter;
    let at = name.len() as int;
    assert(text.subrange(at, at + filter.len()) =~= filter);
    assert(occurs_at(text, filter, at));
    let shorter = name + filter.drop_last();
    assert forall|earlier: int| 0 <= earlier < at implies !occurs_at(text, filter, earlier) by {
        if occurs_at(text, filter, earlier) {
            assert(shorter.subrange(earlier, earlier + filter.len()) =~= text.subrange(
                earlier,
                earlier + filter.len(),
            ));
            assert(occurs_at(shorter, filter, earlier));
        }
    }
    law_removal_leaves_out_each_occurrence(text, filter, at);
    assert(text.skip(at + filter.len()) =~= Seq::<char>::empty());
    assert(without(Seq::<char>::empty(), filter) =~= Seq::<char>::empty());
    assert(text.take(at) + Seq::<char>::empty() =~= name);
}

/// What is found for an event is the first configuration for it, and nothing is found only where
/// there is none.
pub proof fn law_first_configuration_is_found(
    configs: Seq<EventProcessingConfig>,
    dependency: ContractEventMapping,
    found: Option<usize>,
    j: int,
)
    requires
        config_of(configs, dependency, found),
    ensures
        found matches Some(i) ==> {
            &&& i < configs.len()
            &&& configs[i as int].event_name@ == dependency.event_name@
            &&& configs[i as int].contract_name@ == dependency.contract_name@ || without(
                configs[i as int].contract_name@,
                "Filter"@,
            ) == dependency.contract_name@
        },
        0 <= j < configs.len() && configs[j].event_name@ == dependency.event_name@ && (
        configs[j].contract_name@ == dependency.contract_name@ || without(
            configs[j].contract_name@,
            "Filter"@,
        ) == dependency.contract_name@) ==> (found matches Some(i) && i <= j),
{
}

/// The tasks of a level are one for each of its events, in their order: to process the event with
/// its first configuration, or to fail with the names of the contract and the event.
pub proof fn law_tasks_of_a_level(
    configs: Seq<EventProcessingConfig>,
    level: Seq<ContractEventMapping>,
    tasks: Seq<LevelTask>,
    n: int,
    j: int,
)
    requires
        are_tasks_of(configs, level, tasks),
        0 <= n < level.len(),
    ensures
        tasks.len() == level.len(),
        tasks[n] matches Ok(i) ==> {
            &&& i < configs.len()
            &&& configs[i as int].event_name@ == level[n].event_name@
            &&& configs[i as int].contract_name@ == level[n].contract_name@ || without(
                configs[i as int].contract_name@,
                "Filter"@,
            ) == level[n].contract_name@
        },
        tasks[n] matches Err(error) ==> {
            &&& error matches ProcessContractEventsWithDependenciesError::EventConfigNotFound(
                contract,
                event,
            )
            &&& contract@ == level[n].contract_name@
            &&& event@ == level[n].event_name@
        },
        0 <= j < configs.len() && configs[j].event_name@ == level[n].event_name@ && (
        configs[j].contract_name@ == level[n].contract_name@ || without(
            configs[j].contract_name@,
            "Filter"@,
        ) == level[n].contract_name@) ==> (tasks[n] matches Ok(i) && i <= j),
{
    assert(is_task_of(configs, level[n], tasks[n]));
}

/// The error of a level is that of its first event that failed: the error of the event, or that of
/// its task.
pub proof fn law_first_failure_ends_a_level(outcomes: Seq<LevelOutcome>, n: int)
    requires
        0 <= n < outcomes.len(),
        forall|i: int| 0 <= i < n ==> #[trigger] outcomes[i] matches Ok(Ok(_)),
    ensures
        outcomes[n] matches Err(text) ==> first_error(outcomes) == Some(
            ProcessContractEventsWithDependenciesError::JoinError(text),
        ),
        outcomes[n] matches Ok(Err(error)) ==> first_error(outcomes) == Some(error),
    decreases n,
{
    if n > 0 {
        assert(outcomes[0] matches Ok(Ok(_)));
        let rest = outcomes.skip(1);
        assert forall|i: int| 0 <= i < n - 1 implies #[trigger] rest[i] matches Ok(Ok(_)) by {
            assert(outcomes[i + 1] matches Ok(Ok(_)));
        }
        law_first_failure_ends_a_level(rest, n - 1);
        assert(rest[n - 1] == outcomes[n]);
    }
}

/// The error of some contracts is that of the first one that failed.
pub proof fn law_first_failure_ends_the_contracts(
    results: Seq<Result<Result<(), ProcessContractEventsWithDependenciesError>, String>>,
    n: int,
)
    requires
        0 <= n < results.len(),
        forall|i: int| 0 <= i < n ==> #[trigger] results[i] matches Ok(Ok(_)),
    ensures
        results[n] matches Err(text) ==> first_contract_error(results) == Some(
            ProcessContractsEventsWithDependenciesError::JoinError(text),
        ),
        results[n] matches Ok(Err(error)) ==> first_contract_error(results) == Some(
            ProcessContractsEventsWithDependenciesError::ProcessContractEventsWithDependenciesError(
                error,
            ),
        ),
    decreases n,
{
    if n > 0 {
        assert(results[0] matches Ok(Ok(_)));
        let rest = results.skip(1);
        assert forall|i: int| 0 <= i < n - 1 implies #[trigger] rest[i] matches Ok(Ok(_)) by {
            assert(results[i + 1] matches Ok(Ok(_)));
        }
        law_first_failure_ends_the_contracts(rest, n - 1);
        assert(rest[n - 1] == results[n]);
    }
}

/// Each further outcome adds its configuration where that was processed and live indexing is
/// configured for it, behind those of the earlier outcomes, and nothing else.
pub proof fn law_live_configurations_keep_their_order(
    configs: Seq<EventProcessingConfig>,
    outcomes: Seq<LevelOutcome>,
    outcome: LevelOutcome,
)
    ensures
        live_of(configs, Seq::<LevelOutcome>::empty()) == Seq::<usize>::empty(),
        outcome matches Ok(Ok(config)) ==> {
            &&& configs[config as int].live_indexing ==> live_of(configs, outcomes.push(outcome))
                == live_of(configs, outcomes).push(config)
            &&& !configs[config as int].live_indexing ==> live_of(configs, outcomes.push(outcome))
                == live_of(configs, outcomes)
        },
        !(outcome matches Ok(Ok(_))) ==> live_of(configs, outcomes.push(outcome)) == live_of(
            configs,
            outcomes,
        ),
{
    assert(outcomes.push(outcome).drop_last() =~= outcomes);
}

/// The levels of a tree are its own events and, behind them, the levels of what comes next.
pub proof fn law_levels_of_a_tree(tree: EventsDependencyTree)
    ensures
        levels(None) == Seq::<Seq<ContractEventMapping>>::empty(),
        levels(Some(Box::new(tree))).len() == 1 + levels(tree.next).len(),
        levels(Some(Box::new(tree)))[0] == tree.contract_events@,
        levels(Some(Box::new(tree))).skip(1) == levels(tree.next),
{
    assert(levels(Some(Box::new(tree))).skip(1) =~= levels(tree.next));
}

/// The texts of the errors.
pub proof fn law_texts_of_errors(text: String, other: String)
    ensures
        ProviderError::CustomError(text).text() == "custom error: "@ + text@,
        ProcessEventError::ProcessLogs(ProviderError::CustomError(text)).text()
            == "Could not process logs: "@ + ("custom error: "@ + text@),
        ProcessEventError::BuildFilterError(text).text() == "Could not build filter: "@ + text@,
        ProcessContractEventsWithDependenciesError::ProcessLogs(
            ProviderError::CustomError(text),
        ).text() == "Could not process logs: "@ + ("custom error: "@ + text@),
        ProcessContractEventsWithDependenciesError::BuildFilterError(text).text()
            == "Could not build filter: "@ + text@,
        ProcessContractEventsWithDependenciesError::EventConfigNotFound(text, other).text()
            == "Event config not found for contract: "@ + text@ + " and event: "@ + other@,
        ProcessContractEventsWithDependenciesError::JoinError(text).text()
            == "Could not run all the logs processes "@ + text@,
        ProcessContractsEventsWithDependenciesError::JoinError(text).text() == text@,
{
}

/// An error of a contract reads the same as an error of some contracts.
pub proof fn law_text_of_a_contract_error(error: ProcessContractEventsWithDependenciesError)
    ensures
        ProcessContractsEventsWithDependenciesError::ProcessContractEventsWithDependenciesError(
            error,
        ).text() == error.text(),
{
}

/// Live indexing starts right behind the history: the next block of an event is the one after the
/// last block of its range, wherever that range started, and its last block counts as seen.
pub proof fn law_live_indexing_starts_behind_the_history(filter: RindexerEventFilter, now: u64)
    requires
        filter.to_block < u64::MAX,
    ensures
        initial_state(filter, now).filter.from_block == filter.to_block + 1,
        initial_state(filter, now).filter.to_block == filter.to_block + 1,
        initial_state(filter, now).last_seen_block_number == filter.to_block,
        initial_state(filter, now).last_no_new_block_log_time == now,
{
}

/// The state of a topic at the start is that of the last of its events that has a range: right
/// behind the last block of that range.
pub proof fn law_last_event_of_a_topic_counts(
    configs: Seq<EventProcessingConfig>,
    filters: Seq<Option<RindexerEventFilter>>,
    n: int,
    now: u64,
    i: int,
    filter: RindexerEventFilter,
)
    requires
        0 <= i < n,
        filters[i] == Some(filter),
        filter.to_block < u64::MAX,
        forall|j: int|
            i < j < n && (#[trigger] configs[j]).topic_id == configs[i].topic_id
                ==> filters[j] is None,
    ensures
        initial_states(configs, filters, n, now).contains_key(configs[i].topic_id),
        ({
            let state = initial_states(configs, filters, n, now)[configs[i].topic_id];
            &&& state.filter.from_block == filter.to_block + 1
            &&& state.filter.to_block == filter.to_block + 1
            &&& state.last_seen_block_number == filter.to_block
            &&& state.last_no_new_block_log_time == now
        }),
    decreases n,
{
    if i < n - 1 {
        law_last_event_of_a_topic_counts(configs, filters, n - 1, now, i, filter);
        assert(configs[n - 1].topic_id == configs[i].topic_id ==> filters[n - 1] is None);
    }
}

/// A topic has a state at the start exactly where one of its events has a range.
pub proof fn law_topics_with_a_range_have_a_state(
    configs: Seq<EventProcessingConfig>,
    filters: Seq<Option<RindexerEventFilter>>,
    n: int,
    now: u64,
    topic: TopicId,
)
    requires
        0 <= n,
    ensures
        initial_states(configs, filters, n, now).contains_key(topic) <==> exists|i: int|
            0 <= i < n && (#[trigger] configs[i]).topic_id == topic && filters[i] is Some,
    decreases n,
{
    if n > 0 {
        law_topics_with_a_range_have_a_state(configs, filters, n - 1, now, topic);
        let before = initial_states(configs, filters, n - 1, now);
        if before.contains_key(topic) {
            let i = choose|i: int|
                0 <= i < n - 1 && (#[trigger] configs[i]).topic_id == topic && filters[i] is Some;
            assert(configs[i].topic_id == topic);
        }
        if configs[n - 1].topic_id == topic && filters[n - 1] is Some {
            assert(initial_states(configs, filters, n, now).contains_key(topic));
        }
    }
}

/// A request for the blocks up to a safe one ends there, or earlier where the provider takes fewer
/// blocks: whichever of the two comes first. It fails where the number of blocks or its last block
/// is no 64-bit number.
pub proof fn law_request_ends_at_limit_or_safe_block(from_block: u64, safe_block: u64, max: u64)
    requires
        from_block <= safe_block,
    ensures
        limited_request(from_block, safe_block, None) == (LiveDecision::Request {
            to_block: safe_block,
        }),
        safe_block - from_block == u64::MAX || from_block + max == 0 ==> limited_request(
            from_block,
            safe_block,
            Some(max),
        ) == LiveDecision::Abort(Fault::ArithmeticOverflow),
        safe_block - from_block < u64::MAX && from_block + max > 0 ==> {
            &&& limited_request(
                from_block,
                safe_block,
                Some(max),
            ) matches LiveDecision::Request { to_block }
            &&& to_block <= safe_block
            &&& to_block + 1 <= from_block + max
            &&& to_block == safe_block || to_block + 1 == from_block + max
        },
        requested_to_block(from_block, safe_block, None) == Ok::<u64, Fault>(safe_block),
        limited_request(
            from_block,
            safe_block,
            Some(max),
        ) matches LiveDecision::Request { to_block } ==> requested_to_block(
            from_block,
            safe_block,
            Some(max),
        ) == Ok::<u64, Fault>(to_block),
        limited_request(from_block, safe_block, Some(max)) is Abort ==> requested_to_block(
            from_block,
            safe_block,
            Some(max),
        ) == Err::<u64, Fault>(Fault::ArithmeticOverflow),
{
}

/// A head that was seen before is reported once the chain has stood still for 300 seconds since
/// the last report, and leads to nothing before that.
pub proof fn law_seen_head_is_reported_in_time(
    state: LiveIndexingState,
    config: EventProcessingConfig,
    now: u64,
)
    ensures
        state.last_no_new_block_log_time + 300_000_000_000 <= now <==> decision(
            state,
            config,
            state.last_seen_block_number,
            now,
        ) == LiveDecision::ReportNothingNew,
        now < state.last_no_new_block_log_time + 300_000_000_000 <==> decision(
            state,
            config,
            state.last_seen_block_number,
            now,
        ) == LiveDecision::NothingNew,
{
}

/// What a new head leads to, by where the next block stands to the last safe one, which is the
/// configured distance behind the head.
pub proof fn law_new_head_decides_by_the_safe_block(
    state: LiveIndexingState,
    config: EventProcessingConfig,
    latest: u64,
    now: u64,
)
    requires
        latest != state.last_seen_block_number,
    ensures
        ({
            let decided = decision(state, config, latest, now);
            let from_block = state.filter.from_block;
            let safe_block = latest - config.indexing_distance_from_head;
            &&& safe_block < 0 ==> decided == LiveDecision::Abort(Fault::ArithmeticOverflow)
            &&& 0 <= safe_block < from_block ==> decided == LiveDecision::NotSafeYet
            &&& 0 <= safe_block == from_block && !config.disable_logs_bloom_checks ==> decided == (
            LiveDecision::CheckLogsBloom { to_block: from_block })
            &&& from_block < safe_block || from_block == safe_block
                && config.disable_logs_bloom_checks ==> {
                &&& config.max_block_range is None ==> (decided matches LiveDecision::Request {
                    to_block,
                } && to_block == safe_block)
                &&& config.max_block_range matches Some(max) ==> {
                    &&& safe_block - from_block == u64::MAX || from_block + max == 0 ==> decided
                        == LiveDecision::Abort(Fault::ArithmeticOverflow)
                    &&& safe_block - from_block < u64::MAX && from_block + max > 0 ==> {
                        &&& decided matches LiveDecision::Request { to_block }
                        &&& to_block <= safe_block
                        &&& to_block + 1 <= from_block + max
                        &&& to_block == safe_block || to_block + 1 == from_block + max
                    }
                }
            }
        }),
{
}

/// A handled request moves an event to its next block and keeps the last requested block as seen.
pub proof fn law_state_after_a_handled_request(state: LiveIndexingState, to_block: u64, next: u64)
    ensures
        advanced(state, to_block, next).filter.from_block == next,
        advanced(state, to_block, next).filter.to_block == to_block,
        advanced(state, to_block, next).last_seen_block_number == to_block,
        advanced(state, to_block, next).last_no_new_block_log_time
            == state.last_no_new_block_log_time,
{
}

/// A skipped block counts as seen, and the one behind it is next.
pub proof fn law_state_after_a_skipped_block(state: LiveIndexingState, to_block: u64)
    requires
        to_block < u64::MAX,
    ensures
        skipped(state, to_block).filter.from_block == to_block + 1,
        skipped(state, to_block).filter.to_block == state.filter.to_block,
        skipped(state, to_block).last_seen_block_number == to_block,
        skipped(state, to_block).last_no_new_block_log_time == state.last_no_new_block_log_time,
{
}

/// The wait after the next error is twice as long, and a minute at the most.
pub proof fn law_next_wait_is_twice_as_long(delay: u64)
    ensures
        next_delay(delay) <= 60_000,
        next_delay(delay) <= 2 * delay,
        next_delay(delay) == 60_000 || next_delay(delay) == 2 * delay,
{
}

/// The next event is the first one that has a state, and the number of events stands for none.
pub proof fn law_next_event_is_the_first_with_a_state(
    configs: Seq<EventProcessingConfig>,
    states: Map<TopicId, LiveIndexingState>,
    from: int,
    event: int,
)
    requires
        0 <= from <= event <= configs.len(),
        forall|j: int|
            from <= j < event ==> !states.contains_key((#[trigger] configs[j]).topic_id),
        event < configs.len() ==> states.contains_key(configs[event].topic_id),
    ensures
        next_event(configs, states, from) == event,
    decreases event - from,
{
    if from < event {
        assert(!states.contains_key(configs[from].topic_id));
        law_next_event_is_the_first_with_a_state(configs, states, from + 1, event);
    }
}

/// The turn passes to the first event that has a state, and its provider is asked for the head of
/// the chain. Nothing else changes.
pub proof fn law_turn_passes_to_the_first_with_a_state(live: LiveView, from: int, event: int)
    requires
        live.configs.len() <= usize::MAX,
        0 <= from <= event < live.configs.len(),
        forall|j: int|
            from <= j < event ==> !live.states.contains_key((#[trigger] live.configs[j]).topic_id),
        live.states.contains_key(live.configs[event].topic_id),
    ensures
        live.turn_from(from).position == event,
        live.turn_from(from).phase == LivePhase::LatestBlock,
        live.turn_from(from).request() == (LiveAction::GetLatestBlock { event: event as usize }),
        live.turn_from(from).configs == live.configs,
        live.turn_from(from).states == live.states,
        live.turn_from(from).is_dependency_mode == live.is_dependency_mode,
        live.turn_from(from).error_retry_delay == live.error_retry_delay,
{
    law_next_event_is_the_first_with_a_state(live.configs, live.states, from, event);
}

/// A pass ends where no further event has a state, and the next one begins after 100 milliseconds.
/// Nothing else changes.
pub proof fn law_pass_ends_behind_the_last_with_a_state(live: LiveView, from: int)
    requires
        0 <= from <= live.configs.len(),
        forall|j: int|
            from <= j < live.configs.len() ==> !live.states.contains_key(
                (#[trigger] live.configs[j]).topic_id,
            ),
    ensures
        live.turn_from(from).position == 0,
        live.turn_from(from).phase == LivePhase::Pause,
        live.turn_from(from).request() == (LiveAction::Sleep { millis: 100 }),
        live.turn_from(from).configs == live.configs,
        live.turn_from(from).states == live.states,
        live.turn_from(from).is_dependency_mode == live.is_dependency_mode,
        live.turn_from(from).error_retry_delay == live.error_retry_delay,
{
    law_next_event_is_the_first_with_a_state(
        live.configs,
        live.states,
        from,
        live.configs.len() as int,
    );
}

/// A turn or a pass begins with one of two requests.
pub proof fn law_requests_at_the_start_of_a_turn(live: LiveView)
    ensures
        live.phase is LatestBlock ==> live.request() == (LiveAction::GetLatestBlock {
            event: live.position,
        }),
        live.phase is Pause ==> live.request() == (LiveAction::Sleep { millis: 100 }),
        live.next_turn() == live.turn_from(live.position + 1),
{
}

/// After a wait a pass begins with the first event, and after an interlude the turn passes to the
/// event behind.
pub proof fn law_turn_after_a_wait(live: LiveView)
    ensures
        live.phase is Pause ==> live.after(LiveStep::Resumed) == live.turn_from(0),
        live.phase is Interlude ==> live.after(LiveStep::Resumed) == live.turn_from(
            live.position + 1,
        ),
{
}

/// The event whose turn it is stands at the position, and its state under its topic.
pub proof fn law_event_whose_turn_it_is(live: LiveView, state: LiveIndexingState)
    ensures
        live.config() == live.configs[live.position as int],
        live.state() == live.states[live.configs[live.position as int].topic_id],
        live.with_state(state).states == live.states.insert(
            live.configs[live.position as int].topic_id,
            state,
        ),
        live.with_state(state).configs == live.configs,
        live.with_state(state).is_dependency_mode == live.is_dependency_mode,
        live.with_state(state).error_retry_delay == live.error_retry_delay,
        live.with_state(state).position == live.position,
        live.with_state(state).phase == live.phase,
{
}

/// A phase and a wait are changed on their own.
pub proof fn law_phase_and_wait_change_alone(live: LiveView, phase: LivePhase, delay: u64)
    ensures
        live.in_phase(phase) == (LiveView { phase, ..live }),
        live.with_delay(delay) == (LiveView { error_retry_delay: delay, ..live }),
{
}

/// After a failure the wait that was due is made, and the wait after the next one is twice as long
/// up to a minute. The event and all states stay as they are.
pub proof fn law_failure_is_waited_for(live: LiveView, step: LiveStep)
    requires
        ({
            ||| live.phase is LatestBlock && (step matches LiveStep::LatestBlock(latest, _)
                && !(latest is Number))
            ||| live.phase is Logs && step is LogsFailed
            ||| live.phase is Handling && step == LiveStep::Handled(false)
            ||| live.phase is Task && step == LiveStep::Task(false)
            ||| live.phase matches LivePhase::Handling { last: LastLog::Unnumbered, .. }
                && !live.is_dependency_mode && step == LiveStep::Handled(true)
            ||| live.phase matches LivePhase::Task { last: LastLog::Unnumbered, .. } && step
                == LiveStep::Task(true)
        }),
    ensures
        live.backoff() == (LiveAction::Sleep { millis: live.error_retry_delay }),
        live.backed_off() == live.after(step),
        live.after(step).phase == LivePhase::Interlude,
        live.after(step).error_retry_delay == if 2 * live.error_retry_delay < 60_000 {
            2 * live.error_retry_delay
        } else {
            60_000
        },
        live.after(step).states == live.states,
        live.after(step).position == live.position,
        live.after(step).configs == live.configs,
        live.after(step).is_dependency_mode == live.is_dependency_mode,
{
}

/// What a head does to the event whose turn it is, and what is asked for then. A head that was seen
/// before passes the turn on, or is reported after 300 seconds. A next block that is not safe yet
/// passes the turn on. The only safe block is left to the bloom filter unless that is disabled, and
/// else a permit is wanted for the blocks up to the safe one or to the end of the provider's limit.
/// States change by the time of a report only.
pub proof fn law_turn_goes_on_with_the_head(live: LiveView, latest: u64, now: u64)
    requires
        live.phase is LatestBlock,
    ensures
        ({
            let event = live.position;
            let config = live.configs[event as int];
            let state = live.states[config.topic_id];
            let from_block = state.filter.from_block;
            let safe_block = latest - config.indexing_distance_from_head;
            let seen = latest == state.last_seen_block_number;
            let after = live.after(LiveStep::LatestBlock(LatestBlock::Number(latest), now));
            let asked = live.asked_by_decision(decision(state, config, latest, now));
            let passed = live.turn_from(event + 1);
            &&& seen && now - state.last_no_new_block_log_time >= 300_000_000_000 ==> {
                &&& asked == LiveAction::ReportNothingNew { event }
                &&& after == LiveView {
                    states: live.states.insert(
                        config.topic_id,
                        LiveIndexingState {
                            filter: state.filter,
                            last_seen_block_number: state.last_seen_block_number,
                            last_no_new_block_log_time: now,
                        },
                    ),
                    phase: LivePhase::Interlude,
                    ..live
                }
            }
            &&& seen && now - state.last_no_new_block_log_time < 300_000_000_000 ==> after == passed
                && asked == passed.request()
            &&& !seen && safe_block < 0 ==> {
                &&& asked == LiveAction::Abort(Fault::ArithmeticOverflow)
                &&& after == LiveView { phase: LivePhase::Ended, ..live }
            }
            &&& !seen && 0 <= safe_block < from_block ==> after == passed && asked
                == passed.request()
            &&& !seen && 0 <= safe_block == from_block && !config.disable_logs_bloom_checks ==> {
                &&& asked == LiveAction::CheckLogsBloom { event }
                &&& after == LiveView {
                    phase: LivePhase::LogsBloom { to_block: from_block },
                    ..live
                }
            }
            &&& !seen && (from_block < safe_block || from_block == safe_block
                && config.disable_logs_bloom_checks) ==> {
                &&& config.max_block_range is None ==> {
                    &&& asked == LiveAction::AcquirePermit { event }
                    &&& after == LiveView {
                        phase: LivePhase::Permit { to_block: safe_block as u64 },
                        ..live
                    }
                }
                &&& config.max_block_range matches Some(max) ==> {
                    &&& safe_block - from_block == u64::MAX || from_block + max == 0 ==> {
                        &&& asked == LiveAction::Abort(Fault::ArithmeticOverflow)
                        &&& after == LiveView { phase: LivePhase::Ended, ..live }
                    }
                    &&& safe_block - from_block < u64::MAX && from_block + max > 0 ==> {
                        &&& asked == LiveAction::AcquirePermit { event }
                        &&& after.phase matches LivePhase::Permit { to_block }
                        &&& to_block <= safe_block
                        &&& to_block + 1 <= from_block + max
                        &&& to_block == safe_block || to_block + 1 == from_block + max
                        &&& after == LiveView { phase: LivePhase::Permit { to_block }, ..live }
                    }
                }
            }
        }),
{
}

/// What follows a decision, one by one.
pub proof fn law_decisions_are_followed(live: LiveView, decided: LiveDecision, now: u64)
    ensures
        decided is NothingNew || decided is NotSafeYet ==> {
            &&& live.after_decision(decided, now) == live.turn_from(live.position + 1)
            &&& live.asked_by_decision(decided) == live.turn_from(live.position + 1).request()
        },
        decided is ReportNothingNew ==> {
            let topic = live.configs[live.position as int].topic_id;
            &&& live.after_decision(decided, now).states == live.states.insert(
                topic,
                LiveIndexingState {
                    filter: live.states[topic].filter,
                    last_seen_block_number: live.states[topic].last_seen_block_number,
                    last_no_new_block_log_time: now,
                },
            )
            &&& live.after_decision(decided, now).phase == LivePhase::Interlude
            &&& live.asked_by_decision(decided) == LiveAction::ReportNothingNew {
                event: live.position,
            }
        },
        decided matches LiveDecision::CheckLogsBloom { to_block } ==> {
            &&& live.after_decision(decided, now) == LiveView {
                phase: LivePhase::LogsBloom { to_block },
                ..live
            }
            &&& live.asked_by_decision(decided) == LiveAction::CheckLogsBloom {
                event: live.position,
            }
        },
        decided matches LiveDecision::Request { to_block } ==> {
            &&& live.after_decision(decided, now) == LiveView {
                phase: LivePhase::Permit { to_block },
                ..live
            }
            &&& live.asked_by_decision(decided) == LiveAction::AcquirePermit {
                event: live.position,
            }
        },
        decided matches LiveDecision::Abort(fault) ==> {
            &&& live.after_decision(decided, now) == LiveView { phase: LivePhase::Ended, ..live }
            &&& live.asked_by_decision(decided) == LiveAction::Abort(fault)
        },
{
}

/// A block whose bloom filter lets logs be expected is requested, and any other one is skipped: it
/// counts as seen, the block behind it is next, and the turn passes on.
pub proof fn law_bloom_filter_tells_what_to_skip(live: LiveView, to_block: u64)
    requires
        live.phase == (LivePhase::LogsBloom { to_block }),
    ensures
        ({
            let config = live.configs[live.position as int];
            let state = live.states[config.topic_id];
            let relevant = live.after(LiveStep::LogsBloom(true));
            let irrelevant = live.after(LiveStep::LogsBloom(false));
            &&& config.max_block_range != Some(0u64) ==> relevant == LiveView {
                phase: LivePhase::Permit { to_block },
                ..live
            }
            &&& config.max_block_range == Some(0u64) && to_block == 0 ==> relevant == LiveView {
                phase: LivePhase::Ended,
                ..live
            }
            &&& config.max_block_range == Some(0u64) && to_block > 0 ==> relevant == LiveView {
                phase: LivePhase::Permit { to_block: (to_block - 1) as u64 },
                ..live
            }
            &&& to_block == u64::MAX ==> irrelevant == LiveView { phase: LivePhase::Ended, ..live }
            &&& to_block < u64::MAX ==> irrelevant == (LiveView {
                states: live.states.insert(
                    config.topic_id,
                    LiveIndexingState {
                        filter: RindexerEventFilter {
                            from_block: (to_block + 1) as u64,
                            to_block: state.filter.to_block,
                        },
                        last_seen_block_number: to_block,
                        last_no_new_block_log_time: state.last_no_new_block_log_time,
                    },
                ),
                ..live
            }).turn_from(live.position + 1)
        }),
{
}

/// With a permit the logs up to the wanted block are requested. Without one the turn passes on.
pub proof fn law_permit_leads_to_the_request(live: LiveView, to_block: u64)
    requires
        live.phase == (LivePhase::Permit { to_block }),
    ensures
        live.after(LiveStep::Permit(true)) == (LiveView {
            phase: LivePhase::Logs { to_block },
            ..live
        }),
        live.after(LiveStep::Permit(false)) == live.turn_from(live.position + 1),
{
}

/// Logs that have come are handled, and the wait after an error is 200 milliseconds again.
pub proof fn law_logs_are_handled(live: LiveView, to_block: u64, last: LastLog)
    requires
        live.phase == (LivePhase::Logs { to_block }),
    ensures
        live.after(LiveStep::Logs(last)) == (LiveView {
            phase: LivePhase::Handling { to_block, last },
            error_retry_delay: 200,
            ..live
        }),
{
}

/// Handled logs move the event to the block behind the last log, or behind the request where it
/// had none, and the turn passes on. Where order matters, that comes once the task has ended.
pub proof fn law_handled_logs_move_the_event(
    live: LiveView,
    step: LiveStep,
    to_block: u64,
    last: LastLog,
    next: int,
)
    requires
        ({
            ||| live.phase == (LivePhase::Handling { to_block, last }) && !live.is_dependency_mode
                && step == LiveStep::Handled(true)
            ||| live.phase == (LivePhase::Task { to_block, last }) && step == LiveStep::Task(true)
        }),
        match last {
            LastLog::Absent => next == to_block + 1,
            LastLog::At(block) => next == block + 1,
            LastLog::Unnumbered => false,
        },
    ensures
        ({
            let topic = live.configs[live.position as int].topic_id;
            let moved = (LiveView {
                states: live.states.insert(
                    topic,
                    LiveIndexingState {
                        filter: RindexerEventFilter { from_block: next as u64, to_block },
                        last_seen_block_number: to_block,
                        last_no_new_block_log_time: live.states[topic].last_no_new_block_log_time,
                    },
                ),
                ..live
            }).turn_from(live.position + 1);
            &&& next <= u64::MAX ==> {
                &&& live.after(step) == moved
                &&& live.after_handling(to_block, last) == moved
                &&& live.asked_by_handling(to_block, last) == moved.request()
            }
            &&& next > u64::MAX ==> {
                &&& live.after(step) == LiveView { phase: LivePhase::Ended, ..live }
                &&& live.after_handling(to_block, last) == LiveView {
                    phase: LivePhase::Ended,
                    ..live
                }
                &&& live.asked_by_handling(to_block, last) == LiveAction::Abort(
                    Fault::ArithmeticOverflow,
                )
            }
        }),
{
}

/// A last log without a block number counts as a failure of the handling.
pub proof fn law_unnumbered_log_counts_as_a_failure(live: LiveView, to_block: u64)
    ensures
        live.asked_by_handling(to_block, LastLog::Unnumbered) == (LiveAction::Sleep {
            millis: live.error_retry_delay,
        }),
        live.after_handling(to_block, LastLog::Unnumbered).states == live.states,
        live.after_handling(to_block, LastLog::Unnumbered).phase == LivePhase::Interlude,
{
}

/// Where order matters, logs that have been handed over are waited for.
pub proof fn law_dependency_mode_waits(live: LiveView, to_block: u64, last: LastLog)
    requires
        live.phase == (LivePhase::Handling { to_block, last }),
        live.is_dependency_mode,
    ensures
        live.after(LiveStep::Handled(true)) == (LiveView {
            phase: LivePhase::Task { to_block, last },
            ..live
        }),
{
}

/// What can come is what is waited for.
pub proof fn law_expected_steps(live: LiveView, step: LiveStep)
    ensures
        live.expects(step) <==> match step {
            LiveStep::Resumed => live.phase is Pause || live.phase is Interlude,
            LiveStep::LatestBlock(..) => live.phase is LatestBlock,
            LiveStep::LogsBloom(_) => live.phase is LogsBloom,
            LiveStep::Permit(_) => live.phase is Permit,
            LiveStep::Logs(_) | LiveStep::LogsFailed => live.phase is Logs,
            LiveStep::Handled(_) => live.phase is Handling,
            LiveStep::Task(_) => live.phase is Task,
        },
{
}

/// A wait after an error takes between 200 milliseconds and a minute, and only an event that has a
/// state has its turn.
pub proof fn law_bounds_of_live_indexing(live: LiveView)
    requires
        live.wf(),
    ensures
        200 <= live.error_retry_delay <= 60_000,
        live.phase is Pause || live.position < live.configs.len() && live.states.contains_key(
            live.configs[live.position as int].topic_id,
        ),
        live.phase matches LivePhase::LogsBloom { to_block }
            ==> live.states[live.configs[live.position as int].topic_id].filter.from_block
            == to_block,
{
}

} // verus!
