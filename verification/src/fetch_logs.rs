//! Indexing of the blocks up to a snapshot, one request for logs after another.

use crate::config::EventProcessingConfig;
use crate::retry::{
    error_hints, provider_hints, retry_fits, retry_from_hints, retry_is_representable, retry_range,
    retry_with_block_range, BlockNumber, JsonRpcError, RetryWithBlockRangeResult,
};
use vstd::prelude::*;

verus! {

/// A log as far as indexing reads it. `inner` is carried along.
#[derive(Clone, Debug)]
pub struct WrappedLog<T> {
    pub block_number: Option<u64>,
    pub inner: T,
}

/// The logs of a range of blocks, both bounds included.
#[derive(Clone, Debug)]
pub struct FetchLogsResult<T> {
    pub logs: Vec<WrappedLog<T>>,
    pub from_block: u64,
    pub to_block: u64,
}

/// The blocks that a request for logs covers, both bounds included.
#[derive(Clone, Copy, Debug, PartialEq, Eq, Structural)]
pub struct RindexerEventFilter {
    pub from_block: u64,
    pub to_block: u64,
}

/// What a request for a range leads to: the next range, and the limit on the ranges after it.
#[derive(Clone, Copy, Debug, PartialEq, Eq, Structural)]
pub struct ProcessHistoricLogsStreamResult {
    pub next: RindexerEventFilter,
    pub block_range: Option<u64>,
}

/// Why an indexing task ends before its work is done.
#[derive(Clone, Copy, Debug, PartialEq, Eq, Structural)]
pub enum Fault {
    /// A block number or a count of blocks is not a 64-bit number.
    ArithmeticOverflow,
    /// The provider returned a log without its block number.
    MissingBlockNumber,
}

/// Where the last log of a response stands.
#[derive(Clone, Copy, Debug, PartialEq, Eq, Structural)]
pub enum LastLog {
    /// There are no logs.
    Absent,
    /// The last log has no block number.
    Unnumbered,
    /// The last log is in this block.
    At(u64),
}

/// Where the last of `logs` stands.
pub open spec fn last_log<T>(logs: Seq<WrappedLog<T>>) -> LastLog {
    if logs.len() == 0 {
        LastLog::Absent
    } else {
        match logs.last().block_number {
            Some(block) => LastLog::At(block),
            None => LastLog::Unnumbered,
        }
    }
}

impl RindexerEventFilter {
    /// The number of blocks is a positive 64-bit number.
    pub open spec fn countable(self) -> bool {
        self.from_block <= self.to_block && self.to_block - self.from_block < u64::MAX
    }
}

/// The end of a range of `limit` blocks that starts at `from_block` is a block number.
pub open spec fn limit_fits(from_block: u64, limit: Option<u64>) -> bool {
    limit matches Some(limit) ==> 1 <= from_block + limit <= u64::MAX
}

/// The last block of the next range: the limit allows that many blocks, and nothing past the
/// snapshot is requested.
pub open spec fn capped_to_block(from_block: u64, snapshot_to_block: u64, limit: Option<u64>) -> u64 {
    match limit {
        Some(limit) if from_block + limit - 1 <= snapshot_to_block => (from_block + limit
            - 1) as u64,
        _ => snapshot_to_block,
    }
}

/// The last block of the range that follows a response without logs, or of the first range.
pub fn calculate_process_live_log_to_block(
    new_from_block: u64,
    snapshot_to_block: u64,
    current_block_range_limitation: Option<u64>,
) -> (to_block: u64)
    requires
        limit_fits(new_from_block, current_block_range_limitation),
    ensures
        to_block == capped_to_block(
            new_from_block,
            snapshot_to_block,
            current_block_range_limitation,
        ),
        current_block_range_limitation is None ==> to_block == snapshot_to_block,
        current_block_range_limitation matches Some(limit) ==> to_block == if new_from_block + limit
            - 1 > snapshot_to_block {
            snapshot_to_block as int
        } else {
            new_from_block + limit - 1
        },
{
    if let Some(limit) = current_block_range_limitation {
        let to_block: u64 = new_from_block + limit - 1;
        if to_block > snapshot_to_block {
            snapshot_to_block
        } else {
            to_block
        }
    } else {
        snapshot_to_block
    }
}

/// The last block of the range that follows a response with logs.
pub fn calculate_process_historic_log_to_block(
    new_from_block: u64,
    snapshot_to_block: u64,
    current_block_range_limitation: Option<u64>,
) -> (to_block: u64)
    requires
        limit_fits(new_from_block, current_block_range_limitation),
    ensures
        to_block == capped_to_block(
            new_from_block,
            snapshot_to_block,
            current_block_range_limitation,
        ),
        current_block_range_limitation is None ==> to_block == snapshot_to_block,
        current_block_range_limitation matches Some(limit) ==> to_block == if new_from_block + limit
            - 1 > snapshot_to_block {
            snapshot_to_block as int
        } else {
            new_from_block + limit - 1
        },
{
    if let Some(limit) = current_block_range_limitation {
        let to_block: u64 = new_from_block + limit - 1;
        if to_block > snapshot_to_block {
            snapshot_to_block
        } else {
            to_block
        }
    } else {
        snapshot_to_block
    }
}

/// The block of a numbered bound.
pub open spec fn block_of(block: BlockNumber) -> u64 {
    block->Number_0
}

/// The range to retry with that the error response gives, where there is a response.
pub open spec fn retry_after(
    response: Option<JsonRpcError>,
    filter: RindexerEventFilter,
) -> Option<RetryWithBlockRangeResult> {
    match response {
        Some(error) => retry_range(error_hints(error), filter.from_block, filter.to_block),
        None => None,
    }
}

/// The range after half the limit has been tried for: it starts where the failed one did and ends
/// no later. Where half the limit is nothing, the range stays as it is.
pub open spec fn halved(filter: RindexerEventFilter, limit: u64) -> RindexerEventFilter {
    let half = limit / 2;
    if half == 0 || filter.from_block + half >= filter.to_block {
        filter
    } else {
        RindexerEventFilter { to_block: (filter.from_block + half) as u64, ..filter }
    }
}

/// Every block number on the way to the next range is a 64-bit number.
pub open spec fn recoverable(
    response: Option<JsonRpcError>,
    filter: RindexerEventFilter,
    limit: Option<u64>,
) -> bool {
    &&& filter.countable()
    &&& response matches Some(error) ==> retry_fits(
        error_hints(error),
        filter.from_block,
        filter.to_block,
    )
    &&& retry_after(response, filter) is None ==> (limit matches Some(limit) ==> filter.from_block
        + limit / 2 <= u64::MAX)
}

/// The range to request after a request has failed.
pub open spec fn range_after_error(
    response: Option<JsonRpcError>,
    filter: RindexerEventFilter,
    limit: Option<u64>,
) -> RindexerEventFilter {
    match (retry_after(response, filter), limit) {
        (Some(retry), _) => RindexerEventFilter {
            from_block: block_of(retry.from),
            to_block: block_of(retry.to),
        },
        (None, Some(limit)) => halved(filter, limit),
        (None, None) => filter,
    }
}

/// The limit that is decreased after a request has failed: the whole limit where the error
/// response gave a range, else half of it. Without either, no limit is decreased.
pub open spec fn limit_to_decrease(
    response: Option<JsonRpcError>,
    filter: RindexerEventFilter,
    limit: Option<u64>,
) -> Option<Option<u64>> {
    match (retry_after(response, filter), limit) {
        (Some(_), _) => Some(limit),
        (None, Some(limit)) => Some(Some((limit / 2) as u64)),
        (None, None) => None,
    }
}

/// What to request after a request for `current_filter` has failed. `response` is the JSON-RPC
/// error that the provider answered with, where it did. `decrease` gives the new limit from a
/// limit and the smallest limit.
pub fn handle_get_logs_error<D: Fn(Option<u64>, Option<u64>) -> Option<u64>>(
    response: &Option<JsonRpcError>,
    current_filter: RindexerEventFilter,
    current_block_range_limitation: Option<u64>,
    min_block_range_limitation: Option<u64>,
    decrease: D,
) -> (result: ProcessHistoricLogsStreamResult)
    requires
        recoverable(*response, current_filter, current_block_range_limitation),
        forall|limit: Option<u64>| decrease.requires((limit, min_block_range_limitation)),
    ensures
        result.next == range_after_error(
            *response,
            current_filter,
            current_block_range_limitation,
        ),
        match limit_to_decrease(*response, current_filter, current_block_range_limitation) {
            Some(limit) => decrease.ensures(
                (limit, min_block_range_limitation),
                result.block_range,
            ),
            None => result.block_range == current_block_range_limitation,
        },
        *response matches Some(error) ==> (error_hints(error).suggested matches Some(bounds) ==> {
            &&& result.next == RindexerEventFilter {
                from_block: bounds.from->Number_0,
                to_block: bounds.to->Number_0,
            }
            &&& decrease.ensures(
                (current_block_range_limitation, min_block_range_limitation),
                result.block_range,
            )
        }),
        *response is None && current_block_range_limitation is None ==> result.next
            == current_filter && result.block_range is None,
        *response is None ==> (current_block_range_limitation matches Some(limit) ==> {
            &&& result.next.from_block == current_filter.from_block
            &&& result.next.to_block == if limit < 2 || current_filter.from_block + limit / 2
                > current_filter.to_block {
                current_filter.to_block as int
            } else {
                current_filter.from_block + limit / 2
            }
            &&& decrease.ensures(
                (Some((limit / 2) as u64), min_block_range_limitation),
                result.block_range,
            )
        }),
{
    let from_block = current_filter.from_block;
    let to_block = current_filter.to_block;
    if let Some(error) = response {
        if let Some(retry) = retry_with_block_range(error, from_block, to_block) {
            let block_range = decrease(current_block_range_limitation, min_block_range_limitation);
            if let (BlockNumber::Number(from_block), BlockNumber::Number(to_block)) = (
                retry.from,
                retry.to,
            ) {
                let next = RindexerEventFilter { from_block, to_block };
                return ProcessHistoricLogsStreamResult { next, block_range };
            }
        }
    }
    if let Some(max_range) = current_block_range_limitation {
        let new_range: u64 = max_range / 2;
        let block_range = decrease(Some(new_range), min_block_range_limitation);
        let half_to_block: u64 = from_block + new_range;
        let new_to_block: u64 = if half_to_block < to_block {
            half_to_block
        } else {
            to_block
        };
        if new_range == 0 {
            return ProcessHistoricLogsStreamResult { next: current_filter, block_range };
        }
        let next = RindexerEventFilter { from_block, to_block: new_to_block };
        ProcessHistoricLogsStreamResult { next, block_range }
    } else {
        ProcessHistoricLogsStreamResult {
            next: current_filter,
            block_range: current_block_range_limitation,
        }
    }
}

/// [`handle_get_logs_error`] for any failed request: a fault where a block number on the way is no
/// 64-bit number.
pub fn try_handle_get_logs_error<D: Fn(Option<u64>, Option<u64>) -> Option<u64>>(
    response: &Option<JsonRpcError>,
    current_filter: RindexerEventFilter,
    current_block_range_limitation: Option<u64>,
    min_block_range_limitation: Option<u64>,
    decrease: D,
) -> (result: Result<ProcessHistoricLogsStreamResult, Fault>)
    requires
        forall|limit: Option<u64>| decrease.requires((limit, min_block_range_limitation)),
    ensures
        match result {
            Ok(result) => {
                &&& recoverable(*response, current_filter, current_block_range_limitation)
                &&& result.next == range_after_error(
                    *response,
                    current_filter,
                    current_block_range_limitation,
                )
                &&& match limit_to_decrease(
                    *response,
                    current_filter,
                    current_block_range_limitation,
                ) {
                    Some(limit) => decrease.ensures(
                        (limit, min_block_range_limitation),
                        result.block_range,
                    ),
                    None => result.block_range == current_block_range_limitation,
                }
            },
            Err(fault) => {
                &&& !recoverable(*response, current_filter, current_block_range_limitation)
                &&& fault == Fault::ArithmeticOverflow
            },
        },
{
    let from_block = current_filter.from_block;
    let to_block = current_filter.to_block;
    if from_block > to_block || to_block - from_block == u64::MAX {
        return Err(Fault::ArithmeticOverflow);
    }
    let mut retried = false;
    if let Some(error) = response {
        let hints = provider_hints(error);
        if !retry_is_representable(hints, from_block, to_block) {
            return Err(Fault::ArithmeticOverflow);
        }
        retried = retry_from_hints(hints, from_block, to_block).is_some();
    }
    if !retried {
        if let Some(limit) = current_block_range_limitation {
            if from_block > u64::MAX - limit / 2 {
                return Err(Fault::ArithmeticOverflow);
            }
        }
    }
    Ok(
        handle_get_logs_error(
            response,
            current_filter,
            current_block_range_limitation,
            min_block_range_limitation,
            decrease,
        ),
    )
}

/// The first block of the next range: past the last log, or past the range where it had none.
pub open spec fn next_from_block(last: LastLog, to_block: u64) -> Result<int, Fault> {
    match last {
        LastLog::Absent => Ok(to_block + 1),
        LastLog::At(block) => Ok(block + 1),
        LastLog::Unnumbered => Err(Fault::MissingBlockNumber),
    }
}

/// The range to request once the logs up to `to_block` have been delivered; none where the
/// snapshot has been reached.
pub open spec fn range_after_logs(
    last: LastLog,
    to_block: u64,
    snapshot_to_block: u64,
    limit: Option<u64>,
) -> Result<Option<RindexerEventFilter>, Fault> {
    match next_from_block(last, to_block) {
        Err(fault) => Err(fault),
        Ok(from) => if from > u64::MAX {
            Err(Fault::ArithmeticOverflow)
        } else if from > snapshot_to_block {
            Ok(None)
        } else if !limit_fits(from as u64, limit) {
            Err(Fault::ArithmeticOverflow)
        } else {
            Ok(
                Some(
                    RindexerEventFilter {
                        from_block: from as u64,
                        to_block: capped_to_block(from as u64, snapshot_to_block, limit),
                    },
                ),
            )
        },
    }
}

/// Whether the end of a range of `limit` blocks that starts at `from_block` is a block number.
pub fn limit_is_representable(from_block: u64, limit: Option<u64>) -> (fits: bool)
    ensures
        fits == limit_fits(from_block, limit),
        limit is None ==> fits,
        limit matches Some(limit) ==> fits == (1 <= from_block + limit <= u64::MAX),
{
    match limit {
        Some(limit) => from_block <= u64::MAX - limit && (from_block > 0 || limit > 0),
        None => true,
    }
}

/// The range to request once the logs up to `to_block` have been delivered. `limit` is the limit
/// that holds from then on.
pub fn next_historic_filter(
    last: LastLog,
    to_block: u64,
    snapshot_to_block: u64,
    limit: Option<u64>,
) -> (next: Result<Option<RindexerEventFilter>, Fault>)
    ensures
        next == range_after_logs(last, to_block, snapshot_to_block, limit),
        last is Absent && to_block < snapshot_to_block ==> match limit {
            None => next == Ok::<Option<RindexerEventFilter>, Fault>(
                Some(
                    RindexerEventFilter {
                        from_block: (to_block + 1) as u64,
                        to_block: snapshot_to_block,
                    },
                ),
            ),
            Some(limit) => if to_block + 1 + limit > u64::MAX {
                next == Err::<Option<RindexerEventFilter>, Fault>(Fault::ArithmeticOverflow)
            } else {
                next matches Ok(Some(range)) && range.from_block == to_block + 1 && range.to_block
                    == if to_block + limit > snapshot_to_block {
                    snapshot_to_block as int
                } else {
                    to_block + limit
                }
            },
        },
        last is Absent && snapshot_to_block <= to_block < u64::MAX ==> next == Ok::<
            Option<RindexerEventFilter>,
            Fault,
        >(None),
{
    let past: u64 = match last {
        LastLog::Absent => to_block,
        LastLog::At(block) => block,
        LastLog::Unnumbered => {
            return Err(Fault::MissingBlockNumber);
        },
    };
    if past == u64::MAX {
        return Err(Fault::ArithmeticOverflow);
    }
    let from_block: u64 = past + 1;
    if from_block > snapshot_to_block {
        return Ok(None);
    }
    if !limit_is_representable(from_block, limit) {
        return Err(Fault::ArithmeticOverflow);
    }
    let to_block = match last {
        LastLog::Absent => calculate_process_live_log_to_block(
            from_block,
            snapshot_to_block,
            limit,
        ),
        _ => calculate_process_historic_log_to_block(from_block, snapshot_to_block, limit),
    };
    Ok(Some(RindexerEventFilter { from_block, to_block }))
}

/// Where the last of `logs` stands.
pub fn last_log_of<T>(logs: &Vec<WrappedLog<T>>) -> (last: LastLog)
    ensures
        last == last_log(logs@),
        logs@.len() == 0 ==> last is Absent,
        logs@.len() > 0 ==> last == match logs@[logs@.len() - 1].block_number {
            Some(block) => LastLog::At(block),
            None => LastLog::Unnumbered,
        },
{
    if logs.len() == 0 {
        LastLog::Absent
    } else {
        match logs[logs.len() - 1].block_number {
            Some(block) => LastLog::At(block),
            None => LastLog::Unnumbered,
        }
    }
}

/// What historic indexing waits for.
#[derive(Clone, Copy, Debug, PartialEq, Eq, Structural)]
pub enum HistoricPhase {
    /// A permit to send a request.
    Permit,
    /// The logs of the current range.
    Logs,
    /// The delivery of the logs of the current range, the last of which stands there.
    Delivery(LastLog),
    /// Nothing: the work is done, or it failed.
    Ended,
}

/// What historic indexing asks for.
#[derive(Clone, Copy, Debug, PartialEq, Eq, Structural)]
pub enum HistoricAction {
    /// Wait for a permit to send a request.
    AcquirePermit,
    /// Request the logs of these blocks.
    GetLogs(RindexerEventFilter),
    /// Release the permit and end; live indexing follows where that is set.
    Finish { live_indexing: bool },
    /// Fail.
    Abort(Fault),
}

/// Indexing of the blocks up to a snapshot. It asks for one thing at a time and goes on with what
/// came of it.
#[derive(Clone, Copy, Debug, PartialEq, Eq, Structural)]
pub struct HistoricSync {
    pub current_filter: RindexerEventFilter,
    pub block_range_limitation: Option<u64>,
    pub min_block_range_limitation: Option<u64>,
    pub snapshot_to_block: u64,
    /// Whether live indexing follows.
    pub live_indexing: bool,
    pub phase: HistoricPhase,
}

/// What came of what historic indexing asked for.
pub enum HistoricStep {
    /// No permit could be acquired.
    PermitLost,
    /// A permit was acquired.
    PermitAcquired,
    /// The logs of the current range came.
    LogsFetched,
    /// The request for logs failed, with this error response where there is one.
    LogsFailed(Option<JsonRpcError>),
    /// The logs of the current range were delivered.
    Delivered,
    /// There was nobody left to deliver the logs to.
    DeliveryLost,
}

/// `step` takes historic indexing from `before` to `after`.
pub open spec fn historic_step(before: HistoricSync, step: HistoricStep, after: HistoricSync) -> bool {
    let filter = before.current_filter;
    let limit = before.block_range_limitation;
    let new_limit = after.block_range_limitation;
    match step {
        HistoricStep::PermitLost => before.phase is Permit && after == before,
        HistoricStep::PermitAcquired => {
            &&& before.phase is Permit
            &&& after == if filter.countable() {
                HistoricSync { phase: HistoricPhase::Logs, ..before }
            } else {
                before.ended(limit)
            }
        },
        HistoricStep::LogsFetched => {
            &&& before.phase is Logs
            &&& after.phase is Delivery
            &&& after == HistoricSync { phase: after.phase, ..before }
        },
        HistoricStep::LogsFailed(response) => {
            &&& before.phase is Logs
            &&& after == if recoverable(response, filter, limit) {
                before.at(range_after_error(response, filter, limit), new_limit)
            } else {
                before.ended(limit)
            }
        },
        HistoricStep::Delivered => {
            &&& before.phase matches HistoricPhase::Delivery(last)
            &&& after == match range_after_logs(
                last,
                filter.to_block,
                before.snapshot_to_block,
                new_limit,
            ) {
                Ok(Some(next)) => before.at(next, new_limit),
                _ => before.ended(new_limit),
            }
        },
        HistoricStep::DeliveryLost => before.phase is Delivery && after == before.ended(limit),
    }
}

impl HistoricSync {
    /// What is waited for can come: a permit is wanted for blocks up to the snapshot only, and
    /// requests go out for ranges whose blocks can be counted.
    pub open spec fn wf(self) -> bool {
        match self.phase {
            HistoricPhase::Permit => self.current_filter.from_block <= self.snapshot_to_block,
            HistoricPhase::Logs => self.current_filter.countable(),
            HistoricPhase::Delivery(_) => self.current_filter.countable(),
            HistoricPhase::Ended => true,
        }
    }

    /// The state with `filter` and `limit`: it wants a permit while the range starts at or before
    /// the snapshot, and ends otherwise.
    pub open spec fn at(self, filter: RindexerEventFilter, limit: Option<u64>) -> HistoricSync {
        HistoricSync {
            current_filter: filter,
            block_range_limitation: limit,
            phase: if filter.from_block <= self.snapshot_to_block {
                HistoricPhase::Permit
            } else {
                HistoricPhase::Ended
            },
            ..self
        }
    }

    /// The ended state, with `limit`.
    pub open spec fn ended(self, limit: Option<u64>) -> HistoricSync {
        HistoricSync { block_range_limitation: limit, phase: HistoricPhase::Ended, ..self }
    }

    /// What a state that has settled asks for.
    pub open spec fn request(self) -> HistoricAction {
        if self.phase == HistoricPhase::Permit {
            HistoricAction::AcquirePermit
        } else {
            HistoricAction::Finish { live_indexing: self.live_indexing }
        }
    }

    /// Goes on with a new range and limit.
    fn resume(&mut self, filter: RindexerEventFilter, limit: Option<u64>) -> (action:
        HistoricAction)
        ensures
            *final(self) == old(self).at(filter, limit),
            action == old(self).at(filter, limit).request(),
            final(self).wf(),
            filter.from_block <= old(self).snapshot_to_block ==> action
                == HistoricAction::AcquirePermit && final(self).phase == HistoricPhase::Permit,
            filter.from_block > old(self).snapshot_to_block ==> action == (HistoricAction::Finish {
                live_indexing: old(self).live_indexing,
            }) && final(self).phase == HistoricPhase::Ended,
            final(self).current_filter == filter,
            final(self).block_range_limitation == limit,
            final(self).min_block_range_limitation == old(self).min_block_range_limitation,
            final(self).snapshot_to_block == old(self).snapshot_to_block,
            final(self).live_indexing == old(self).live_indexing,
    {
        self.current_filter = filter;
        self.block_range_limitation = limit;
        if filter.from_block <= self.snapshot_to_block {
            self.phase = HistoricPhase::Permit;
            HistoricAction::AcquirePermit
        } else {
            self.phase = HistoricPhase::Ended;
            HistoricAction::Finish { live_indexing: self.live_indexing }
        }
    }

    /// Goes on once a permit has been acquired, or acquiring it has failed. Without a permit it is
    /// asked for again.
    pub fn on_permit(&mut self, acquired: bool) -> (action: HistoricAction)
        requires
            old(self).wf(),
            old(self).phase == HistoricPhase::Permit,
        ensures
            final(self).wf(),
            !acquired ==> *final(self) == *old(self) && action == HistoricAction::AcquirePermit,
            acquired && old(self).current_filter.countable() ==> {
                &&& *final(self) == (HistoricSync { phase: HistoricPhase::Logs, ..*old(self) })
                &&& action == HistoricAction::GetLogs(old(self).current_filter)
            },
            acquired && !old(self).current_filter.countable() ==> {
                &&& *final(self) == old(self).ended(old(self).block_range_limitation)
                &&& action == HistoricAction::Abort(Fault::ArithmeticOverflow)
            },
            historic_step(
                *old(self),
                if acquired {
                    HistoricStep::PermitAcquired
                } else {
                    HistoricStep::PermitLost
                },
                *final(self),
            ),
            final(self).min_block_range_limitation == old(self).min_block_range_limitation,
            final(self).snapshot_to_block == old(self).snapshot_to_block,
            final(self).live_indexing == old(self).live_indexing,
            final(self).current_filter == old(self).current_filter,
            final(self).block_range_limitation == old(self).block_range_limitation,
            acquired ==> action == if old(self).current_filter.from_block <= old(
                self,
            ).current_filter.to_block && old(self).current_filter.to_block - old(
                self,
            ).current_filter.from_block + 1 <= u64::MAX {
                HistoricAction::GetLogs(old(self).current_filter)
            } else {
                HistoricAction::Abort(Fault::ArithmeticOverflow)
            },
    {
        if !acquired {
            return HistoricAction::AcquirePermit;
        }
        let filter = self.current_filter;
        if filter.from_block > filter.to_block || filter.to_block - filter.from_block == u64::MAX {
            self.phase = HistoricPhase::Ended;
            HistoricAction::Abort(Fault::ArithmeticOverflow)
        } else {
            self.phase = HistoricPhase::Logs;
            HistoricAction::GetLogs(filter)
        }
    }

    /// Goes on with the logs of the current range: they are to be delivered with the range.
    pub fn on_logs<T>(&mut self, logs: Vec<WrappedLog<T>>) -> (result: FetchLogsResult<T>)
        requires
            old(self).wf(),
            old(self).phase == HistoricPhase::Logs,
        ensures
            final(self).wf(),
            *final(self) == (HistoricSync {
                phase: HistoricPhase::Delivery(last_log(logs@)),
                ..*old(self)
            }),
            result == (FetchLogsResult {
                logs,
                from_block: old(self).current_filter.from_block,
                to_block: old(self).current_filter.to_block,
            }),
            historic_step(*old(self), HistoricStep::LogsFetched, *final(self)),
            logs@.len() == 0 ==> final(self).phase == HistoricPhase::Delivery(LastLog::Absent),
            logs@.len() > 0 ==> final(self).phase == HistoricPhase::Delivery(
                match logs@[logs@.len() - 1].block_number {
                    Some(block) => LastLog::At(block),
                    None => LastLog::Unnumbered,
                },
            ),
    {
        self.phase = HistoricPhase::Delivery(last_log_of(&logs));
        FetchLogsResult {
            logs,
            from_block: self.current_filter.from_block,
            to_block: self.current_filter.to_block,
        }
    }

    /// Goes on once the request for the current range has failed.
    pub fn on_logs_error<D: Fn(Option<u64>, Option<u64>) -> Option<u64>>(
        &mut self,
        response: &Option<JsonRpcError>,
        decrease: D,
    ) -> (action: HistoricAction)
        requires
            old(self).wf(),
            old(self).phase == HistoricPhase::Logs,
            forall|limit: Option<u64>|
                decrease.requires((limit, old(self).min_block_range_limitation)),
        ensures
            final(self).wf(),
            ({
                let filter = old(self).current_filter;
                let limit = old(self).block_range_limitation;
                let new_limit = final(self).block_range_limitation;
                if recoverable(*response, filter, limit) {
                    &&& *final(self) == old(self).at(
                        range_after_error(*response, filter, limit),
                        new_limit,
                    )
                    &&& action == final(self).request()
                    &&& match limit_to_decrease(*response, filter, limit) {
                        Some(limit) => decrease.ensures(
                            (limit, old(self).min_block_range_limitation),
                            new_limit,
                        ),
                        None => new_limit == limit,
                    }
                } else {
                    &&& *final(self) == old(self).ended(limit)
                    &&& action == HistoricAction::Abort(Fault::ArithmeticOverflow)
                }
            }),
            historic_step(*old(self), HistoricStep::LogsFailed(*response), *final(self)),
            final(self).min_block_range_limitation == old(self).min_block_range_limitation,
            final(self).snapshot_to_block == old(self).snapshot_to_block,
            final(self).live_indexing == old(self).live_indexing,
            action == HistoricAction::AcquirePermit || action == HistoricAction::Abort(
                Fault::ArithmeticOverflow,
            ) || action == (HistoricAction::Finish { live_indexing: old(self).live_indexing }),
            action == HistoricAction::AcquirePermit ==> final(self).current_filter.from_block
                <= old(self).snapshot_to_block,
            action is Finish ==> final(self).current_filter.from_block > old(
                self,
            ).snapshot_to_block,
            *response is None && old(self).block_range_limitation is None ==> {
                &&& final(self).current_filter == old(self).current_filter
                &&& final(self).block_range_limitation is None
            },
            *response matches Some(error) ==> (error_hints(error).suggested matches Some(bounds)
                ==> final(self).current_filter == RindexerEventFilter {
                from_block: bounds.from->Number_0,
                to_block: bounds.to->Number_0,
            }),
    {
        let result = try_handle_get_logs_error(
            response,
            self.current_filter,
            self.block_range_limitation,
            self.min_block_range_limitation,
            decrease,
        );
        match result {
            Ok(result) => self.resume(result.next, result.block_range),
            Err(fault) => {
                self.phase = HistoricPhase::Ended;
                HistoricAction::Abort(fault)
            },
        }
    }

    /// Goes on once the logs of the current range have been delivered, or there was nobody left to
    /// deliver them to. `increase` gives the new limit from a limit and the smallest limit.
    pub fn on_delivery<I: Fn(Option<u64>, Option<u64>) -> Option<u64>>(
        &mut self,
        delivered: bool,
        increase: I,
    ) -> (action: HistoricAction)
        requires
            old(self).wf(),
            old(self).phase is Delivery,
            increase.requires(
                (old(self).block_range_limitation, old(self).min_block_range_limitation),
            ),
        ensures
            final(self).wf(),
            !delivered ==> {
                &&& *final(self) == old(self).ended(old(self).block_range_limitation)
                &&& action == final(self).request()
            },
            delivered ==> {
                let new_limit = final(self).block_range_limitation;
                &&& increase.ensures(
                    (old(self).block_range_limitation, old(self).min_block_range_limitation),
                    new_limit,
                )
                &&& match range_after_logs(
                    old(self).phase->Delivery_0,
                    old(self).current_filter.to_block,
                    old(self).snapshot_to_block,
                    new_limit,
                ) {
                    Ok(Some(next)) => {
                        &&& *final(self) == old(self).at(next, new_limit)
                        &&& action == HistoricAction::AcquirePermit
                    },
                    Ok(None) => {
                        &&& *final(self) == old(self).ended(new_limit)
                        &&& action == final(self).request()
                    },
                    Err(fault) => {
                        &&& *final(self) == old(self).ended(new_limit)
                        &&& action == HistoricAction::Abort(fault)
                    },
                }
            },
            historic_step(
                *old(self),
                if delivered {
                    HistoricStep::Delivered
                } else {
                    HistoricStep::DeliveryLost
                },
                *final(self),
            ),
            final(self).min_block_range_limitation == old(self).min_block_range_limitation,
            final(self).snapshot_to_block == old(self).snapshot_to_block,
            final(self).live_indexing == old(self).live_indexing,
            !delivered ==> action == (HistoricAction::Finish {
                live_indexing: old(self).live_indexing,
            }),
            action is Finish ==> action == (HistoricAction::Finish {
                live_indexing: old(self).live_indexing,
            }),
            delivered && old(self).phase == HistoricPhase::Delivery(LastLog::Absent) && old(
                self,
            ).snapshot_to_block <= old(self).current_filter.to_block < u64::MAX ==> action == (
            HistoricAction::Finish { live_indexing: old(self).live_indexing }),
            delivered ==> (old(self).phase matches HistoricPhase::Delivery(LastLog::At(block))
                ==> (old(self).snapshot_to_block <= block < u64::MAX ==> action == (
            HistoricAction::Finish { live_indexing: old(self).live_indexing }))),
            action == HistoricAction::AcquirePermit ==> {
                &&& delivered
                &&& final(self).current_filter.from_block <= old(self).snapshot_to_block
                &&& match old(self).phase {
                    HistoricPhase::Delivery(LastLog::Absent) => {
                        final(self).current_filter.from_block == old(self).current_filter.to_block
                            + 1
                    },
                    HistoricPhase::Delivery(LastLog::At(block)) => {
                        final(self).current_filter.from_block == block + 1
                    },
                    _ => false,
                }
            },
    {
        let last = match self.phase {
            HistoricPhase::Delivery(last) => last,
            _ => LastLog::Absent,
        };
        if !delivered {
            self.phase = HistoricPhase::Ended;
            return HistoricAction::Finish { live_indexing: self.live_indexing };
        }
        let limit = increase(self.block_range_limitation, self.min_block_range_limitation);
        let to_block = self.current_filter.to_block;
        self.block_range_limitation = limit;
        match next_historic_filter(last, to_block, self.snapshot_to_block, limit) {
            Ok(Some(next)) => self.resume(next, limit),
            Ok(None) => {
                self.phase = HistoricPhase::Ended;
                HistoricAction::Finish { live_indexing: self.live_indexing }
            },
            Err(fault) => {
                self.phase = HistoricPhase::Ended;
                HistoricAction::Abort(fault)
            },
        }
    }
}

/// Starts to index the blocks of `initial_filter`, the last of which is the snapshot, and says
/// what to do first. Live indexing follows where the configuration asks for it and it is not
/// forced off.
pub fn fetch_logs_stream(
    config: &EventProcessingConfig,
    initial_filter: RindexerEventFilter,
    force_no_live_indexing: bool,
) -> (started: (HistoricSync, HistoricAction))
    requires
        limit_fits(initial_filter.from_block, config.max_block_range),
    ensures
        started.0.wf(),
        started.0.min_block_range_limitation == config.min_block_range,
        started.0.snapshot_to_block == initial_filter.to_block,
        started.0.live_indexing == (config.live_indexing && !force_no_live_indexing),
        started.0 == started.0.at(
            RindexerEventFilter {
                from_block: initial_filter.from_block,
                to_block: capped_to_block(
                    initial_filter.from_block,
                    initial_filter.to_block,
                    config.max_block_range,
                ),
            },
            config.max_block_range,
        ),
        started.1 == started.0.request(),
        started.0.current_filter.from_block == initial_filter.from_block,
        config.max_block_range is None ==> started.0.current_filter.to_block
            == initial_filter.to_block,
        config.max_block_range matches Some(limit) ==> started.0.current_filter.to_block
            == if initial_filter.from_block + limit - 1 > initial_filter.to_block {
            initial_filter.to_block as int
        } else {
            initial_filter.from_block + limit - 1
        },
        started.0.block_range_limitation == config.max_block_range,
        started.1 == if initial_filter.from_block <= initial_filter.to_block {
            HistoricAction::AcquirePermit
        } else {
            HistoricAction::Finish {
                live_indexing: config.live_indexing && !force_no_live_indexing,
            }
        },
{
    let snapshot_to_block = initial_filter.to_block;
    let mut sync = HistoricSync {
        current_filter: initial_filter,
        block_range_limitation: config.max_block_range,
        min_block_range_limitation: config.min_block_range,
        snapshot_to_block,
        live_indexing: config.live_indexing && !force_no_live_indexing,
        phase: HistoricPhase::Ended,
    };
    let mut filter = initial_filter;
    if config.max_block_range.is_some() {
        filter.to_block =
        calculate_process_live_log_to_block(
            initial_filter.from_block,
            snapshot_to_block,
            config.max_block_range,
        );
    }
    let action = sync.resume(filter, config.max_block_range);
    (sync, action)
}

} // verus!
