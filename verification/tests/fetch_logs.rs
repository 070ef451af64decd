use rindexer::config::{EventProcessingConfig, TopicId};
use rindexer::fetch_logs::{
    calculate_process_historic_log_to_block, calculate_process_live_log_to_block,
    fetch_logs_stream, handle_get_logs_error, last_log_of, limit_is_representable,
    next_historic_filter, try_handle_get_logs_error, Fault, HistoricAction, HistoricPhase,
    HistoricSync, LastLog, RindexerEventFilter, WrappedLog,
};
use rindexer::retry::JsonRpcError;

fn config(max_block_range: Option<u64>, live_indexing: bool) -> EventProcessingConfig {
    EventProcessingConfig {
        contract_name: "Token".to_string(),
        event_name: "Transfer".to_string(),
        topic_id: TopicId { high: 0, low: 1 },
        live_indexing,
        index_event_in_order: false,
        indexing_distance_from_head: 0,
        disable_logs_bloom_checks: false,
        max_block_range,
        min_block_range: Some(1),
    }
}

fn blocks(from_block: u64, to_block: u64) -> RindexerEventFilter {
    RindexerEventFilter { from_block, to_block }
}

fn logs(numbers: &[Option<u64>]) -> Vec<WrappedLog<&'static str>> {
    numbers.iter().map(|n| WrappedLog { block_number: *n, inner: "log" }).collect()
}

fn keep(current: Option<u64>, _min: Option<u64>) -> Option<u64> {
    current
}

fn double(current: Option<u64>, _min: Option<u64>) -> Option<u64> {
    current.map(|n| n * 2)
}

fn less_min(current: Option<u64>, min: Option<u64>) -> Option<u64> {
    current.map(|n| n - min.unwrap())
}

fn response(message: &str) -> Option<JsonRpcError> {
    Some(JsonRpcError { code: 0, message: message.to_string(), data: None })
}

#[test]
fn range_ends_at_its_limit_or_at_the_snapshot() {
    for calculate in
        [calculate_process_live_log_to_block, calculate_process_historic_log_to_block]
    {
        assert_eq!(calculate(10, 100, None), 100);
        assert_eq!(calculate(10, 100, Some(5)), 14);
        assert_eq!(calculate(10, 100, Some(91)), 100);
        assert_eq!(calculate(10, 100, Some(92)), 100);
        assert_eq!(calculate(10, 100, Some(0)), 9);
        assert_eq!(calculate(1, u64::MAX, Some(u64::MAX - 1)), u64::MAX - 1);
    }
}

#[test]
fn limit_past_the_last_block_number_is_noticed() {
    assert!(limit_is_representable(10, None));
    assert!(limit_is_representable(10, Some(u64::MAX - 10)));
    assert!(!limit_is_representable(10, Some(u64::MAX - 9)));
    assert!(limit_is_representable(1, Some(0)));
    assert!(!limit_is_representable(0, Some(0)));
}

#[test]
fn last_log_is_known_by_its_block() {
    assert_eq!(last_log_of(&logs(&[])), LastLog::Absent);
    assert_eq!(last_log_of(&logs(&[Some(1), Some(7)])), LastLog::At(7));
    assert_eq!(last_log_of(&logs(&[Some(1), None])), LastLog::Unnumbered);
}

#[test]
fn next_range_starts_behind_the_last_log_or_the_range() {
    assert_eq!(next_historic_filter(LastLog::Absent, 20, 100, Some(10)), Ok(Some(blocks(21, 30))));
    assert_eq!(next_historic_filter(LastLog::At(15), 20, 100, Some(10)), Ok(Some(blocks(16, 25))));
    assert_eq!(next_historic_filter(LastLog::At(15), 20, 100, None), Ok(Some(blocks(16, 100))));
    assert_eq!(next_historic_filter(LastLog::Absent, 100, 100, None), Ok(None));
    assert_eq!(next_historic_filter(LastLog::At(100), 120, 100, None), Ok(None));
    assert_eq!(
        next_historic_filter(LastLog::Unnumbered, 20, 100, None),
        Err(Fault::MissingBlockNumber)
    );
    assert_eq!(
        next_historic_filter(LastLog::Absent, u64::MAX, u64::MAX, None),
        Err(Fault::ArithmeticOverflow)
    );
    assert_eq!(
        next_historic_filter(LastLog::Absent, 20, 100, Some(u64::MAX)),
        Err(Fault::ArithmeticOverflow)
    );
}

#[test]
fn stream_starts_with_a_limited_range() {
    let (sync, action) = fetch_logs_stream(&config(Some(10), true), blocks(5, 100), false);
    assert_eq!(
        sync,
        HistoricSync {
            current_filter: blocks(5, 14),
            block_range_limitation: Some(10),
            min_block_range_limitation: Some(1),
            snapshot_to_block: 100,
            live_indexing: true,
            phase: HistoricPhase::Permit,
        }
    );
    assert_eq!(action, HistoricAction::AcquirePermit);
}

#[test]
fn stream_without_a_limit_starts_with_everything() {
    let (sync, _) = fetch_logs_stream(&config(None, false), blocks(5, 100), false);
    assert_eq!(sync.current_filter, blocks(5, 100));
    assert_eq!(sync.block_range_limitation, None);
}

#[test]
fn stream_behind_its_snapshot_ends_at_once() {
    let (_, action) = fetch_logs_stream(&config(None, true), blocks(101, 100), false);
    assert_eq!(action, HistoricAction::Finish { live_indexing: true });
    let (_, action) = fetch_logs_stream(&config(None, true), blocks(101, 100), true);
    assert_eq!(action, HistoricAction::Finish { live_indexing: false });
    let (_, action) = fetch_logs_stream(&config(None, false), blocks(101, 100), false);
    assert_eq!(action, HistoricAction::Finish { live_indexing: false });
}

#[test]
fn lost_permit_is_asked_for_again() {
    let (mut sync, _) = fetch_logs_stream(&config(Some(10), true), blocks(5, 100), false);
    let before = sync;
    assert_eq!(sync.on_permit(false), HistoricAction::AcquirePermit);
    assert_eq!(sync, before);
}

#[test]
fn logs_are_delivered_with_their_range() {
    let (mut sync, _) = fetch_logs_stream(&config(Some(10), true), blocks(5, 100), false);
    assert_eq!(sync.on_permit(true), HistoricAction::GetLogs(blocks(5, 14)));
    let result = sync.on_logs(logs(&[Some(6), Some(8)]));
    assert_eq!(result.from_block, 5);
    assert_eq!(result.to_block, 14);
    assert_eq!(result.logs.len(), 2);
    assert_eq!(result.logs[1].block_number, Some(8));
    assert_eq!(result.logs[1].inner, "log");
    assert_eq!(sync.phase, HistoricPhase::Delivery(LastLog::At(8)));
    assert_eq!(sync.on_delivery(true, double), HistoricAction::AcquirePermit);
    assert_eq!(sync.current_filter, blocks(9, 28));
    assert_eq!(sync.block_range_limitation, Some(20));
}

#[test]
fn finished_run_has_delivered_every_block() {
    let (mut sync, mut action) = fetch_logs_stream(&config(Some(7), false), blocks(3, 50), false);
    let mut delivered = [false; 51];
    let mut requests = 0;
    loop {
        action = match action {
            HistoricAction::AcquirePermit => sync.on_permit(true),
            HistoricAction::GetLogs(range) => {
                requests += 1;
                if requests % 3 == 0 {
                    sync.on_logs_error(&None, keep)
                } else {
                    let found = if requests % 2 == 0 { logs(&[Some(range.from_block)]) } else { logs(&[]) };
                    let result = sync.on_logs(found);
                    for block in result.from_block..=result.to_block {
                        delivered[block as usize] = true;
                    }
                    sync.on_delivery(true, double)
                }
            }
            HistoricAction::Finish { live_indexing } => {
                assert!(!live_indexing);
                break;
            }
            HistoricAction::Abort(_) => panic!("aborted"),
        };
    }
    assert!(requests > 3);
    assert!(delivered[3..=50].iter().all(|d| *d));
}

#[test]
fn deliveries_are_no_more_than_blocks() {
    let (mut sync, mut action) = fetch_logs_stream(&config(Some(1), false), blocks(3, 12), false);
    let mut deliveries = 0;
    loop {
        action = match action {
            HistoricAction::AcquirePermit => sync.on_permit(true),
            HistoricAction::GetLogs(_) => {
                let _ = sync.on_logs(logs(&[]));
                deliveries += 1;
                sync.on_delivery(true, keep)
            }
            _ => break,
        };
    }
    assert_eq!(deliveries, 10);
}

#[test]
fn stream_ends_where_nobody_listens() {
    let (mut sync, _) = fetch_logs_stream(&config(Some(10), true), blocks(5, 100), false);
    sync.on_permit(true);
    let _ = sync.on_logs(logs(&[]));
    assert_eq!(sync.on_delivery(false, double), HistoricAction::Finish { live_indexing: true });
    assert_eq!(sync.block_range_limitation, Some(10));
    assert_eq!(sync.phase, HistoricPhase::Ended);
}

#[test]
fn log_without_a_block_number_ends_the_stream() {
    let (mut sync, _) = fetch_logs_stream(&config(Some(10), true), blocks(5, 100), false);
    sync.on_permit(true);
    let _ = sync.on_logs(logs(&[None]));
    assert_eq!(sync.on_delivery(true, keep), HistoricAction::Abort(Fault::MissingBlockNumber));
}

#[test]
fn increased_limit_past_the_last_block_number_ends_the_stream() {
    let (mut sync, _) = fetch_logs_stream(&config(Some(10), true), blocks(5, 100), false);
    sync.on_permit(true);
    let _ = sync.on_logs(logs(&[]));
    let action = sync.on_delivery(true, |_, _| Some(u64::MAX));
    assert_eq!(action, HistoricAction::Abort(Fault::ArithmeticOverflow));
}

#[test]
fn inverted_range_ends_the_stream() {
    let (mut sync, _) = fetch_logs_stream(&config(None, true), blocks(5, 100), false);
    sync.on_permit(true);
    let error = response("this block range should work: [0x20, 0x10]");
    assert_eq!(sync.on_logs_error(&error, keep), HistoricAction::AcquirePermit);
    assert_eq!(sync.current_filter, blocks(32, 16));
    assert_eq!(sync.on_permit(true), HistoricAction::Abort(Fault::ArithmeticOverflow));
}

#[test]
fn proposal_behind_the_snapshot_ends_the_stream() {
    let (mut sync, _) = fetch_logs_stream(&config(None, true), blocks(5, 100), false);
    sync.on_permit(true);
    let error = response("this block range should work: [0x65, 0x66]");
    assert_eq!(sync.on_logs_error(&error, keep), HistoricAction::Finish { live_indexing: true });
}

#[test]
fn range_that_cannot_be_counted_ends_the_stream() {
    let (mut sync, _) = fetch_logs_stream(&config(None, true), blocks(0, u64::MAX), false);
    assert_eq!(sync.on_permit(true), HistoricAction::Abort(Fault::ArithmeticOverflow));
}

#[test]
fn error_response_gives_the_next_range() {
    let error = response("limited to a 100 range");
    let result = handle_get_logs_error(&error, blocks(10, 1000), Some(50), Some(3), less_min);
    assert_eq!(result.next, blocks(10, 110));
    assert_eq!(result.block_range, Some(47));
}

#[test]
fn proposal_without_a_limit_decreases_no_limit() {
    let error = response("Try with this block range [0x10, 0x20]");
    let result = handle_get_logs_error(&error, blocks(10, 1000), None, Some(3), less_min);
    assert_eq!(result.next, blocks(16, 32));
    assert_eq!(result.block_range, None);
}

#[test]
fn error_without_a_response_halves_the_limit() {
    let result = handle_get_logs_error(&None, blocks(10, 1000), Some(50), Some(3), less_min);
    assert_eq!(result.next, blocks(10, 35));
    assert_eq!(result.block_range, Some(22));
}

#[test]
fn halved_limit_does_not_exceed_the_range() {
    let result = handle_get_logs_error(&None, blocks(10, 20), Some(50), Some(3), less_min);
    assert_eq!(result.next, blocks(10, 20));
    assert_eq!(result.block_range, Some(22));
}

#[test]
fn limit_of_one_block_keeps_the_range() {
    let result = handle_get_logs_error(&None, blocks(10, 20), Some(1), None, keep);
    assert_eq!(result.next, blocks(10, 20));
    assert_eq!(result.block_range, Some(0));
}

#[test]
fn error_without_a_response_and_a_limit_keeps_the_range() {
    let result = handle_get_logs_error(&None, blocks(10, 20), None, Some(3), less_min);
    assert_eq!(result.next, blocks(10, 20));
    assert_eq!(result.block_range, None);
}

#[test]
fn response_without_a_retry_halves_the_limit() {
    let error = response("timeout");
    let result = handle_get_logs_error(&error, blocks(10, 10), Some(50), Some(3), less_min);
    assert_eq!(result.next, blocks(10, 10));
    assert_eq!(result.block_range, Some(22));
}

#[test]
fn errors_near_the_last_block_number_are_faults() {
    let fault = Err(Fault::ArithmeticOverflow);
    let near = blocks(u64::MAX - 10, u64::MAX);
    let error = response("block range too large");
    assert_eq!(try_handle_get_logs_error(&error, near, None, None, keep), fault);
    let error = response("limited to a 18446744073709551615");
    assert_eq!(try_handle_get_logs_error(&error, blocks(1, 2), None, None, keep), fault);
    assert_eq!(try_handle_get_logs_error(&None, near, Some(22), None, keep), fault);
    assert_eq!(try_handle_get_logs_error(&None, blocks(2, 1), None, None, keep), fault);
    assert_eq!(try_handle_get_logs_error(&None, blocks(0, u64::MAX), None, None, keep), fault);
    let result = try_handle_get_logs_error(&None, near, Some(20), None, keep).unwrap();
    assert_eq!(result.next, near);
    assert_eq!(result.block_range, Some(10));
}

#[test]
fn only_a_proposal_moves_the_first_block() {
    for message in ["limited to a 7", "block range too large", "timeout"] {
        let result = try_handle_get_logs_error(&response(message), blocks(10, 99), None, None, keep);
        assert_eq!(result.unwrap().next.from_block, 10);
    }
    let error = response("this block range should work: [0xb, 0xc]");
    let result = try_handle_get_logs_error(&error, blocks(10, 99), None, None, keep);
    assert_eq!(result.unwrap().next, blocks(11, 12));
}
