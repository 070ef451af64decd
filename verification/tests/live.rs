use rindexer::config::{EventProcessingConfig, TopicId};
use rindexer::fetch_logs::{Fault, RindexerEventFilter, WrappedLog};
use rindexer::live::{
    decide, limit_request, live_indexing_stream, LatestBlock, LiveAction, LiveDecision,
    LiveIndexing, LiveIndexingState, NO_NEW_BLOCK_INTERVAL,
};

fn topic(low: u128) -> TopicId {
    TopicId { high: 0, low }
}

fn config(low: u128) -> EventProcessingConfig {
    EventProcessingConfig {
        contract_name: "Token".to_string(),
        event_name: "Transfer".to_string(),
        topic_id: topic(low),
        live_indexing: true,
        index_event_in_order: false,
        indexing_distance_from_head: 10,
        disable_logs_bloom_checks: true,
        max_block_range: None,
        min_block_range: None,
    }
}

fn blocks(from_block: u64, to_block: u64) -> RindexerEventFilter {
    RindexerEventFilter { from_block, to_block }
}

fn logs(numbers: &[Option<u64>]) -> Vec<WrappedLog<()>> {
    numbers.iter().map(|n| WrappedLog { block_number: *n, inner: () }).collect()
}

fn state(from_block: u64, last_seen: u64) -> LiveIndexingState {
    LiveIndexingState {
        filter: blocks(from_block, from_block),
        last_seen_block_number: last_seen,
        last_no_new_block_log_time: 0,
    }
}

/// Live indexing of one event whose history ends with block 99, in its first turn.
fn first_turn(config: EventProcessingConfig, is_dependency_mode: bool) -> LiveIndexing {
    let (mut live, action) =
        live_indexing_stream(vec![config], &vec![Some(blocks(0, 99))], is_dependency_mode, 0);
    assert_eq!(action, LiveAction::Sleep { millis: 100 });
    assert_eq!(live.on_resumed(), LiveAction::GetLatestBlock { event: 0 });
    live
}

/// Takes a turn up to the logs of the request.
fn request(live: &mut LiveIndexing, latest: u64) -> RindexerEventFilter {
    let action = live.on_latest_block(LatestBlock::Number(latest), 0);
    assert_eq!(action, LiveAction::AcquirePermit { event: 0 });
    match live.on_permit(true) {
        LiveAction::GetLogs { event: 0, filter } => filter,
        other => panic!("{:?}", other),
    }
}

#[test]
fn live_indexing_starts_behind_the_history() {
    let live = first_turn(config(1), false);
    assert_eq!(
        live.state_of(topic(1)),
        Some(LiveIndexingState {
            filter: blocks(100, 100),
            last_seen_block_number: 99,
            last_no_new_block_log_time: 0,
        })
    );
    assert_eq!(live.state_of(topic(2)), None);
}

#[test]
fn request_ends_at_the_safe_block() {
    assert_eq!(
        decide(&state(100, 99), &config(1), 130, 0),
        LiveDecision::Request { to_block: 120 }
    );
}

#[test]
fn block_within_the_distance_is_not_safe_yet() {
    assert_eq!(decide(&state(100, 99), &config(1), 109, 0), LiveDecision::NotSafeYet);
    assert_eq!(
        decide(&state(100, 99), &config(1), 110, 0),
        LiveDecision::Request { to_block: 100 }
    );
}

#[test]
fn distance_past_the_head_is_a_fault() {
    assert_eq!(
        decide(&state(0, 99), &config(1), 9, 0),
        LiveDecision::Abort(Fault::ArithmeticOverflow)
    );
    assert_eq!(decide(&state(1, 99), &config(1), 10, 0), LiveDecision::NotSafeYet);
}

#[test]
fn seen_head_is_nothing_new_and_reported_now_and_then() {
    let state = state(100, 99);
    assert_eq!(decide(&state, &config(1), 99, 5), LiveDecision::NothingNew);
    assert_eq!(
        decide(&state, &config(1), 99, NO_NEW_BLOCK_INTERVAL - 1),
        LiveDecision::NothingNew
    );
    assert_eq!(
        decide(&state, &config(1), 99, NO_NEW_BLOCK_INTERVAL),
        LiveDecision::ReportNothingNew
    );
}

#[test]
fn single_safe_block_is_left_to_its_bloom_filter() {
    let mut config = config(1);
    config.disable_logs_bloom_checks = false;
    assert_eq!(
        decide(&state(100, 99), &config, 110, 0),
        LiveDecision::CheckLogsBloom { to_block: 100 }
    );
    assert_eq!(
        decide(&state(100, 99), &config, 111, 0),
        LiveDecision::Request { to_block: 101 }
    );
}

#[test]
fn request_keeps_to_the_limit_of_the_provider() {
    assert_eq!(limit_request(100, 120, Some(5)), LiveDecision::Request { to_block: 104 });
    assert_eq!(limit_request(100, 120, Some(20)), LiveDecision::Request { to_block: 119 });
    assert_eq!(limit_request(100, 120, Some(21)), LiveDecision::Request { to_block: 120 });
    assert_eq!(limit_request(100, 120, None), LiveDecision::Request { to_block: 120 });
    assert_eq!(limit_request(100, 120, Some(0)), LiveDecision::Request { to_block: 99 });
    let fault = LiveDecision::Abort(Fault::ArithmeticOverflow);
    assert_eq!(limit_request(0, 120, Some(0)), fault);
    assert_eq!(limit_request(0, u64::MAX, Some(5)), fault);
    assert_eq!(limit_request(0, u64::MAX, None), LiveDecision::Request { to_block: u64::MAX });
}

#[test]
fn handled_logs_move_the_event_forward() {
    let mut live = first_turn(config(1), false);
    assert_eq!(request(&mut live, 130), blocks(100, 120));
    let result = live.on_logs(logs(&[Some(101), Some(115)]));
    assert_eq!((result.from_block, result.to_block, result.logs.len()), (100, 120, 2));
    assert_eq!(live.on_handled(true), LiveAction::Sleep { millis: 100 });
    let state = live.state_of(topic(1)).unwrap();
    assert_eq!(state.filter, blocks(116, 120));
    assert_eq!(state.last_seen_block_number, 120);
}

#[test]
fn request_without_logs_moves_the_event_past_it() {
    let mut live = first_turn(config(1), false);
    request(&mut live, 130);
    let _ = live.on_logs(logs(&[]));
    live.on_handled(true);
    assert_eq!(live.state_of(topic(1)).unwrap().filter, blocks(121, 120));
}

#[test]
fn dependency_mode_waits_for_the_task() {
    let mut live = first_turn(config(1), true);
    request(&mut live, 130);
    let _ = live.on_logs(logs(&[]));
    assert_eq!(live.on_handled(true), LiveAction::AwaitTask { event: 0 });
    assert_eq!(live.state_of(topic(1)).unwrap().last_seen_block_number, 99);
    assert_eq!(live.on_task(true), LiveAction::Sleep { millis: 100 });
    assert_eq!(live.state_of(topic(1)).unwrap().last_seen_block_number, 120);
}

#[test]
fn failed_task_keeps_progress_and_backs_off() {
    let mut live = first_turn(config(1), true);
    let before = live.state_of(topic(1));
    request(&mut live, 130);
    let _ = live.on_logs(logs(&[]));
    live.on_handled(true);
    assert_eq!(live.on_task(false), LiveAction::Sleep { millis: 200 });
    assert_eq!(live.state_of(topic(1)), before);
}

#[test]
fn wait_doubles_up_to_a_minute() {
    let mut live = first_turn(config(1), false);
    let expected = [200, 400, 800, 1600, 3200, 6400, 12800, 25600, 51200, 60000, 60000];
    let answers = [LatestBlock::Failed, LatestBlock::Missing, LatestBlock::Unnumbered];
    for (i, millis) in expected.iter().enumerate() {
        let action = live.on_latest_block(answers[i % 3], 0);
        assert_eq!(action, LiveAction::Sleep { millis: *millis });
        assert_eq!(live.on_resumed(), LiveAction::Sleep { millis: 100 });
        assert_eq!(live.on_resumed(), LiveAction::GetLatestBlock { event: 0 });
    }
}

#[test]
fn logs_make_the_wait_short_again() {
    let mut live = first_turn(config(1), false);
    for _ in 0..4 {
        live.on_latest_block(LatestBlock::Failed, 0);
        live.on_resumed();
        live.on_resumed();
    }
    request(&mut live, 130);
    assert_eq!(live.on_logs_error(), LiveAction::Sleep { millis: 3200 });
    live.on_resumed();
    live.on_resumed();
    request(&mut live, 130);
    let _ = live.on_logs(logs(&[]));
    assert_eq!(live.on_handled(false), LiveAction::Sleep { millis: 200 });
}

#[test]
fn last_log_without_a_block_number_is_an_error() {
    let mut live = first_turn(config(1), false);
    let before = live.state_of(topic(1));
    request(&mut live, 130);
    let _ = live.on_logs(logs(&[Some(101), None]));
    assert_eq!(live.on_handled(true), LiveAction::Sleep { millis: 200 });
    assert_eq!(live.state_of(topic(1)), before);
}

#[test]
fn lost_permit_ends_the_turn() {
    let mut live = first_turn(config(1), false);
    live.on_latest_block(LatestBlock::Number(130), 0);
    assert_eq!(live.on_permit(false), LiveAction::Sleep { millis: 100 });
}

#[test]
fn irrelevant_block_is_skipped() {
    let mut config = config(1);
    config.disable_logs_bloom_checks = false;
    let mut live = first_turn(config, false);
    let action = live.on_latest_block(LatestBlock::Number(110), 0);
    assert_eq!(action, LiveAction::CheckLogsBloom { event: 0 });
    assert_eq!(live.on_logs_bloom(false), LiveAction::Sleep { millis: 100 });
    let state = live.state_of(topic(1)).unwrap();
    assert_eq!(state.filter, blocks(101, 100));
    assert_eq!(state.last_seen_block_number, 100);
}

#[test]
fn relevant_block_is_requested() {
    let mut config = config(1);
    config.disable_logs_bloom_checks = false;
    let mut live = first_turn(config, false);
    live.on_latest_block(LatestBlock::Number(110), 0);
    assert_eq!(live.on_logs_bloom(true), LiveAction::AcquirePermit { event: 0 });
    let filter = blocks(100, 100);
    assert_eq!(live.on_permit(true), LiveAction::GetLogs { event: 0, filter });
}

#[test]
fn skipping_the_last_block_number_is_a_fault() {
    let mut config = config(1);
    config.disable_logs_bloom_checks = false;
    config.indexing_distance_from_head = 0;
    let filters = vec![Some(blocks(0, u64::MAX - 1))];
    let (mut live, _) = live_indexing_stream(vec![config], &filters, false, 0);
    live.on_resumed();
    live.on_latest_block(LatestBlock::Number(u64::MAX), 0);
    assert_eq!(live.on_logs_bloom(false), LiveAction::Abort(Fault::ArithmeticOverflow));
}

#[test]
fn next_block_past_the_last_block_number_is_a_fault() {
    let mut live = first_turn(config(1), false);
    request(&mut live, 130);
    let _ = live.on_logs(logs(&[Some(u64::MAX)]));
    assert_eq!(live.on_handled(true), LiveAction::Abort(Fault::ArithmeticOverflow));
}

#[test]
fn chain_that_stands_still_is_reported_once_per_interval() {
    let mut live = first_turn(config(1), false);
    let now = NO_NEW_BLOCK_INTERVAL + 7;
    let action = live.on_latest_block(LatestBlock::Number(99), now);
    assert_eq!(action, LiveAction::ReportNothingNew { event: 0 });
    assert_eq!(live.state_of(topic(1)).unwrap().last_no_new_block_log_time, now);
    assert_eq!(live.on_resumed(), LiveAction::Sleep { millis: 100 });
    live.on_resumed();
    let action = live.on_latest_block(LatestBlock::Number(99), now + 1);
    assert_eq!(action, LiveAction::Sleep { millis: 100 });
}

#[test]
fn events_take_turns_and_those_without_a_state_are_passed_over() {
    let configs = vec![config(1), config(2), config(3)];
    let filters = vec![Some(blocks(0, 9)), None, Some(blocks(0, 19))];
    let (mut live, _) = live_indexing_stream(configs, &filters, false, 0);
    assert_eq!(live.on_resumed(), LiveAction::GetLatestBlock { event: 0 });
    let action = live.on_latest_block(LatestBlock::Number(9), 0);
    assert_eq!(action, LiveAction::GetLatestBlock { event: 2 });
    let action = live.on_latest_block(LatestBlock::Number(19), 0);
    assert_eq!(action, LiveAction::Sleep { millis: 100 });
}

#[test]
fn events_of_one_topic_share_the_last_state() {
    let configs = vec![config(1), config(1), config(1)];
    let filters = vec![Some(blocks(0, 9)), Some(blocks(0, 19)), None];
    let (mut live, _) = live_indexing_stream(configs, &filters, false, 0);
    assert_eq!(live.state_of(topic(1)).unwrap().filter, blocks(20, 20));
    live.on_resumed();
    for event in 1..3 {
        let action = live.on_latest_block(LatestBlock::Number(19), 0);
        assert_eq!(action, LiveAction::GetLatestBlock { event });
    }
}

#[test]
fn live_indexing_of_nothing_waits() {
    let (mut live, action) = live_indexing_stream(vec![], &vec![], false, 0);
    assert_eq!(action, LiveAction::Sleep { millis: 100 });
    assert_eq!(live.on_resumed(), LiveAction::Sleep { millis: 100 });
}

#[test]
fn live_indexing_leaves_no_gap_and_stays_safe() {
    let mut config = config(1);
    config.disable_logs_bloom_checks = false;
    config.max_block_range = Some(4);
    let (mut live, mut action) =
        live_indexing_stream(vec![config], &vec![Some(blocks(0, 99))], false, 0);
    let mut finished = vec![false; 200];
    let mut head = 105;
    let mut asked = blocks(0, 0);
    for i in 0..400 {
        action = match action {
            LiveAction::Sleep { .. } => live.on_resumed(),
            LiveAction::GetLatestBlock { .. } => {
                head += 1 + i % 3;
                head = if head > 150 { 150 } else { head };
                live.on_latest_block(LatestBlock::Number(head), 0)
            }
            LiveAction::CheckLogsBloom { .. } => {
                let next = live.state_of(topic(1)).unwrap().filter.from_block;
                finished[next as usize] = true;
                live.on_logs_bloom(false)
            }
            LiveAction::AcquirePermit { .. } => live.on_permit(i % 5 != 0),
            LiveAction::GetLogs { filter, .. } => {
                asked = filter;
                assert!(filter.to_block + 10 <= head);
                assert!(filter.to_block - filter.from_block < 4);
                let last = (filter.from_block + filter.to_block) / 2;
                let found = if i % 2 == 0 { logs(&[Some(last)]) } else { logs(&[]) };
                let _ = live.on_logs(found);
                for block in filter.from_block..=filter.to_block {
                    finished[block as usize] = true;
                }
                live.on_handled(true)
            }
            other => panic!("{:?}", other),
        };
    }
    assert!(asked.to_block > 100);
    let next = live.state_of(topic(1)).unwrap().filter.from_block;
    assert!(next > 130);
    assert!(finished[100..next as usize].iter().all(|f| *f));
}
