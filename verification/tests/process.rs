use rindexer::config::{EventProcessingConfig, TopicId};
use rindexer::fetch_logs::{FetchLogsResult, WrappedLog};
use rindexer::process::{
    find_config, handle_logs_result, on_joined, process_contract_events_with_dependencies,
    process_contracts_events_with_dependencies, process_dependency, process_event,
    process_event_logs, process_event_outcome, ContractEventMapping, DependencyAction,
    EventLogsEnd, EventLogsRun, EventsDependencyTree, LogsAction,
    ProcessContractEventsWithDependenciesError, ProcessContractsEventsWithDependenciesError,
    ProcessEventError, ProviderError,
};

fn config(contract_name: &str, event_name: &str, live_indexing: bool) -> EventProcessingConfig {
    EventProcessingConfig {
        contract_name: contract_name.to_string(),
        event_name: event_name.to_string(),
        topic_id: TopicId { high: 0, low: 0 },
        live_indexing,
        index_event_in_order: false,
        indexing_distance_from_head: 0,
        disable_logs_bloom_checks: false,
        max_block_range: None,
        min_block_range: None,
    }
}

fn event(contract_name: &str, event_name: &str) -> ContractEventMapping {
    ContractEventMapping {
        contract_name: contract_name.to_string(),
        event_name: event_name.to_string(),
    }
}

fn fetched(numbers: &[u64]) -> Result<FetchLogsResult<u64>, String> {
    let logs =
        numbers.iter().map(|n| WrappedLog { block_number: Some(*n), inner: n * 10 }).collect();
    Ok(FetchLogsResult { logs, from_block: 3, to_block: 9 })
}

#[test]
fn each_log_becomes_an_event_of_its_range() {
    let pending = handle_logs_result(&config("A", "E", true), fetched(&[4, 5])).unwrap();
    assert_eq!(pending.to_block, 9);
    let seen: Vec<_> = pending
        .events
        .iter()
        .map(|e| (e.log.inner, e.log.block_number, e.from_block, e.to_block))
        .collect();
    assert_eq!(seen, vec![(40, Some(4), 3, 9), (50, Some(5), 3, 9)]);
}

#[test]
fn failure_to_fetch_is_passed_on() {
    let result: Result<FetchLogsResult<u64>, String> = Err("down".to_string());
    assert_eq!(handle_logs_result(&config("A", "E", true), result).unwrap_err(), "down");
}

#[test]
fn nothing_is_handled_during_shutdown() {
    let pending = handle_logs_result(&config("A", "E", true), fetched(&[4])).unwrap();
    match pending.proceed(false) {
        LogsAction::Wait { pending, millis } => {
            assert_eq!(millis, 1000);
            assert!(matches!(pending.proceed(true), LogsAction::SpawnTrigger { .. }));
        }
        _ => panic!("did not wait"),
    }
    let nothing = handle_logs_result(&config("A", "E", true), fetched(&[])).unwrap();
    assert!(matches!(nothing.proceed(false), LogsAction::Wait { .. }));
}

#[test]
fn events_are_handled_in_order_where_that_is_configured() {
    let mut config = config("A", "E", true);
    config.index_event_in_order = true;
    match handle_logs_result(&config, fetched(&[4, 5])).unwrap().proceed(true) {
        LogsAction::TriggerInOrder { events, to_block } => {
            assert_eq!((events.len(), to_block), (2, 9));
        }
        _ => panic!("not in order"),
    }
}

#[test]
fn no_logs_are_nothing_to_handle() {
    let pending = handle_logs_result(&config("A", "E", true), fetched(&[])).unwrap();
    assert!(matches!(pending.proceed(true), LogsAction::Nothing));
}

#[test]
fn event_on_its_own_keeps_live_indexing() {
    let run: EventLogsRun<u8> = process_event(true);
    assert!(!run.force_no_live_indexing);
    assert!(run.block_until_indexed);
    let run: EventLogsRun<u8> = process_dependency();
    assert!(run.force_no_live_indexing);
    assert!(run.block_until_indexed);
}

#[test]
fn tasks_are_waited_for_in_order() {
    let mut run = process_event_logs(false, true);
    assert!(run.on_handled(Ok(1)).is_ok());
    assert!(run.on_handled(Ok(2)).is_ok());
    match run.on_stream_end() {
        EventLogsEnd::Join(tasks) => assert_eq!(tasks, vec![1, 2]),
        EventLogsEnd::Done => panic!("not waited for"),
    }
}

#[test]
fn tasks_are_not_waited_for_unless_asked() {
    let mut run = process_event_logs(false, false);
    assert!(run.on_handled(Ok(1)).is_ok());
    assert!(matches!(run.on_stream_end(), EventLogsEnd::Done));
}

#[test]
fn failure_to_handle_ends_the_processing() {
    let mut run: EventLogsRun<u8> = process_event_logs(false, true);
    let error = run.on_handled(Err("down".to_string())).unwrap_err();
    assert_eq!(error.message(), "custom error: down");
    let error = process_event_outcome(Err(error)).unwrap_err();
    assert_eq!(error.message(), "Could not process logs: custom error: down");
    assert!(process_event_outcome(Ok(())).is_ok());
}

#[test]
fn task_that_does_not_end_is_an_error() {
    assert!(on_joined(Ok(())).is_ok());
    let error = on_joined(Err("panicked".to_string())).unwrap_err();
    assert_eq!(error.message(), "custom error: panicked");
}

#[test]
fn configuration_is_the_first_of_its_names() {
    let configs = vec![
        config("Token", "Approval", true),
        config("TokenFilter", "Transfer", true),
        config("Token", "Transfer", true),
    ];
    assert_eq!(find_config(&configs, &event("Token", "Approval")), Some(0));
    assert_eq!(find_config(&configs, &event("Token", "Transfer")), Some(1));
    assert_eq!(find_config(&configs, &event("TokenFilter", "Transfer")), Some(1));
    assert_eq!(find_config(&configs, &event("Token", "Burn")), None);
    assert_eq!(find_config(&configs, &event("Tok", "Transfer")), None);
}

fn tree(levels: &[&[(&str, &str)]]) -> Option<Box<EventsDependencyTree>> {
    let (first, rest) = levels.split_first()?;
    Some(Box::new(EventsDependencyTree {
        contract_events: first.iter().map(|(c, e)| event(c, e)).collect(),
        next: tree(rest),
    }))
}

#[test]
fn levels_are_processed_in_order_and_live_indexing_follows() {
    let configs = vec![config("A", "X", true), config("B", "Y", false), config("C", "Z", true)];
    let levels = tree(&[&[("C", "Z"), ("B", "Y")], &[("A", "X")]]).unwrap();
    let (mut run, tasks) = process_contract_events_with_dependencies(*levels, configs);
    let first: Vec<_> = tasks.into_iter().map(|task| Ok(task)).collect();
    assert!(matches!(first[..], [Ok(Ok(2)), Ok(Ok(1))]));
    let second: Vec<_> = match run.on_level(first) {
        DependencyAction::RunLevel(tasks) => tasks.into_iter().map(|task| Ok(task)).collect(),
        _ => panic!("no second level"),
    };
    assert!(matches!(second[..], [Ok(Ok(0))]));
    match run.on_level(second) {
        DependencyAction::LiveIndexing(configs) => assert_eq!(configs, vec![2, 0]),
        _ => panic!("no live indexing"),
    }
}

#[test]
fn processing_ends_without_live_indexing() {
    let levels = tree(&[&[("B", "Y")]]).unwrap();
    let configs = vec![config("B", "Y", false)];
    let (mut run, _) = process_contract_events_with_dependencies(*levels, configs);
    assert!(matches!(run.on_level(vec![Ok(Ok(0))]), DependencyAction::Return(Ok(()))));
}

#[test]
fn event_without_a_configuration_is_an_error() {
    let levels = tree(&[&[("B", "Y"), ("A", "X")], &[("B", "Y")]]).unwrap();
    let configs = vec![config("B", "Y", true)];
    let (mut run, tasks) = process_contract_events_with_dependencies(*levels, configs);
    let outcomes = tasks.into_iter().map(|task| Ok(task)).collect();
    match run.on_level(outcomes) {
        DependencyAction::Return(Err(error)) => assert_eq!(
            error.message(),
            "Event config not found for contract: A and event: X"
        ),
        _ => panic!("no error"),
    }
}

#[test]
fn first_error_of_a_level_is_reported() {
    let levels = tree(&[&[("B", "Y"), ("B", "Y"), ("B", "Y")]]).unwrap();
    let configs = vec![config("B", "Y", true)];
    let (mut run, _) = process_contract_events_with_dependencies(*levels, configs);
    let failed = ProcessContractEventsWithDependenciesError::ProcessLogs(
        ProviderError::CustomError("down".to_string()),
    );
    match run.on_level(vec![Ok(Ok(0)), Err("panicked".to_string()), Ok(Err(failed))]) {
        DependencyAction::Return(Err(error)) => {
            assert_eq!(error.message(), "Could not run all the logs processes panicked");
        }
        _ => panic!("no error"),
    }
}

#[test]
fn first_error_of_the_contracts_is_reported() {
    let failed = || ProcessContractEventsWithDependenciesError::BuildFilterError("bad".to_string());
    let result = process_contracts_events_with_dependencies(vec![Ok(Ok(())), Ok(Err(failed()))]);
    let error = result.unwrap_err();
    assert!(matches!(
        error,
        ProcessContractsEventsWithDependenciesError::ProcessContractEventsWithDependenciesError(_)
    ));
    assert_eq!(error.message(), "Could not build filter: bad");
    let result = process_contracts_events_with_dependencies(vec![
        Err("panicked".to_string()),
        Ok(Err(failed())),
    ]);
    assert_eq!(result.unwrap_err().message(), "panicked");
    assert!(process_contracts_events_with_dependencies(vec![Ok(Ok(())), Ok(Ok(()))]).is_ok());
    assert!(process_contracts_events_with_dependencies(vec![]).is_ok());
}

#[test]
fn errors_have_texts() {
    let provider = || ProviderError::CustomError("down".to_string());
    assert_eq!(
        ProcessEventError::BuildFilterError("bad".to_string()).message(),
        "Could not build filter: bad"
    );
    assert_eq!(
        ProcessContractEventsWithDependenciesError::ProcessLogs(provider()).message(),
        "Could not process logs: custom error: down"
    );
    assert_eq!(
        ethers::providers::ProviderError::CustomError("down".to_string()).to_string(),
        provider().message()
    );
}
