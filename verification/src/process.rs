//! What happens to the logs that have been fetched, and in which order dependent events are
//! processed.

use crate::config::EventProcessingConfig;
use crate::fetch_logs::{FetchLogsResult, WrappedLog};
use crate::laws::law_level_succeeds_with_all_its_events;
use crate::text::{remove, without};
use vstd::prelude::*;

verus! {

/// How long to wait before it is checked again whether the indexer is shutting down, in
/// milliseconds.
pub const SHUTDOWN_POLL_INTERVAL: u64 = 1000;

/// An error of a provider.
#[derive(Clone, Debug)]
pub enum ProviderError {
    CustomError(String),
}

/// Why an event could not be processed.
#[derive(Clone, Debug)]
pub enum ProcessEventError {
    ProcessLogs(ProviderError),
    BuildFilterError(String),
}

/// Why the events of a contract could not be processed.
#[derive(Clone, Debug)]
pub enum ProcessContractEventsWithDependenciesError {
    ProcessLogs(ProviderError),
    BuildFilterError(String),
    /// There is no configuration for this contract and this event.
    EventConfigNotFound(String, String),
    /// A task did not run to its end.
    JoinError(String),
}

/// Why the events of some contract could not be processed.
#[derive(Clone, Debug)]
pub enum ProcessContractsEventsWithDependenciesError {
    ProcessContractEventsWithDependenciesError(ProcessContractEventsWithDependenciesError),
    JoinError(String),
}

impl ProviderError {
    /// The text of the error.
    pub open spec fn text(self) -> Seq<char> {
        match self {
            ProviderError::CustomError(message) => "custom error: "@ + message@,
        }
    }

    /// The text of the error.
    pub fn message(&self) -> (message: String)
        ensures
            message@ == self.text(),
            *self matches ProviderError::CustomError(custom) ==> message@ == "custom error: "@
                + custom@,
    {
        match self {
            ProviderError::CustomError(message) => "custom error: ".to_owned().concat(
                message.as_str(),
            ),
        }
    }
}

impl ProcessEventError {
    /// The text of the error.
    pub open spec fn text(self) -> Seq<char> {
        match self {
            ProcessEventError::ProcessLogs(error) => "Could not process logs: "@ + error.text(),
            ProcessEventError::BuildFilterError(error) => "Could not build filter: "@ + error@,
        }
    }

    /// The text of the error.
    pub fn message(&self) -> (message: String)
        ensures
            message@ == self.text(),
            *self matches ProcessEventError::ProcessLogs(ProviderError::CustomError(custom))
                ==> message@ == "Could not process logs: "@ + ("custom error: "@ + custom@),
            *self matches ProcessEventError::BuildFilterError(error) ==> message@
                == "Could not build filter: "@ + error@,
    {
        match self {
            ProcessEventError::ProcessLogs(error) => "Could not process logs: ".to_owned().concat(
                error.message().as_str(),
            ),
            ProcessEventError::BuildFilterError(error) => {
                "Could not build filter: ".to_owned().concat(error.as_str())
            },
        }
    }
}

impl ProcessContractEventsWithDependenciesError {
    /// The text of the error.
    pub open spec fn text(self) -> Seq<char> {
        match self {
            ProcessContractEventsWithDependenciesError::ProcessLogs(error) => {
                "Could not process logs: "@ + error.text()
            },
            ProcessContractEventsWithDependenciesError::BuildFilterError(error) => {
                "Could not build filter: "@ + error@
            },
            ProcessContractEventsWithDependenciesError::EventConfigNotFound(contract, event) => {
                "Event config not found for contract: "@ + contract@ + " and event: "@ + event@
            },
            ProcessContractEventsWithDependenciesError::JoinError(error) => {
                "Could not run all the logs processes "@ + error@
            },
        }
    }

    /// The text of the error.
    pub fn message(&self) -> (message: String)
        ensures
            message@ == self.text(),
            *self matches ProcessContractEventsWithDependenciesError::ProcessLogs(
                ProviderError::CustomError(custom),
            ) ==> message@ == "Could not process logs: "@ + ("custom error: "@ + custom@),
            *self matches ProcessContractEventsWithDependenciesError::BuildFilterError(error)
                ==> message@ == "Could not build filter: "@ + error@,
            *self matches ProcessContractEventsWithDependenciesError::EventConfigNotFound(
                contract,
                event,
            ) ==> message@ == "Event config not found for contract: "@ + contract@
                + " and event: "@ + event@,
            *self matches ProcessContractEventsWithDependenciesError::JoinError(error) ==> message@
                == "Could not run all the logs processes "@ + error@,
    {
        match self {
            ProcessContractEventsWithDependenciesError::ProcessLogs(error) => {
                "Could not process logs: ".to_owned().concat(error.message().as_str())
            },
            ProcessContractEventsWithDependenciesError::BuildFilterError(error) => {
                "Could not build filter: ".to_owned().concat(error.as_str())
            },
            ProcessContractEventsWithDependenciesError::EventConfigNotFound(contract, event) => {
                "Event config not found for contract: ".to_owned().concat(
                    contract.as_str(),
                ).concat(" and event: ").concat(event.as_str())
            },
            ProcessContractEventsWithDependenciesError::JoinError(error) => {
                "Could not run all the logs processes ".to_owned().concat(error.as_str())
            },
        }
    }
}

impl ProcessContractsEventsWithDependenciesError {
    /// The text of the error.
    pub open spec fn text(self) -> Seq<char> {
        match self {
            ProcessContractsEventsWithDependenciesError::ProcessContractEventsWithDependenciesError(
                error,
            ) => error.text(),
            ProcessContractsEventsWithDependenciesError::JoinError(error) => error@,
        }
    }

    /// The text of the error.
    pub fn message(&self) -> (message: String)
        ensures
            message@ == self.text(),
            *self matches ProcessContractsEventsWithDependenciesError::ProcessContractEventsWithDependenciesError(
                error,
            ) ==> message@ == error.text(),
            *self matches ProcessContractsEventsWithDependenciesError::JoinError(error) ==> message@
                == error@,
    {
        match self {
            ProcessContractsEventsWithDependenciesError::ProcessContractEventsWithDependenciesError(
                error,
            ) => error.message(),
            ProcessContractsEventsWithDependenciesError::JoinError(error) => error.clone(),
        }
    }
}

/// A log and the range of blocks that it was fetched with.
#[derive(Clone, Debug)]
pub struct EventResult<T> {
    pub log: WrappedLog<T>,
    pub from_block: u64,
    pub to_block: u64,
}

/// Logs that are ready to be handed to the handler of their event.
#[derive(Clone, Debug)]
pub struct PendingLogs<T> {
    pub events: Vec<EventResult<T>>,
    pub to_block: u64,
    pub index_event_in_order: bool,
}

/// What to do with pending logs.
pub enum LogsAction<T> {
    /// The indexer is shutting down: wait and ask again.
    Wait { pending: PendingLogs<T>, millis: u64 },
    /// There is nothing to handle.
    Nothing,
    /// Hand the events over and wait until they are handled.
    TriggerInOrder { events: Vec<EventResult<T>>, to_block: u64 },
    /// Hand the events over in a task of their own.
    SpawnTrigger { events: Vec<EventResult<T>>, to_block: u64 },
}

/// Each log with the range that it was fetched with, in the order of the logs.
pub open spec fn events_of<T>(result: FetchLogsResult<T>) -> Seq<EventResult<T>> {
    Seq::new(
        result.logs@.len(),
        |i: int|
            EventResult {
                log: result.logs@[i],
                from_block: result.from_block,
                to_block: result.to_block,
            },
    )
}

/// Makes fetched logs ready for the handler of their event. A failure to fetch them is passed on.
pub fn handle_logs_result<T, E>(
    config: &EventProcessingConfig,
    result: Result<FetchLogsResult<T>, E>,
) -> (pending: Result<PendingLogs<T>, E>)
    ensures
        match result {
            Ok(result) => {
                &&& pending matches Ok(pending)
                &&& pending.events@ == events_of(result)
                &&& pending.events@.len() == result.logs@.len()
                &&& forall|i: int|
                    0 <= i < result.logs@.len() ==> {
                        &&& (#[trigger] pending.events@[i]).log == result.logs@[i]
                        &&& pending.events@[i].from_block == result.from_block
                        &&& pending.events@[i].to_block == result.to_block
                    }
                &&& pending.to_block == result.to_block
                &&& pending.index_event_in_order == config.index_event_in_order
            },
            Err(error) => pending == Err::<PendingLogs<T>, E>(error),
        },
{
    match result {
        Ok(result) => {
            let ghost expected = events_of(result);
            let from_block = result.from_block;
            let to_block = result.to_block;
            let mut events: Vec<EventResult<T>> = Vec::new();
            for log in iter: result.logs.into_iter()
                invariant
                    iter.seq() == result.logs@,
                    from_block == result.from_block,
                    to_block == result.to_block,
                    expected == events_of(result),
                    events@ == expected.take(iter.index() as int),
            {
                events.push(EventResult { log, from_block, to_block });
            }
            assert(expected.take(expected.len() as int) =~= expected);
            Ok(PendingLogs { events, to_block, index_event_in_order: config.index_event_in_order })
        },
        Err(error) => Err(error),
    }
}

impl<T> PendingLogs<T> {
    /// Says what to do with the logs. Nothing is handled while the indexer is shutting down.
    pub fn proceed(self, is_running: bool) -> (action: LogsAction<T>)
        ensures
            action == if !is_running {
                LogsAction::Wait { pending: self, millis: SHUTDOWN_POLL_INTERVAL }
            } else if self.events@.len() == 0 {
                LogsAction::Nothing
            } else if self.index_event_in_order {
                LogsAction::TriggerInOrder { events: self.events, to_block: self.to_block }
            } else {
                LogsAction::SpawnTrigger { events: self.events, to_block: self.to_block }
            },
            !is_running ==> action == (LogsAction::Wait { pending: self, millis: 1000 }),
    {
        if !is_running {
            return LogsAction::Wait { pending: self, millis: SHUTDOWN_POLL_INTERVAL };
        }
        if self.events.len() == 0 {
            LogsAction::Nothing
        } else if self.index_event_in_order {
            LogsAction::TriggerInOrder { events: self.events, to_block: self.to_block }
        } else {
            LogsAction::SpawnTrigger { events: self.events, to_block: self.to_block }
        }
    }
}

/// The processing of the logs of one event, as they come out of the stream of its logs. `K` stands
/// for a task that handles logs.
pub struct EventLogsRun<K> {
    /// Whether the stream ends with the history even where live indexing is configured.
    pub force_no_live_indexing: bool,
    /// Whether the tasks are waited for.
    pub block_until_indexed: bool,
    /// The tasks so far, in the order of the logs.
    pub tasks: Vec<K>,
}

/// What is left to do once the stream of logs has ended.
pub enum EventLogsEnd<K> {
    /// Nothing.
    Done,
    /// Wait for these tasks.
    Join(Vec<K>),
}

/// Starts to process the logs of an event.
pub fn process_event_logs<K>(force_no_live_indexing: bool, block_until_indexed: bool) -> (run:
    EventLogsRun<K>)
    ensures
        run.force_no_live_indexing == force_no_live_indexing,
        run.block_until_indexed == block_until_indexed,
        run.tasks@ == Seq::<K>::empty(),
{
    EventLogsRun { force_no_live_indexing, block_until_indexed, tasks: Vec::new() }
}

/// Starts to process an event on its own: live indexing follows where it is configured.
pub fn process_event<K>(block_until_indexed: bool) -> (run: EventLogsRun<K>)
    ensures
        !run.force_no_live_indexing,
        run.block_until_indexed == block_until_indexed,
        run.tasks@ == Seq::<K>::empty(),
{
    process_event_logs(false, block_until_indexed)
}

/// Starts to process an event that others depend on: its history is indexed to the end, and live
/// indexing is left to be started for all such events together.
pub fn process_dependency<K>() -> (run: EventLogsRun<K>)
    ensures
        run.force_no_live_indexing,
        run.block_until_indexed,
        run.tasks@ == Seq::<K>::empty(),
{
    process_event_logs(true, true)
}

/// What the processing of an event on its own comes to, given what became of its logs.
pub fn process_event_outcome(outcome: Result<(), ProviderError>) -> (result: Result<
    (),
    ProcessEventError,
>)
    ensures
        result == match outcome {
            Ok(_) => Ok::<(), ProcessEventError>(()),
            Err(error) => Err(ProcessEventError::ProcessLogs(error)),
        },
{
    match outcome {
        Ok(_) => Ok(()),
        Err(error) => Err(ProcessEventError::ProcessLogs(error)),
    }
}

impl<K> EventLogsRun<K> {
    /// Goes on once logs have been handed over: the task that handles them is kept. A failure, of
    /// which `handled` is the text, ends the processing.
    pub fn on_handled(&mut self, handled: Result<K, String>) -> (result: Result<(), ProviderError>)
        ensures
            final(self).force_no_live_indexing == old(self).force_no_live_indexing,
            final(self).block_until_indexed == old(self).block_until_indexed,
            match handled {
                Ok(task) => {
                    &&& final(self).tasks@ == old(self).tasks@.push(task)
                    &&& result is Ok
                },
                Err(text) => {
                    &&& final(self).tasks == old(self).tasks
                    &&& result == Err::<(), ProviderError>(ProviderError::CustomError(text))
                },
            },
    {
        match handled {
            Ok(task) => {
                self.tasks.push(task);
                Ok(())
            },
            Err(text) => Err(ProviderError::CustomError(text)),
        }
    }

    /// Goes on once the stream of logs has ended.
    pub fn on_stream_end(self) -> (end: EventLogsEnd<K>)
        ensures
            end == if self.block_until_indexed {
                EventLogsEnd::Join(self.tasks)
            } else {
                EventLogsEnd::Done
            },
    {
        if self.block_until_indexed {
            EventLogsEnd::Join(self.tasks)
        } else {
            EventLogsEnd::Done
        }
    }
}

/// What the processing of logs comes to once the tasks have been waited for. `joined` holds the
/// text of the error of a task that did not run to its end.
pub fn on_joined(joined: Result<(), String>) -> (result: Result<(), ProviderError>)
    ensures
        result == match joined {
            Ok(_) => Ok::<(), ProviderError>(()),
            Err(text) => Err(ProviderError::CustomError(text)),
        },
{
    match joined {
        Ok(_) => Ok(()),
        Err(text) => Err(ProviderError::CustomError(text)),
    }
}

/// An event of a contract.
#[derive(Clone, Debug)]
pub struct ContractEventMapping {
    pub contract_name: String,
    pub event_name: String,
}

/// Events to process, and those to process after them.
#[derive(Debug)]
pub struct EventsDependencyTree {
    pub contract_events: Vec<ContractEventMapping>,
    pub next: Option<Box<EventsDependencyTree>>,
}

/// The events to process, one level after another.
pub open spec fn levels(tree: Option<Box<EventsDependencyTree>>) -> Seq<Seq<ContractEventMapping>>
    decreases tree,
{
    match tree {
        Some(tree) => seq![tree.contract_events@] + levels(tree.next),
        None => Seq::empty(),
    }
}

/// `config` is for the event `dependency`. A contract that is indexed by a filter carries `Filter`
/// in its name.
pub open spec fn is_config_of(
    config: EventProcessingConfig,
    dependency: ContractEventMapping,
) -> bool {
    &&& config.contract_name@ == dependency.contract_name@ || without(
        config.contract_name@,
        "Filter"@,
    ) == dependency.contract_name@
    &&& config.event_name@ == dependency.event_name@
}

/// The first configuration for an event, where there is one.
pub open spec fn config_of(
    configs: Seq<EventProcessingConfig>,
    dependency: ContractEventMapping,
    found: Option<usize>,
) -> bool {
    match found {
        Some(i) => {
            &&& i < configs.len()
            &&& is_config_of(configs[i as int], dependency)
            &&& forall|j: int| 0 <= j < i ==> !is_config_of(#[trigger] configs[j], dependency)
        },
        None => forall|j: int|
            0 <= j < configs.len() ==> !is_config_of(#[trigger] configs[j], dependency),
    }
}

/// Finds the first configuration for an event.
pub fn find_config(configs: &Vec<EventProcessingConfig>, dependency: &ContractEventMapping) -> (
found: Option<usize>)
    ensures
        config_of(configs@, *dependency, found),
        found matches Some(i) ==> {
            &&& i < configs@.len()
            &&& configs@[i as int].event_name@ == dependency.event_name@
            &&& configs@[i as int].contract_name@ == dependency.contract_name@ || without(
                configs@[i as int].contract_name@,
                "Filter"@,
            ) == dependency.contract_name@
        },
        forall|j: int|
            0 <= j < configs@.len() && (#[trigger] configs@[j]).event_name@
                == dependency.event_name@ && (configs@[j].contract_name@
                == dependency.contract_name@ || without(configs@[j].contract_name@, "Filter"@)
                == dependency.contract_name@) ==> (found matches Some(i) && i <= j),
{
    proof {
        reveal_strlit("Filter");
    }
    let mut i: usize = 0;
    while i < configs.len()
        invariant
            i <= configs@.len(),
            "Filter"@.len() > 0,
            forall|j: int| 0 <= j < i ==> !is_config_of(#[trigger] configs@[j], *dependency),
        decreases configs@.len() - i,
    {
        let config = &configs[i];
        if (config.contract_name == dependency.contract_name || remove(
            config.contract_name.as_str(),
            "Filter",
        ) == dependency.contract_name) && config.event_name == dependency.event_name {
            return Some(i);
        }
        i += 1;
    }
    None
}

/// What to do for one event of a level: process the event with this configuration, or fail.
pub type LevelTask = Result<usize, ProcessContractEventsWithDependenciesError>;

/// What became of one event of a level: the configuration that it was processed with or the error,
/// or the text of the error of a task that did not run to its end.
pub type LevelOutcome = Result<Result<usize, ProcessContractEventsWithDependenciesError>, String>;

/// `task` is what to do for `dependency`.
pub open spec fn is_task_of(
    configs: Seq<EventProcessingConfig>,
    dependency: ContractEventMapping,
    task: LevelTask,
) -> bool {
    match task {
        Ok(i) => config_of(configs, dependency, Some(i)),
        Err(error) => {
            &&& config_of(configs, dependency, None)
            &&& error matches ProcessContractEventsWithDependenciesError::EventConfigNotFound(
                contract,
                event,
            )
            &&& contract@ == dependency.contract_name@
            &&& event@ == dependency.event_name@
        },
    }
}

/// `tasks` are what to do for the events of a level, in their order.
pub open spec fn are_tasks_of(
    configs: Seq<EventProcessingConfig>,
    level: Seq<ContractEventMapping>,
    tasks: Seq<LevelTask>,
) -> bool {
    &&& tasks.len() == level.len()
    &&& forall|i: int| 0 <= i < level.len() ==> is_task_of(configs, level[i], #[trigger] tasks[i])
}

/// The first error of a level, in the order of its events.
pub open spec fn first_error(outcomes: Seq<LevelOutcome>) -> Option<
    ProcessContractEventsWithDependenciesError,
>
    decreases outcomes.len(),
{
    if outcomes.len() == 0 {
        None
    } else {
        match outcomes[0] {
            Err(text) => Some(ProcessContractEventsWithDependenciesError::JoinError(text)),
            Ok(Err(error)) => Some(error),
            Ok(Ok(_)) => first_error(outcomes.skip(1)),
        }
    }
}

/// The configurations that were processed and that live indexing follows for, in order.
pub open spec fn live_of(
    configs: Seq<EventProcessingConfig>,
    outcomes: Seq<LevelOutcome>,
) -> Seq<usize>
    decreases outcomes.len(),
{
    if outcomes.len() == 0 {
        Seq::empty()
    } else {
        let before = live_of(configs, outcomes.drop_last());
        match outcomes.last() {
            Ok(Ok(i)) if configs[i as int].live_indexing => before.push(i),
            _ => before,
        }
    }
}

/// What to do for the events of a level, in their order.
fn level_tasks(configs: &Vec<EventProcessingConfig>, level: &Vec<ContractEventMapping>) -> (tasks:
    Vec<LevelTask>)
    ensures
        are_tasks_of(configs@, level@, tasks@),
{
    let mut tasks: Vec<LevelTask> = Vec::new();
    let mut i: usize = 0;
    while i < level.len()
        invariant
            i <= level@.len(),
            tasks@.len() == i,
            forall|j: int| 0 <= j < i ==> is_task_of(configs@, level@[j], #[trigger] tasks@[j]),
        decreases level@.len() - i,
    {
        let dependency = &level[i];
        let task = match find_config(configs, dependency) {
            Some(config) => Ok(config),
            None => Err(
                ProcessContractEventsWithDependenciesError::EventConfigNotFound(
                    dependency.contract_name.clone(),
                    dependency.event_name.clone(),
                ),
            ),
        };
        tasks.push(task);
        i += 1;
    }
    tasks
}

/// The configurations that live indexing follows for, or the first error of a level.
fn collect_live(configs: &Vec<EventProcessingConfig>, outcomes: Vec<LevelOutcome>) -> (live: Result<
    Vec<usize>,
    ProcessContractEventsWithDependenciesError,
>)
    requires
        forall|i: int|
            0 <= i < outcomes@.len() ==> (#[trigger] outcomes@[i] matches Ok(Ok(config)) ==> config
                < configs@.len()),
    ensures
        match live {
            Ok(live) => {
                &&& first_error(outcomes@) is None
                &&& live@ == live_of(configs@, outcomes@)
            },
            Err(error) => first_error(outcomes@) == Some(error),
        },
{
    let mut live: Vec<usize> = Vec::new();
    let ghost all = outcomes@;
    assert(all.skip(0) =~= all);
    for outcome in iter: outcomes.into_iter()
        invariant
            iter.seq() == all,
            forall|i: int|
                0 <= i < all.len() ==> (#[trigger] all[i] matches Ok(Ok(config)) ==> config
                    < configs@.len()),
            first_error(all) == first_error(all.skip(iter.index() as int)),
            live@ == live_of(configs@, all.take(iter.index() as int)),
    {
        let ghost n = iter.index() as int;
        proof {
            assert(all[n] == outcome);
            assert(all.skip(n)[0] == all[n]);
            assert(all.skip(n).skip(1) =~= all.skip(n + 1));
            assert(all.take(n + 1).drop_last() =~= all.take(n));
            assert(all.take(n + 1).last() == all[n]);
        }
        match outcome {
            Ok(Ok(config)) => {
                if configs[config].live_indexing {
                    live.push(config);
                }
            },
            Ok(Err(error)) => {
                return Err(error);
            },
            Err(text) => {
                return Err(ProcessContractEventsWithDependenciesError::JoinError(text));
            },
        }
    }
    assert(all.take(all.len() as int) =~= all);
    Ok(live)
}

/// The processing of events that depend on each other. The events of a level are processed side by
/// side, and the next level comes when all of them are done.
pub struct DependencyRun {
    pub configs: Vec<EventProcessingConfig>,
    /// The levels that are still to come.
    pub next: Option<Box<EventsDependencyTree>>,
    /// The configurations so far that live indexing follows for.
    pub live_indexing_configs: Vec<usize>,
}

/// What the processing of dependent events asks for.
pub enum DependencyAction {
    /// Do these tasks side by side and wait for all of them.
    RunLevel(Vec<LevelTask>),
    /// Start live indexing in dependency mode for these configurations.
    LiveIndexing(Vec<usize>),
    /// End.
    Return(Result<(), ProcessContractEventsWithDependenciesError>),
}

/// Starts to process events that depend on each other, and says what to do for the first level.
pub fn process_contract_events_with_dependencies(
    dependencies: EventsDependencyTree,
    configs: Vec<EventProcessingConfig>,
) -> (started: (DependencyRun, Vec<LevelTask>))
    ensures
        started.0.configs == configs,
        started.0.next == dependencies.next,
        started.0.live_indexing_configs@ == Seq::<usize>::empty(),
        are_tasks_of(configs@, dependencies.contract_events@, started.1@),
        started.1@.len() == dependencies.contract_events@.len(),
        forall|i: int|
            0 <= i < dependencies.contract_events@.len() ==> match #[trigger] started.1@[i] {
                Ok(config) => {
                    &&& config < configs@.len()
                    &&& configs@[config as int].event_name@ == dependencies.contract_events@[i].event_name@
                    &&& configs@[config as int].contract_name@ == dependencies.contract_events@[i].contract_name@ || without(
                        configs@[config as int].contract_name@,
                        "Filter"@,
                    ) == dependencies.contract_events@[i].contract_name@
                },
                Err(error) => {
                    &&& error matches ProcessContractEventsWithDependenciesError::EventConfigNotFound(
                        contract,
                        event,
                    )
                    &&& contract@ == dependencies.contract_events@[i].contract_name@
                    &&& event@ == dependencies.contract_events@[i].event_name@
                    &&& forall|j: int|
                        0 <= j < configs@.len() && (#[trigger] configs@[j]).event_name@
                            == dependencies.contract_events@[i].event_name@ ==> configs@[j].contract_name@
                            != dependencies.contract_events@[i].contract_name@ && without(configs@[j].contract_name@, "Filter"@)
                            != dependencies.contract_events@[i].contract_name@
                },
            },
{
    let tasks = level_tasks(&configs, &dependencies.contract_events);
    let run = DependencyRun {
        configs,
        next: dependencies.next,
        live_indexing_configs: Vec::new(),
    };
    (run, tasks)
}

impl DependencyRun {
    /// Goes on once all tasks of a level have ended. The first error ends the processing.
    pub fn on_level(&mut self, outcomes: Vec<LevelOutcome>) -> (action: DependencyAction)
        requires
            forall|i: int|
                0 <= i < outcomes@.len() ==> (#[trigger] outcomes@[i] matches Ok(Ok(config))
                    ==> config < old(self).configs@.len()),
        ensures
            final(self).configs == old(self).configs,
            match first_error(outcomes@) {
                Some(error) => {
                    &&& *final(self) == *old(self)
                    &&& action == DependencyAction::Return(Err(error))
                },
                None => {
                    &&& final(self).live_indexing_configs@ == old(self).live_indexing_configs@
                        + live_of(old(self).configs@, outcomes@)
                    &&& match old(self).next {
                        Some(tree) => {
                            &&& final(self).next == tree.next
                            &&& action matches DependencyAction::RunLevel(tasks)
                            &&& are_tasks_of(
                                old(self).configs@,
                                tree.contract_events@,
                                tasks@,
                            )
                        },
                        None => {
                            &&& final(self).next is None
                            &&& if final(self).live_indexing_configs@.len() > 0 {
                                &&& action matches DependencyAction::LiveIndexing(configs)
                                &&& configs@ == final(self).live_indexing_configs@
                            } else {
                                action == DependencyAction::Return(Ok(()))
                            }
                        },
                    }
                },
            },
            (forall|i: int|
                0 <= i < outcomes@.len() ==> #[trigger] outcomes@[i] matches Ok(Ok(_))) ==> !(
            action matches DependencyAction::Return(Err(_))),
            outcomes@.len() > 0 ==> match outcomes@[0] {
                Err(text) => action == DependencyAction::Return(
                    Err(ProcessContractEventsWithDependenciesError::JoinError(text)),
                ),
                Ok(Err(error)) => action == DependencyAction::Return(Err(error)),
                Ok(Ok(_)) => true,
            },
    {
        proof {
            law_level_succeeds_with_all_its_events(outcomes@);
        }
        let mut live = match collect_live(&self.configs, outcomes) {
            Ok(live) => live,
            Err(error) => {
                return DependencyAction::Return(Err(error));
            },
        };
        self.live_indexing_configs.append(&mut live);
        match self.next.take() {
            Some(tree) => {
                let tasks = level_tasks(&self.configs, &tree.contract_events);
                self.next = tree.next;
                DependencyAction::RunLevel(tasks)
            },
            None => {
                if self.live_indexing_configs.len() > 0 {
                    let configs = self.live_indexing_configs.clone();
                    assert(configs@ =~= self.live_indexing_configs@);
                    DependencyAction::LiveIndexing(configs)
                } else {
                    DependencyAction::Return(Ok(()))
                }
            },
        }
    }
}

/// The first error of some contracts, in their order.
pub open spec fn first_contract_error(
    results: Seq<Result<Result<(), ProcessContractEventsWithDependenciesError>, String>>,
) -> Option<ProcessContractsEventsWithDependenciesError>
    decreases results.len(),
{
    if results.len() == 0 {
        None
    } else {
        match results[0] {
            Err(text) => Some(ProcessContractsEventsWithDependenciesError::JoinError(text)),
            Ok(Err(error)) => Some(
                ProcessContractsEventsWithDependenciesError::ProcessContractEventsWithDependenciesError(
                    error,
                ),
            ),
            Ok(Ok(_)) => first_contract_error(results.skip(1)),
        }
    }
}

/// What the processing of some contracts side by side comes to: the first error, in their order.
/// `results` holds what each of them came to, or the text of the error of a task that did not run
/// to its end.
pub fn process_contracts_events_with_dependencies(
    results: Vec<Result<Result<(), ProcessContractEventsWithDependenciesError>, String>>,
) -> (result: Result<(), ProcessContractsEventsWithDependenciesError>)
    ensures
        result == match first_contract_error(results@) {
            Some(error) => Err::<(), ProcessContractsEventsWithDependenciesError>(error),
            None => Ok(()),
        },
{
    let ghost all = results@;
    assert(all.skip(0) =~= all);
    for result in iter: results.into_iter()
        invariant
            iter.seq() == all,
            first_contract_error(all) == first_contract_error(all.skip(iter.index() as int)),
    {
        let ghost n = iter.index() as int;
        proof {
            assert(all.skip(n)[0] == all[n]);
            assert(all.skip(n).skip(1) =~= all.skip(n + 1));
        }
        match result {
            Ok(Ok(_)) => {},
            Ok(Err(error)) => {
                return Err(
                    ProcessContractsEventsWithDependenciesError::ProcessContractEventsWithDependenciesError(
                        error,
                    ),
                );
            },
            Err(text) => {
                return Err(ProcessContractsEventsWithDependenciesError::JoinError(text));
            },
        }
    }
    Ok(())
}

} // verus!
