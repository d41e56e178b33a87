//! Working through the queue of commands, one at a time.
use crate::text;
use crate::wine_cask::app::{Command, InstallTarget, OperationState};
use vstd::prelude::*;
use vstd::string::*;

verus! {

broadcast use vstd::string::group_string_axioms;

/// The work that a command asks for.
#[derive(Debug)]
pub enum QueueTask {
    Install { release_id: String, target: InstallTarget },
    Uninstall { installed_tool_id: String },
    CreateSlot { user_label: String },
    RenameSlot { virtual_tool_id: String, user_label: String },
    RemoveVirtualTool { virtual_tool_id: String },
}

/// What the user is told of a slot.
#[derive(Debug)]
pub enum QueueNotice {
    Created { label: String },
    Renamed { label: String },
    Failed { error: String },
}

/// What is to be done next.
#[derive(Debug)]
pub enum QueueStage {
    /// Look for new releases, see `forces_update_check`.
    CheckFlavorUpdates,
    /// Take the next command from the queue.
    BeginNext,
    /// Wait until there is a command in the queue.
    Wait,
    /// Report that the operation runs, see `reported`, and then do `task`.
    ReportRunning { task: QueueTask },
    /// Do the work that the command asks for.
    Run { task: QueueTask },
    /// Bring the state of the backend up to date, and then tell the user `notice`.
    SyncState { notice: QueueNotice },
    /// Show all users the state of the backend, and then tell the user `notice`.
    BroadcastState { notice: QueueNotice },
    /// Tell the user what came of it.
    Notify { notice: QueueNotice },
    /// Complete the current operation.
    Complete,
    /// Reclaim memory if nothing is going on.
    ReclaimMemory,
}

/// What came of a stage.
#[derive(Debug)]
pub enum QueueEvent {
    FlavorsChecked,
    /// The command that was taken, if there was one.
    Began(Option<Command>),
    Woken,
    Reported,
    /// The work has ended; it has told the user itself.
    Ended,
    /// The slot has this label now, or was not changed.
    SlotChanged(Result<String, String>),
    StateSynced,
    StateBroadcast,
    Notified,
    Completed,
    MemoryReclaimed,
}

impl QueueNotice {
    /// What the user is told.
    pub open spec fn text(self) -> Seq<char> {
        match self {
            QueueNotice::Created { label } => "Created virtual compatibility tool: "@ + label@,
            QueueNotice::Renamed { label } => "Renamed virtual compatibility tool to "@ + label@,
            QueueNotice::Failed { error } => error@,
        }
    }

    /// What the user is told.
    pub fn message(&self) -> (r: String)
        ensures
            r@ == self.text(),
    {
        match self {
            QueueNotice::Created { label } => text::labelled(
                "Created virtual compatibility tool: ",
                label.as_str(),
            ),
            QueueNotice::Renamed { label } => text::labelled(
                "Renamed virtual compatibility tool to ",
                label.as_str(),
            ),
            QueueNotice::Failed { error } => error.clone(),
        }
    }
}

/// The stage that a command starts with. An installation reports its own progress; a
/// catalog refresh and a cancellation leave nothing to do here.
pub open spec fn dispatched(command: Command) -> QueueStage {
    match command {
        Command::InstallCatalogRelease { release_id, target } => QueueStage::Run {
            task: QueueTask::Install { release_id, target },
        },
        Command::UninstallInstalledTool { installed_tool_id } => QueueStage::ReportRunning {
            task: QueueTask::Uninstall { installed_tool_id },
        },
        Command::CreateVirtualTool { user_label } => QueueStage::ReportRunning {
            task: QueueTask::CreateSlot { user_label },
        },
        Command::RenameVirtualTool { virtual_tool_id, user_label } => QueueStage::ReportRunning {
            task: QueueTask::RenameSlot { virtual_tool_id, user_label },
        },
        Command::RemoveVirtualTool { virtual_tool_id } => QueueStage::ReportRunning {
            task: QueueTask::RemoveVirtualTool { virtual_tool_id },
        },
        Command::RefreshCatalog => QueueStage::Complete,
        Command::CancelOperation => QueueStage::Complete,
    }
}

/// The stage that a command starts with.
fn dispatch(command: Command) -> (r: QueueStage)
    ensures
        r == dispatched(command),
{
    match command {
        Command::InstallCatalogRelease { release_id, target } => QueueStage::Run {
            task: QueueTask::Install { release_id, target },
        },
        Command::UninstallInstalledTool { installed_tool_id } => QueueStage::ReportRunning {
            task: QueueTask::Uninstall { installed_tool_id },
        },
        Command::CreateVirtualTool { user_label } => QueueStage::ReportRunning {
            task: QueueTask::CreateSlot { user_label },
        },
        Command::RenameVirtualTool { virtual_tool_id, user_label } => QueueStage::ReportRunning {
            task: QueueTask::RenameSlot { virtual_tool_id, user_label },
        },
        Command::RemoveVirtualTool { virtual_tool_id } => QueueStage::ReportRunning {
            task: QueueTask::RemoveVirtualTool { virtual_tool_id },
        },
        Command::RefreshCatalog => QueueStage::Complete,
        Command::CancelOperation => QueueStage::Complete,
    }
}

/// Does the task change a slot?
pub open spec fn changes_slot(task: QueueTask) -> bool {
    task is CreateSlot || task is RenameSlot
}

impl QueueStage {
    /// Is the event an outcome of this stage?
    pub open spec fn awaits(self, event: QueueEvent) -> bool {
        match self {
            QueueStage::CheckFlavorUpdates => event is FlavorsChecked,
            QueueStage::BeginNext => event is Began,
            QueueStage::Wait => event is Woken,
            QueueStage::ReportRunning { .. } => event is Reported,
            QueueStage::Run { task } => if changes_slot(task) {
                event is SlotChanged
            } else {
                event is Ended
            },
            QueueStage::SyncState { .. } => event is StateSynced,
            QueueStage::BroadcastState { .. } => event is StateBroadcast,
            QueueStage::Notify { .. } => event is Notified,
            QueueStage::Complete => event is Completed,
            QueueStage::ReclaimMemory => event is MemoryReclaimed,
        }
    }

    /// The stage that an event leads to.
    pub open spec fn after(self, event: QueueEvent) -> QueueStage {
        match (self, event) {
            (QueueStage::BeginNext, QueueEvent::Began(command)) => match command {
                Some(command) => dispatched(command),
                None => QueueStage::Wait,
            },
            (QueueStage::ReportRunning { task }, _) => QueueStage::Run { task },
            (QueueStage::Run { task }, QueueEvent::SlotChanged(outcome)) => match outcome {
                Ok(label) => QueueStage::SyncState {
                    notice: if task is CreateSlot {
                        QueueNotice::Created { label }
                    } else {
                        QueueNotice::Renamed { label }
                    },
                },
                Err(error) => QueueStage::Notify { notice: QueueNotice::Failed { error } },
            },
            (QueueStage::Run { task }, _) => QueueStage::Complete,
            (QueueStage::SyncState { notice }, _) => QueueStage::BroadcastState { notice },
            (QueueStage::BroadcastState { notice }, _) => QueueStage::Notify { notice },
            (QueueStage::Notify { notice }, _) => QueueStage::Complete,
            (QueueStage::Complete, _) => QueueStage::ReclaimMemory,
            _ => QueueStage::BeginNext,
        }
    }

    /// What is reported in this stage.
    pub open spec fn report(self) -> Option<(OperationState, u8)> {
        match self {
            QueueStage::ReportRunning { .. } => Some((OperationState::Running, 0u8)),
            _ => None,
        }
    }

    /// What is reported in this stage: the state of the operation, and its progress in
    /// percent.
    pub fn reported(&self) -> (r: Option<(OperationState, u8)>)
        ensures
            r == if self is ReportRunning {
                Some((OperationState::Running, 0u8))
            } else {
                None
            },
            r == self.report(),
    {
        match self {
            QueueStage::ReportRunning { .. } => Some((OperationState::Running, 0)),
            _ => None,
        }
    }

    /// Is the look for new releases in this stage a forced one? There is none in the other
    /// stages.
    pub fn forces_update_check(&self) -> (r: Option<bool>)
        ensures
            r == if self is CheckFlavorUpdates {
                Some(false)
            } else {
                None
            },
    {
        match self {
            QueueStage::CheckFlavorUpdates => Some(false),
            _ => None,
        }
    }

    /// Is the event an outcome of this stage?
    pub fn expects(&self, event: &QueueEvent) -> (r: bool)
        ensures
            r == self.awaits(*event),
    {
        match (self, event) {
            (QueueStage::CheckFlavorUpdates, QueueEvent::FlavorsChecked) => true,
            (QueueStage::BeginNext, QueueEvent::Began(_)) => true,
            (QueueStage::Wait, QueueEvent::Woken) => true,
            (QueueStage::ReportRunning { .. }, QueueEvent::Reported) => true,
            (QueueStage::Run { task }, _) => match (task, event) {
                (QueueTask::CreateSlot { .. }, QueueEvent::SlotChanged(_)) => true,
                (QueueTask::RenameSlot { .. }, QueueEvent::SlotChanged(_)) => true,
                (QueueTask::Install { .. }, QueueEvent::Ended) => true,
                (QueueTask::Uninstall { .. }, QueueEvent::Ended) => true,
                (QueueTask::RemoveVirtualTool { .. }, QueueEvent::Ended) => true,
                _ => false,
            },
            (QueueStage::SyncState { .. }, QueueEvent::StateSynced) => true,
            (QueueStage::BroadcastState { .. }, QueueEvent::StateBroadcast) => true,
            (QueueStage::Notify { .. }, QueueEvent::Notified) => true,
            (QueueStage::Complete, QueueEvent::Completed) => true,
            (QueueStage::ReclaimMemory, QueueEvent::MemoryReclaimed) => true,
            _ => false,
        }
    }

    /// Takes the outcome of this stage.
    pub fn advance(self, event: QueueEvent) -> (r: QueueStage)
        requires
            self.awaits(event),
        ensures
            r == self.after(event),
    {
        match (self, event) {
            (QueueStage::BeginNext, QueueEvent::Began(command)) => match command {
                Some(command) => dispatch(command),
                None => QueueStage::Wait,
            },
            (QueueStage::ReportRunning { task }, _) => QueueStage::Run { task },
            (QueueStage::Run { task }, QueueEvent::SlotChanged(outcome)) => match outcome {
                Ok(label) => QueueStage::SyncState {
                    notice: match task {
                        QueueTask::CreateSlot { .. } => QueueNotice::Created { label },
                        _ => QueueNotice::Renamed { label },
                    },
                },
                Err(error) => QueueStage::Notify { notice: QueueNotice::Failed { error } },
            },
            (QueueStage::Run { task: _ }, _) => QueueStage::Complete,
            (QueueStage::SyncState { notice }, _) => QueueStage::BroadcastState { notice },
            (QueueStage::BroadcastState { notice }, _) => QueueStage::Notify { notice },
            (QueueStage::Notify { notice: _ }, _) => QueueStage::Complete,
            (QueueStage::Complete, _) => QueueStage::ReclaimMemory,
            _ => QueueStage::BeginNext,
        }
    }
}

/// Starts to work through the queue.
pub fn process_queue() -> (r: QueueStage)
    ensures
        r == QueueStage::CheckFlavorUpdates,
{
    QueueStage::CheckFlavorUpdates
}

/// Can the events follow one another from `stage` on?
pub open spec fn can_follow(stage: QueueStage, events: Seq<QueueEvent>) -> bool
    decreases events.len(),
{
    events.len() == 0 || (stage.awaits(events[0]) && can_follow(
        stage.after(events[0]),
        events.drop_first(),
    ))
}

/// The stage that a sequence of events leads to.
pub open spec fn after_events(stage: QueueStage, events: Seq<QueueEvent>) -> QueueStage
    decreases events.len(),
{
    if events.len() == 0 {
        stage
    } else {
        after_events(stage.after(events[0]), events.drop_first())
    }
}

/// Is an operation under way?
pub open spec fn is_busy(stage: QueueStage) -> bool {
    match stage {
        QueueStage::ReportRunning { .. } => true,
        QueueStage::Run { .. } => true,
        QueueStage::SyncState { .. } => true,
        QueueStage::BroadcastState { .. } => true,
        QueueStage::Notify { .. } => true,
        QueueStage::Complete => true,
        _ => false,
    }
}

/// How many operations are under way.
pub open spec fn under_way(stage: QueueStage) -> nat {
    if is_busy(stage) {
        1
    } else {
        0
    }
}

/// How many operations were begun.
pub open spec fn begun(events: Seq<QueueEvent>) -> nat
    decreases events.len(),
{
    if events.len() == 0 {
        0
    } else {
        begun(events.drop_first()) + if events[0] matches QueueEvent::Began(Some(_)) {
            1nat
        } else {
            0nat
        }
    }
}

/// How many operations were completed.
pub open spec fn completed(events: Seq<QueueEvent>) -> nat
    decreases events.len(),
{
    if events.len() == 0 {
        0
    } else {
        completed(events.drop_first()) + if events[0] is Completed {
            1nat
        } else {
            0nat
        }
    }
}

proof fn lemma_operations_balance(stage: QueueStage, events: Seq<QueueEvent>)
    requires
        can_follow(stage, events),
    ensures
        completed(events) + under_way(after_events(stage, events)) == under_way(stage) + begun(
            events,
        ),
    decreases events.len(),
{
    if events.len() > 0 {
        lemma_operations_balance(stage.after(events[0]), events.drop_first());
    }
}

/// Operations do not overlap: at any time all that were begun are completed, but for the
/// one that is under way.
pub proof fn law_one_operation_at_a_time(events: Seq<QueueEvent>)
    requires
        can_follow(QueueStage::CheckFlavorUpdates, events),
    ensures
        begun(events) == completed(events) + under_way(
            after_events(QueueStage::CheckFlavorUpdates, events),
        ),
        under_way(after_events(QueueStage::CheckFlavorUpdates, events)) <= 1,
        after_events(QueueStage::CheckFlavorUpdates, events) is BeginNext ==> begun(events)
            == completed(events),
{
    lemma_operations_balance(QueueStage::CheckFlavorUpdates, events);
}

proof fn lemma_stage_at(start: QueueStage, events: Seq<QueueEvent>, i: int)
    requires
        can_follow(start, events),
        0 <= i < events.len(),
    ensures
        after_events(start, events.take(i)).awaits(events[i]),
        after_events(start, events.take(i + 1)) == after_events(start, events.take(i)).after(
            events[i],
        ),
    decreases i,
{
    let next = start.after(events[0]);
    let rest = events.drop_first();
    if i == 0 {
        assert(after_events(start, events.take(0)) == start);
        assert(events.take(1)[0] == events[0]);
        assert(after_events(next, events.take(1).drop_first()) == next);
    } else {
        lemma_stage_at(next, rest, i - 1);
        assert(rest[i - 1] == events[i]);
        assert(events.take(i)[0] == events[0]);
        assert(events.take(i + 1)[0] == events[0]);
        assert(events.take(i).drop_first() =~= rest.take(i - 1));
        assert(events.take(i + 1).drop_first() =~= rest.take(i));
    }
}

/// The look for new releases comes first, and only once.
pub proof fn law_flavors_are_checked_once_and_first(events: Seq<QueueEvent>, i: int)
    requires
        can_follow(QueueStage::CheckFlavorUpdates, events),
        0 <= i < events.len(),
    ensures
        events[i] is FlavorsChecked <==> i == 0,
{
    lemma_stage_at(QueueStage::CheckFlavorUpdates, events, i);
    if i > 0 {
        lemma_stage_at(QueueStage::CheckFlavorUpdates, events, i - 1);
    } else {
        assert(after_events(QueueStage::CheckFlavorUpdates, events.take(0))
            == QueueStage::CheckFlavorUpdates);
    }
}

/// Memory is reclaimed directly after each completion, and only then.
pub proof fn law_memory_is_reclaimed_after_completion(events: Seq<QueueEvent>, i: int)
    requires
        can_follow(QueueStage::CheckFlavorUpdates, events),
        0 <= i < events.len(),
    ensures
        events[i] is MemoryReclaimed <==> i > 0 && events[i - 1] is Completed,
        events[i] is Completed ==> after_events(
            QueueStage::CheckFlavorUpdates,
            events.take(i + 1),
        ) is ReclaimMemory,
{
    lemma_stage_at(QueueStage::CheckFlavorUpdates, events, i);
    if i > 0 {
        lemma_stage_at(QueueStage::CheckFlavorUpdates, events, i - 1);
    } else {
        assert(after_events(QueueStage::CheckFlavorUpdates, events.take(0))
            == QueueStage::CheckFlavorUpdates);
    }
}

/// The queue is waited for directly after it was found empty, and only then; and it is
/// looked at again after each wait and after each operation.
pub proof fn law_only_an_empty_queue_is_waited_for(events: Seq<QueueEvent>, i: int)
    requires
        can_follow(QueueStage::CheckFlavorUpdates, events),
        0 <= i < events.len(),
    ensures
        events[i] is Woken <==> i > 0 && events[i - 1] == QueueEvent::Began(None),
        events[i] is Began <==> i > 0 && (events[i - 1] is FlavorsChecked || events[i - 1] is Woken
            || events[i - 1] is MemoryReclaimed),
        events[i] == QueueEvent::Began(None) ==> after_events(
            QueueStage::CheckFlavorUpdates,
            events.take(i + 1),
        ) is Wait,
{
    lemma_stage_at(QueueStage::CheckFlavorUpdates, events, i);
    if i > 0 {
        lemma_stage_at(QueueStage::CheckFlavorUpdates, events, i - 1);
    } else {
        assert(after_events(QueueStage::CheckFlavorUpdates, events.take(0))
            == QueueStage::CheckFlavorUpdates);
    }
}

/// A slot that was not created or not renamed changes nothing that users see: the one
/// thing that they are told is the error, and then the operation is completed.
pub proof fn law_failed_slot_change_is_only_reported(
    start: QueueStage,
    events: Seq<QueueEvent>,
    i: int,
    error: String,
)
    requires
        can_follow(start, events),
        0 <= i < events.len(),
        events[i] == QueueEvent::SlotChanged(Err(error)),
    ensures
        after_events(start, events.take(i + 1)) == (QueueStage::Notify {
            notice: QueueNotice::Failed { error },
        }),
        i + 1 < events.len() ==> events[i + 1] is Notified,
        i + 2 < events.len() ==> events[i + 2] is Completed,
{
    lemma_stage_at(start, events, i);
    if i + 1 < events.len() {
        lemma_stage_at(start, events, i + 1);
    }
    if i + 2 < events.len() {
        lemma_stage_at(start, events, i + 2);
    }
}

proof fn lemma_last_event(start: QueueStage, events: Seq<QueueEvent>)
    requires
        can_follow(start, events),
        events.len() > 0,
    ensures
        can_follow(start, events.drop_last()),
        after_events(start, events.drop_last()).awaits(events.last()),
        after_events(start, events) == after_events(start, events.drop_last()).after(
            events.last(),
        ),
    decreases events.len(),
{
    let next = start.after(events[0]);
    let rest = events.drop_first();
    assert(can_follow(next, rest));
    if events.len() == 1 {
        assert(after_events(next, rest) == next);
        assert(after_events(start, events.drop_last()) == start);
    } else {
        lemma_last_event(next, rest);
        assert(rest.last() == events.last());
        assert(rest.drop_last() =~= events.drop_last().drop_first());
        assert(events.drop_last()[0] == events[0]);
    }
}

/// Working through the queue takes every outcome of its stages, whatever it is, and no
/// other: slots that are created and renamed end with their label or an error, all other
/// work with its end.
pub proof fn law_every_outcome_is_taken(stage: QueueStage, event: QueueEvent)
    ensures
        stage.awaits(event) <==> {
            ||| stage is CheckFlavorUpdates && event is FlavorsChecked
            ||| stage is BeginNext && event is Began
            ||| stage is Wait && event is Woken
            ||| stage is ReportRunning && event is Reported
            ||| stage is Run && stage->Run_task is Install && event is Ended
            ||| stage is Run && stage->Run_task is Uninstall && event is Ended
            ||| stage is Run && stage->Run_task is RemoveVirtualTool && event is Ended
            ||| stage is Run && stage->Run_task is CreateSlot && event is SlotChanged
            ||| stage is Run && stage->Run_task is RenameSlot && event is SlotChanged
            ||| stage is SyncState && event is StateSynced
            ||| stage is BroadcastState && event is StateBroadcast
            ||| stage is Notify && event is Notified
            ||| stage is Complete && event is Completed
            ||| stage is ReclaimMemory && event is MemoryReclaimed
        },
{
}

/// A command that was taken from the queue runs the work of its kind, with its own
/// arguments; all but installations first report that they run. A refresh and a
/// cancellation run nothing.
pub proof fn law_command_runs_what_it_asks_for(
    start: QueueStage,
    events: Seq<QueueEvent>,
    i: int,
    command: Command,
)
    requires
        can_follow(start, events),
        0 <= i < events.len(),
        events[i] == QueueEvent::Began(Some(command)),
    ensures
        ({
            let stage = after_events(start, events.take(i + 1));
            match command {
                Command::InstallCatalogRelease { release_id, target } => stage == (
                QueueStage::Run { task: QueueTask::Install { release_id, target } }),
                Command::UninstallInstalledTool { installed_tool_id } => stage == (
                QueueStage::ReportRunning { task: QueueTask::Uninstall { installed_tool_id } }),
                Command::CreateVirtualTool { user_label } => stage == (
                QueueStage::ReportRunning { task: QueueTask::CreateSlot { user_label } }),
                Command::RenameVirtualTool { virtual_tool_id, user_label } => stage == (
                QueueStage::ReportRunning {
                    task: QueueTask::RenameSlot { virtual_tool_id, user_label },
                }),
                Command::RemoveVirtualTool { virtual_tool_id } => stage == (
                QueueStage::ReportRunning {
                    task: QueueTask::RemoveVirtualTool { virtual_tool_id },
                }),
                Command::RefreshCatalog => stage is Complete,
                Command::CancelOperation => stage is Complete,
            }
        }),
        i + 1 < events.len() ==> {
            let stage = after_events(start, events.take(i + 2));
            match command {
                Command::InstallCatalogRelease { .. } => events[i + 1] is Ended,
                Command::UninstallInstalledTool { installed_tool_id } => stage == (
                QueueStage::Run { task: QueueTask::Uninstall { installed_tool_id } }),
                Command::CreateVirtualTool { user_label } => stage == (
                QueueStage::Run { task: QueueTask::CreateSlot { user_label } }),
                Command::RenameVirtualTool { virtual_tool_id, user_label } => stage == (
                QueueStage::Run { task: QueueTask::RenameSlot { virtual_tool_id, user_label } }),
                Command::RemoveVirtualTool { virtual_tool_id } => stage == (
                QueueStage::Run { task: QueueTask::RemoveVirtualTool { virtual_tool_id } }),
                Command::RefreshCatalog => events[i + 1] is Completed,
                Command::CancelOperation => events[i + 1] is Completed,
            }
        },
{
    lemma_stage_at(start, events, i);
    if i + 1 < events.len() {
        lemma_stage_at(start, events, i + 1);
    }
}

/// The command that was taken from the queue last.
pub open spec fn last_command(events: Seq<QueueEvent>) -> Option<Command>
    decreases events.len(),
{
    if events.len() == 0 {
        None
    } else if let QueueEvent::Began(Some(command)) = events.last() {
        Some(command)
    } else {
        last_command(events.drop_last())
    }
}

/// Is `task` just the work that `command` stands for, with the same arguments?
pub open spec fn asks_for(command: Command, task: QueueTask) -> bool {
    match task {
        QueueTask::Install { release_id, target } => command == (Command::InstallCatalogRelease {
            release_id,
            target,
        }),
        QueueTask::Uninstall { installed_tool_id } => command == (
        Command::UninstallInstalledTool { installed_tool_id }),
        QueueTask::CreateSlot { user_label } => command == (Command::CreateVirtualTool {
            user_label,
        }),
        QueueTask::RenameSlot { virtual_tool_id, user_label } => command == (
        Command::RenameVirtualTool { virtual_tool_id, user_label }),
        QueueTask::RemoveVirtualTool { virtual_tool_id } => command == (
        Command::RemoveVirtualTool { virtual_tool_id }),
    }
}

/// No work is done that the last command did not ask for.
pub proof fn law_only_what_was_asked_for_is_run(events: Seq<QueueEvent>)
    requires
        can_follow(QueueStage::CheckFlavorUpdates, events),
    ensures
        ({
            let stage = after_events(QueueStage::CheckFlavorUpdates, events);
            &&& stage matches QueueStage::Run { task } ==> (last_command(events) matches Some(
                command,
            ) && asks_for(command, task))
            &&& stage matches QueueStage::ReportRunning { task } ==> (last_command(
                events,
            ) matches Some(command) && asks_for(command, task))
        }),
    decreases events.len(),
{
    if events.len() > 0 {
        lemma_last_event(QueueStage::CheckFlavorUpdates, events);
        law_only_what_was_asked_for_is_run(events.drop_last());
    }
}

/// A slot that was created or renamed is shown to all users and then told under its new
/// label, as created or as renamed; all work ends in a completion.
pub proof fn law_slot_change_is_shown_and_told(
    start: QueueStage,
    events: Seq<QueueEvent>,
    i: int,
)
    requires
        can_follow(start, events),
        0 <= i < events.len(),
    ensures
        ({
            let before = after_events(start, events.take(i));
            let stage = after_events(start, events.take(i + 1));
            &&& events[i] matches QueueEvent::SlotChanged(Ok(label)) ==> {
                &&& before->Run_task is CreateSlot ==> stage == (QueueStage::SyncState {
                    notice: QueueNotice::Created { label },
                })
                &&& before->Run_task is RenameSlot ==> stage == (QueueStage::SyncState {
                    notice: QueueNotice::Renamed { label },
                })
            }
            &&& events[i] is StateSynced ==> stage == (QueueStage::BroadcastState {
                notice: before->SyncState_notice,
            })
            &&& events[i] is StateBroadcast ==> stage == (QueueStage::Notify {
                notice: before->BroadcastState_notice,
            })
            &&& events[i] is Reported ==> stage == (QueueStage::Run {
                task: before->ReportRunning_task,
            })
            &&& events[i] is Ended || events[i] is Notified ==> stage is Complete
        }),
{
    lemma_stage_at(start, events, i);
}

/// The user is told the whole label of a slot, and the whole of an error.
pub proof fn law_notices_say_it_all(said: String)
    ensures
        (QueueNotice::Created { label: said }).text() == "Created virtual compatibility tool: "@
            + said@,
        (QueueNotice::Renamed { label: said }).text() == "Renamed virtual compatibility tool to "@
            + said@,
        (QueueNotice::Failed { error: said }).text() == said@,
{
}

/// Work other than an installation is reported as running, at its very beginning, and no
/// other stage reports anything.
pub proof fn law_work_is_reported_as_running(
    start: QueueStage,
    events: Seq<QueueEvent>,
    i: int,
    command: Command,
)
    requires
        can_follow(start, events),
        0 <= i < events.len(),
        events[i] == QueueEvent::Began(Some(command)),
    ensures
        after_events(start, events.take(i + 1)).report() == match command {
            Command::InstallCatalogRelease { .. } => None,
            Command::RefreshCatalog => None,
            Command::CancelOperation => None,
            _ => Some((OperationState::Running, 0u8)),
        },
{
    lemma_stage_at(start, events, i);
}

} // verus!
