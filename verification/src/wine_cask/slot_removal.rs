//! Removing a virtual tool with its directory.
use crate::paths;
use crate::text;
use crate::wine_cask::app;
use crate::wine_cask::app::WineCask;
use crate::wine_cask::virtual_tools::VirtualToolConfig;
use vstd::prelude::*;
use vstd::string::*;

verus! {

broadcast use vstd::string::group_string_axioms;

/// Why the directory of a virtual tool was not removed.
#[derive(Debug)]
pub enum DirectoryFailure {
    BaseInaccessible { error: String },
    DirectoryInaccessible { error: String },
    OutsideTools,
    DeletionFailed { error: String },
}

/// What is to be done next to remove the directory of a virtual tool.
#[derive(Debug)]
pub enum DirectoryStage {
    /// Look whether the tool's directory exists.
    CheckExisting { base_directory: Vec<u8>, tool_directory: Vec<u8> },
    /// Resolve the directory of the compatibility tools to its canonical path.
    ResolveBase { base_directory: Vec<u8>, tool_directory: Vec<u8> },
    /// Resolve the tool's directory to its canonical path.
    ResolveTarget { base: Vec<u8>, tool_directory: Vec<u8> },
    /// Delete what is at `path`.
    Delete { path: Vec<u8> },
    /// Nothing: the removal has ended.
    Finished { result: Result<(), DirectoryFailure> },
}

/// What came of a stage.
#[derive(Debug)]
pub enum DirectoryEvent {
    ExistenceChecked(bool),
    BaseResolved(Result<Vec<u8>, String>),
    TargetResolved(Result<Vec<u8>, String>),
    Deleted(Result<(), String>),
}

impl DirectoryFailure {
    /// What the user is told.
    pub open spec fn text(self) -> Seq<char> {
        match self {
            DirectoryFailure::BaseInaccessible { error } =>
                "Failed to access compatibility tools base directory: "@ + error@,
            DirectoryFailure::DirectoryInaccessible { error } =>
                "Failed to access virtual tool directory: "@ + error@,
            DirectoryFailure::OutsideTools =>
                "Refusing to remove path outside compatibilitytools.d"@,
            DirectoryFailure::DeletionFailed { error } =>
                "Error removing virtual compatibility tool: "@ + error@,
        }
    }

    /// What the user is told.
    pub fn message(&self) -> (r: String)
        ensures
            r@ == self.text(),
    {
        match self {
            DirectoryFailure::BaseInaccessible { error } => text::labelled(
                "Failed to access compatibility tools base directory: ",
                error.as_str(),
            ),
            DirectoryFailure::DirectoryInaccessible { error } => text::labelled(
                "Failed to access virtual tool directory: ",
                error.as_str(),
            ),
            DirectoryFailure::OutsideTools =>
                "Refusing to remove path outside compatibilitytools.d".to_string(),
            DirectoryFailure::DeletionFailed { error } => text::labelled(
                "Error removing virtual compatibility tool: ",
                error.as_str(),
            ),
        }
    }
}

/// The end of a removal that failed.
pub open spec fn failed(failure: DirectoryFailure) -> DirectoryStage {
    DirectoryStage::Finished { result: Err(failure) }
}

/// Ends a removal that failed.
fn fail(failure: DirectoryFailure) -> (r: DirectoryStage)
    ensures
        r == failed(failure),
{
    DirectoryStage::Finished { result: Err(failure) }
}

impl DirectoryStage {
    /// Is the event an outcome of this stage?
    pub open spec fn awaits(self, event: DirectoryEvent) -> bool {
        match self {
            DirectoryStage::CheckExisting { .. } => event is ExistenceChecked,
            DirectoryStage::ResolveBase { .. } => event is BaseResolved,
            DirectoryStage::ResolveTarget { .. } => event is TargetResolved,
            DirectoryStage::Delete { .. } => event is Deleted,
            DirectoryStage::Finished { .. } => false,
        }
    }

    /// The stage that an event leads to. Only a path among the compatibility tools is
    /// deleted, and a directory that does not exist needs no removal.
    pub open spec fn after(self, event: DirectoryEvent) -> DirectoryStage {
        match (self, event) {
            (
                DirectoryStage::CheckExisting { base_directory, tool_directory },
                DirectoryEvent::ExistenceChecked(there),
            ) => if there {
                DirectoryStage::ResolveBase { base_directory, tool_directory }
            } else {
                DirectoryStage::Finished { result: Ok(()) }
            },
            (
                DirectoryStage::ResolveBase { tool_directory, .. },
                DirectoryEvent::BaseResolved(outcome),
            ) => match outcome {
                Ok(base) => DirectoryStage::ResolveTarget { base, tool_directory },
                Err(error) => failed(DirectoryFailure::BaseInaccessible { error }),
            },
            (
                DirectoryStage::ResolveTarget { base, .. },
                DirectoryEvent::TargetResolved(outcome),
            ) => match outcome {
                Ok(path) => if paths::lies_within(path@, base@) {
                    DirectoryStage::Delete { path }
                } else {
                    failed(DirectoryFailure::OutsideTools)
                },
                Err(error) => failed(DirectoryFailure::DirectoryInaccessible { error }),
            },
            (_, DirectoryEvent::Deleted(outcome)) => match outcome {
                Ok(_) => DirectoryStage::Finished { result: Ok(()) },
                Err(error) => failed(DirectoryFailure::DeletionFailed { error }),
            },
            _ => self,
        }
    }

    /// Is the event an outcome of this stage?
    pub fn expects(&self, event: &DirectoryEvent) -> (r: bool)
        ensures
            r == self.awaits(*event),
    {
        match (self, event) {
            (DirectoryStage::CheckExisting { .. }, DirectoryEvent::ExistenceChecked(_)) => true,
            (DirectoryStage::ResolveBase { .. }, DirectoryEvent::BaseResolved(_)) => true,
            (DirectoryStage::ResolveTarget { .. }, DirectoryEvent::TargetResolved(_)) => true,
            (DirectoryStage::Delete { .. }, DirectoryEvent::Deleted(_)) => true,
            _ => false,
        }
    }

    /// Takes the outcome of this stage.
    pub fn advance(self, event: DirectoryEvent) -> (r: DirectoryStage)
        requires
            self.awaits(event),
        ensures
            r == self.after(event),
    {
        match (self, event) {
            (
                DirectoryStage::CheckExisting { base_directory, tool_directory },
                DirectoryEvent::ExistenceChecked(there),
            ) => if there {
                DirectoryStage::ResolveBase { base_directory, tool_directory }
            } else {
                DirectoryStage::Finished { result: Ok(()) }
            },
            (
                DirectoryStage::ResolveBase { tool_directory, .. },
                DirectoryEvent::BaseResolved(outcome),
            ) => match outcome {
                Ok(base) => DirectoryStage::ResolveTarget { base, tool_directory },
                Err(error) => fail(DirectoryFailure::BaseInaccessible { error }),
            },
            (
                DirectoryStage::ResolveTarget { base, .. },
                DirectoryEvent::TargetResolved(outcome),
            ) => match outcome {
                Ok(path) => if paths::path_lies_within(path.as_slice(), base.as_slice()) {
                    DirectoryStage::Delete { path }
                } else {
                    fail(DirectoryFailure::OutsideTools)
                },
                Err(error) => fail(DirectoryFailure::DirectoryInaccessible { error }),
            },
            (_, DirectoryEvent::Deleted(outcome)) => match outcome {
                Ok(_) => DirectoryStage::Finished { result: Ok(()) },
                Err(error) => fail(DirectoryFailure::DeletionFailed { error }),
            },
            (stage, _) => stage,
        }
    }
}

/// Starts to remove `tool_directory`, the directory of a virtual tool below
/// `base_directory`.
pub fn remove_virtual_tool_directory(base_directory: Vec<u8>, tool_directory: Vec<u8>) -> (r:
    DirectoryStage)
    ensures
        r == (DirectoryStage::CheckExisting { base_directory, tool_directory }),
{
    DirectoryStage::CheckExisting { base_directory, tool_directory }
}

/// What the user is told at the end.
#[derive(Debug)]
pub enum SlotRemovalNotice {
    NotFound,
    DirectoryNotRemoved { failure: DirectoryFailure },
    ManifestNotUpdated { error: String },
    Removed { user_label: String },
}

/// What is to be done next to remove a virtual tool.
pub enum SlotRemovalStage {
    /// Look the virtual tool up.
    LookUp { virtual_tool_id: String },
    /// Remove the tool's directory, see `WineCask::directory_removal`.
    RemoveDirectory { virtual_tool_id: String, tool: VirtualToolConfig },
    /// Remove the tool's slot from the manifest.
    RemoveSlot { virtual_tool_id: String, tool: VirtualToolConfig },
    /// Bring the state of the backend up to date.
    SyncState { tool: VirtualToolConfig },
    /// Show all users the state of the backend.
    BroadcastState { tool: VirtualToolConfig },
    /// Tell the user how it ended.
    Notify { notice: SlotRemovalNotice },
    /// Nothing: the operation has ended.
    Finished,
}

/// What came of a stage.
pub enum SlotRemovalEvent {
    LookedUp(Option<VirtualToolConfig>),
    DirectoryRemoved(Result<(), DirectoryFailure>),
    SlotRemoved(Result<String, String>),
    StateSynced,
    StateBroadcast,
    Notified,
}

impl SlotRemovalNotice {
    /// What the user is told.
    pub open spec fn text(self) -> Seq<char> {
        match self {
            SlotRemovalNotice::NotFound => "Virtual tool not found"@,
            SlotRemovalNotice::DirectoryNotRemoved { failure } => failure.text(),
            SlotRemovalNotice::ManifestNotUpdated { error } =>
                "Compatibility tool directory removed but virtual tool manifest update failed: "@
                + error@,
            SlotRemovalNotice::Removed { user_label } => "Removed virtual compatibility tool: "@
                + user_label@,
        }
    }

    /// What the user is told.
    pub fn message(&self) -> (r: String)
        ensures
            r@ == self.text(),
    {
        match self {
            SlotRemovalNotice::NotFound => "Virtual tool not found".to_string(),
            SlotRemovalNotice::DirectoryNotRemoved { failure } => failure.message(),
            SlotRemovalNotice::ManifestNotUpdated { error } => text::labelled(
                "Compatibility tool directory removed but virtual tool manifest update failed: ",
                error.as_str(),
            ),
            SlotRemovalNotice::Removed { user_label } => text::labelled(
                "Removed virtual compatibility tool: ",
                user_label.as_str(),
            ),
        }
    }
}

impl SlotRemovalStage {
    /// Is the event an outcome of this stage?
    pub open spec fn awaits(self, event: SlotRemovalEvent) -> bool {
        match self {
            SlotRemovalStage::LookUp { .. } => event is LookedUp,
            SlotRemovalStage::RemoveDirectory { .. } => event is DirectoryRemoved,
            SlotRemovalStage::RemoveSlot { .. } => event is SlotRemoved,
            SlotRemovalStage::SyncState { .. } => event is StateSynced,
            SlotRemovalStage::BroadcastState { .. } => event is StateBroadcast,
            SlotRemovalStage::Notify { .. } => event is Notified,
            SlotRemovalStage::Finished => false,
        }
    }

    /// The stage that an event leads to. The slot is removed after the directory.
    pub open spec fn after(self, event: SlotRemovalEvent) -> SlotRemovalStage {
        match (self, event) {
            (
                SlotRemovalStage::LookUp { virtual_tool_id },
                SlotRemovalEvent::LookedUp(found),
            ) => match found {
                Some(tool) => SlotRemovalStage::RemoveDirectory { virtual_tool_id, tool },
                None => SlotRemovalStage::Notify { notice: SlotRemovalNotice::NotFound },
            },
            (
                SlotRemovalStage::RemoveDirectory { virtual_tool_id, tool },
                SlotRemovalEvent::DirectoryRemoved(outcome),
            ) => match outcome {
                Ok(_) => SlotRemovalStage::RemoveSlot { virtual_tool_id, tool },
                Err(failure) => SlotRemovalStage::Notify {
                    notice: SlotRemovalNotice::DirectoryNotRemoved { failure },
                },
            },
            (
                SlotRemovalStage::RemoveSlot { virtual_tool_id, tool },
                SlotRemovalEvent::SlotRemoved(outcome),
            ) => match outcome {
                Ok(_) => SlotRemovalStage::SyncState { tool },
                Err(error) => SlotRemovalStage::Notify {
                    notice: SlotRemovalNotice::ManifestNotUpdated { error },
                },
            },
            (SlotRemovalStage::SyncState { tool }, _) => SlotRemovalStage::BroadcastState { tool },
            (SlotRemovalStage::BroadcastState { tool }, _) => SlotRemovalStage::Notify {
                notice: SlotRemovalNotice::Removed { user_label: tool.user_label },
            },
            (SlotRemovalStage::Notify { notice }, _) => SlotRemovalStage::Finished,
            _ => self,
        }
    }

    /// Is the event an outcome of this stage?
    pub fn expects(&self, event: &SlotRemovalEvent) -> (r: bool)
        ensures
            r == self.awaits(*event),
    {
        match (self, event) {
            (SlotRemovalStage::LookUp { .. }, SlotRemovalEvent::LookedUp(_)) => true,
            (SlotRemovalStage::RemoveDirectory { .. }, SlotRemovalEvent::DirectoryRemoved(_)) =>
                true,
            (SlotRemovalStage::RemoveSlot { .. }, SlotRemovalEvent::SlotRemoved(_)) => true,
            (SlotRemovalStage::SyncState { .. }, SlotRemovalEvent::StateSynced) => true,
            (SlotRemovalStage::BroadcastState { .. }, SlotRemovalEvent::StateBroadcast) => true,
            (SlotRemovalStage::Notify { .. }, SlotRemovalEvent::Notified) => true,
            _ => false,
        }
    }

    /// Takes the outcome of this stage.
    pub fn advance(self, event: SlotRemovalEvent) -> (r: SlotRemovalStage)
        requires
            self.awaits(event),
        ensures
            r == self.after(event),
    {
        match (self, event) {
            (
                SlotRemovalStage::LookUp { virtual_tool_id },
                SlotRemovalEvent::LookedUp(found),
            ) => match found {
                Some(tool) => SlotRemovalStage::RemoveDirectory { virtual_tool_id, tool },
                None => SlotRemovalStage::Notify { notice: SlotRemovalNotice::NotFound },
            },
            (
                SlotRemovalStage::RemoveDirectory { virtual_tool_id, tool },
                SlotRemovalEvent::DirectoryRemoved(outcome),
            ) => match outcome {
                Ok(_) => SlotRemovalStage::RemoveSlot { virtual_tool_id, tool },
                Err(failure) => SlotRemovalStage::Notify {
                    notice: SlotRemovalNotice::DirectoryNotRemoved { failure },
                },
            },
            (
                SlotRemovalStage::RemoveSlot { virtual_tool_id: _, tool },
                SlotRemovalEvent::SlotRemoved(outcome),
            ) => match outcome {
                Ok(_) => SlotRemovalStage::SyncState { tool },
                Err(error) => SlotRemovalStage::Notify {
                    notice: SlotRemovalNotice::ManifestNotUpdated { error },
                },
            },
            (SlotRemovalStage::SyncState { tool }, _) => SlotRemovalStage::BroadcastState { tool },
            (SlotRemovalStage::BroadcastState { tool }, _) => SlotRemovalStage::Notify {
                notice: SlotRemovalNotice::Removed { user_label: tool.user_label },
            },
            (SlotRemovalStage::Notify { notice: _ }, _) => SlotRemovalStage::Finished,
            (stage, _) => stage,
        }
    }
}

/// Is `stage` the first stage of removing the virtual tool with the given id?
pub open spec fn is_removal_of(stage: SlotRemovalStage, virtual_tool_id: String) -> bool {
    stage matches SlotRemovalStage::LookUp { virtual_tool_id: id } && id == virtual_tool_id
}

impl WineCask {
    /// Starts to remove a virtual tool with its directory.
    pub fn remove_virtual_tool(&self, virtual_tool_id: String) -> (r: SlotRemovalStage)
        ensures
            r == (SlotRemovalStage::LookUp { virtual_tool_id }),
            is_removal_of(r, virtual_tool_id),
    {
        SlotRemovalStage::LookUp { virtual_tool_id }
    }

    /// Is `stage` the first stage of removing the directory of `tool`?
    pub open spec fn is_directory_removal_of(
        self,
        stage: DirectoryStage,
        tool: VirtualToolConfig,
    ) -> bool {
        stage matches DirectoryStage::CheckExisting { base_directory, tool_directory }
            && base_directory@ == self.compatibility_tools_directory@ && tool_directory@
            == self.tool_path(tool.directory_name@)
    }

    /// Starts to remove the directory of `tool`.
    pub fn directory_removal(&self, tool: &VirtualToolConfig) -> (r: DirectoryStage)
        ensures
            r matches DirectoryStage::CheckExisting { base_directory, tool_directory }
                && base_directory@ == self.compatibility_tools_directory@ && tool_directory@
                == self.tool_path(tool.directory_name@),
            self.is_directory_removal_of(r, *tool),
    {
        let mut base_directory: Vec<u8> = Vec::new();
        base_directory.extend_from_slice(self.compatibility_tools_directory.as_slice());
        assert(base_directory@ == self.compatibility_tools_directory@);
        remove_virtual_tool_directory(
            base_directory,
            self.tool_directory(tool.directory_name.as_str()),
        )
    }
}

/// Can the events follow one another from `stage` on?
pub open spec fn can_follow(stage: DirectoryStage, events: Seq<DirectoryEvent>) -> bool
    decreases events.len(),
{
    events.len() == 0 || (stage.awaits(events[0]) && can_follow(
        stage.after(events[0]),
        events.drop_first(),
    ))
}

/// The stage that a sequence of events leads to.
pub open spec fn after_events(stage: DirectoryStage, events: Seq<DirectoryEvent>) -> DirectoryStage
    decreases events.len(),
{
    if events.len() == 0 {
        stage
    } else {
        after_events(stage.after(events[0]), events.drop_first())
    }
}

/// Whatever is deleted lies among the compatibility tools: the path that is deleted is
/// the resolved path of the tool's directory, and it lies within the resolved directory of
/// the compatibility tools.
pub proof fn law_only_tool_directories_are_deleted(
    start: DirectoryStage,
    events: Seq<DirectoryEvent>,
)
    requires
        start is CheckExisting,
        can_follow(start, events),
        after_events(start, events) is Delete,
    ensures
        events.len() == 3,
        events[1] matches DirectoryEvent::BaseResolved(Ok(base)) && events[2]
            matches DirectoryEvent::TargetResolved(Ok(path)) && paths::lies_within(path@, base@)
            && after_events(start, events)->Delete_path == path,
{
    reveal_with_fuel(after_events, 5);
    reveal_with_fuel(can_follow, 5);
    lemma_delete_comes_once(start, events);
}

/// How many events lead from a stage to the deletion, if they do.
pub open spec fn steps_to_delete(stage: DirectoryStage) -> Option<nat> {
    match stage {
        DirectoryStage::CheckExisting { .. } => Some(3),
        DirectoryStage::ResolveBase { .. } => Some(2),
        DirectoryStage::ResolveTarget { .. } => Some(1),
        DirectoryStage::Delete { .. } => Some(0),
        DirectoryStage::Finished { .. } => None,
    }
}

proof fn lemma_delete_comes_once(stage: DirectoryStage, events: Seq<DirectoryEvent>)
    requires
        can_follow(stage, events),
        after_events(stage, events) is Delete,
    ensures
        steps_to_delete(stage) == Some(events.len()),
    decreases events.len(),
{
    if events.len() > 0 {
        lemma_delete_comes_once(stage.after(events[0]), events.drop_first());
    }
}

/// Can the events of a whole removal follow one another from `stage` on?
pub open spec fn removal_can_follow(
    stage: SlotRemovalStage,
    events: Seq<SlotRemovalEvent>,
) -> bool
    decreases events.len(),
{
    events.len() == 0 || (stage.awaits(events[0]) && removal_can_follow(
        stage.after(events[0]),
        events.drop_first(),
    ))
}

/// The stage of a whole removal that a sequence of events leads to.
pub open spec fn after_removal_events(
    stage: SlotRemovalStage,
    events: Seq<SlotRemovalEvent>,
) -> SlotRemovalStage
    decreases events.len(),
{
    if events.len() == 0 {
        stage
    } else {
        after_removal_events(stage.after(events[0]), events.drop_first())
    }
}

/// How often the user was told something.
pub open spec fn notifications(events: Seq<SlotRemovalEvent>) -> nat
    decreases events.len(),
{
    if events.len() == 0 {
        0
    } else {
        notifications(events.drop_first()) + if events[0] is Notified {
            1nat
        } else {
            0nat
        }
    }
}

/// The user is told exactly once how the removal of a virtual tool ended.
pub proof fn law_user_is_told_once(start: SlotRemovalStage, events: Seq<SlotRemovalEvent>)
    requires
        start is LookUp,
        removal_can_follow(start, events),
        after_removal_events(start, events) is Finished,
    ensures
        notifications(events) == 1,
{
    lemma_notifications_balance(start, events);
}

proof fn lemma_notifications_balance(stage: SlotRemovalStage, events: Seq<SlotRemovalEvent>)
    requires
        removal_can_follow(stage, events),
        after_removal_events(stage, events) is Finished,
    ensures
        notifications(events) == if stage is Finished {
            0nat
        } else {
            1nat
        },
    decreases events.len(),
{
    if events.len() > 0 {
        lemma_notifications_balance(stage.after(events[0]), events.drop_first());
    }
}

proof fn lemma_stage_at(start: SlotRemovalStage, events: Seq<SlotRemovalEvent>, i: int)
    requires
        removal_can_follow(start, events),
        0 <= i < events.len(),
    ensures
        after_removal_events(start, events.take(i)).awaits(events[i]),
        after_removal_events(start, events.take(i + 1)) == after_removal_events(
            start,
            events.take(i),
        ).after(events[i]),
    decreases i,
{
    let next = start.after(events[0]);
    let rest = events.drop_first();
    if i == 0 {
        assert(after_removal_events(start, events.take(0)) == start);
        assert(events.take(1)[0] == events[0]);
        assert(after_removal_events(next, events.take(1).drop_first()) == next);
    } else {
        lemma_stage_at(next, rest, i - 1);
        assert(rest[i - 1] == events[i]);
        assert(events.take(i)[0] == events[0]);
        assert(events.take(i + 1)[0] == events[0]);
        assert(events.take(i).drop_first() =~= rest.take(i - 1));
        assert(events.take(i + 1).drop_first() =~= rest.take(i));
    }
}

/// The slot of a virtual tool is removed directly after its directory, and only then. A
/// tool whose directory could not be removed keeps its slot: the user is told, and the
/// operation ends.
pub proof fn law_slot_outlives_its_directory(
    start: SlotRemovalStage,
    events: Seq<SlotRemovalEvent>,
    i: int,
)
    requires
        start is LookUp,
        removal_can_follow(start, events),
        0 <= i < events.len(),
    ensures
        events[i] is SlotRemoved <==> i > 0 && events[i - 1] == (SlotRemovalEvent::DirectoryRemoved(
            Ok(()),
        )),
        events[i] matches SlotRemovalEvent::DirectoryRemoved(Err(failure)) ==> {
            &&& after_removal_events(start, events.take(i + 1)) == (SlotRemovalStage::Notify {
                notice: SlotRemovalNotice::DirectoryNotRemoved { failure },
            })
            &&& i + 1 < events.len() ==> events[i + 1] is Notified
            &&& events.len() <= i + 2
        },
{
    lemma_stage_at(start, events, i);
    if i > 0 {
        lemma_stage_at(start, events, i - 1);
        if let SlotRemovalEvent::DirectoryRemoved(Ok(nothing)) = events[i - 1] {
            assert(nothing == ());
        }
    } else {
        assert(after_removal_events(start, events.take(0)) == start);
    }
    if i + 1 < events.len() {
        lemma_stage_at(start, events, i + 1);
    }
    if i + 2 < events.len() {
        lemma_stage_at(start, events, i + 2);
    }
}

proof fn lemma_last_event(start: DirectoryStage, events: Seq<DirectoryEvent>)
    requires
        can_follow(start, events),
        events.len() > 0,
    ensures
        can_follow(start, events.drop_last()),
        after_events(start, events.drop_last()).awaits(events.last()),
        after_events(start, events) == after_events(start, events.drop_last()).after(
            events.last(),
        ),
    decreases events.len(),
{
    let next = start.after(events[0]);
    let rest = events.drop_first();
    assert(can_follow(next, rest));
    if events.len() == 1 {
        assert(after_events(next, rest) == next);
        assert(after_events(start, events.drop_last()) == start);
    } else {
        lemma_last_event(next, rest);
        assert(rest.last() == events.last());
        assert(rest.drop_last() =~= events.drop_last().drop_first());
        assert(events.drop_last()[0] == events[0]);
    }
}

proof fn lemma_last_removal_event(start: SlotRemovalStage, events: Seq<SlotRemovalEvent>)
    requires
        removal_can_follow(start, events),
        events.len() > 0,
    ensures
        removal_can_follow(start, events.drop_last()),
        after_removal_events(start, events.drop_last()).awaits(events.last()),
        after_removal_events(start, events) == after_removal_events(start, events.drop_last()).after(
            events.last(),
        ),
    decreases events.len(),
{
    let next = start.after(events[0]);
    let rest = events.drop_first();
    assert(removal_can_follow(next, rest));
    if events.len() == 1 {
        assert(after_removal_events(next, rest) == next);
        assert(after_removal_events(start, events.drop_last()) == start);
    } else {
        lemma_last_removal_event(next, rest);
        assert(rest.last() == events.last());
        assert(rest.drop_last() =~= events.drop_last().drop_first());
        assert(events.drop_last()[0] == events[0]);
    }
}

/// Both removals take every outcome of their stages, whatever it is, and no other.
pub proof fn law_every_outcome_is_taken(
    directory: DirectoryStage,
    directory_event: DirectoryEvent,
    slot: SlotRemovalStage,
    slot_event: SlotRemovalEvent,
)
    ensures
        directory.awaits(directory_event) <==> {
            ||| directory is CheckExisting && directory_event is ExistenceChecked
            ||| directory is ResolveBase && directory_event is BaseResolved
            ||| directory is ResolveTarget && directory_event is TargetResolved
            ||| directory is Delete && directory_event is Deleted
        },
        slot.awaits(slot_event) <==> {
            ||| slot is LookUp && slot_event is LookedUp
            ||| slot is RemoveDirectory && slot_event is DirectoryRemoved
            ||| slot is RemoveSlot && slot_event is SlotRemoved
            ||| slot is SyncState && slot_event is StateSynced
            ||| slot is BroadcastState && slot_event is StateBroadcast
            ||| slot is Notify && slot_event is Notified
        },
{
}

/// At every point of the removal of a directory, the paths that are resolved are those that
/// it began with, and what is resolved is compared with what the base was resolved to.
pub proof fn law_directory_that_was_asked_for_is_resolved(
    start: DirectoryStage,
    events: Seq<DirectoryEvent>,
)
    requires
        start is CheckExisting,
        can_follow(start, events),
    ensures
        match after_events(start, events) {
            DirectoryStage::CheckExisting { .. } => events.len() == 0 && after_events(
                start,
                events,
            ) == start,
            DirectoryStage::ResolveBase { base_directory, tool_directory } => events.len() == 1
                && base_directory == start->CheckExisting_base_directory && tool_directory
                == start->CheckExisting_tool_directory,
            DirectoryStage::ResolveTarget { base, tool_directory } => events.len() == 2
                && events[1] == DirectoryEvent::BaseResolved(Ok(base)) && tool_directory
                == start->CheckExisting_tool_directory,
            DirectoryStage::Delete { path } => events.len() == 3 && events[2]
                == DirectoryEvent::TargetResolved(Ok(path)),
            DirectoryStage::Finished { .. } => events.len() > 0,
        },
    decreases events.len(),
{
    if events.len() > 0 {
        let prior = events.drop_last();
        lemma_last_event(start, events);
        law_directory_that_was_asked_for_is_resolved(start, prior);
        if prior.len() > 1 {
            assert(prior[1] == events[1]);
        }
    }
}

/// What the last outcome of the removal of a directory leads to: a failure ends it with that
/// failure, a directory that is not there is done with, and anything else leads to the next
/// piece of work.
pub proof fn law_directory_removal_goes_on_or_ends(
    start: DirectoryStage,
    events: Seq<DirectoryEvent>,
)
    requires
        can_follow(start, events),
        events.len() > 0,
    ensures
        ({
            let before = after_events(start, events.drop_last());
            let stage = after_events(start, events);
            match events.last() {
                DirectoryEvent::ExistenceChecked(true) => stage == (DirectoryStage::ResolveBase {
                    base_directory: before->CheckExisting_base_directory,
                    tool_directory: before->CheckExisting_tool_directory,
                }),
                DirectoryEvent::ExistenceChecked(false) => stage == (DirectoryStage::Finished {
                    result: Ok(()),
                }),
                DirectoryEvent::BaseResolved(Ok(base)) => stage == (
                DirectoryStage::ResolveTarget {
                    base,
                    tool_directory: before->ResolveBase_tool_directory,
                }),
                DirectoryEvent::BaseResolved(Err(error)) => stage == (DirectoryStage::Finished {
                    result: Err(DirectoryFailure::BaseInaccessible { error }),
                }),
                DirectoryEvent::TargetResolved(Ok(path)) => if paths::lies_within(
                    path@,
                    before->ResolveTarget_base@,
                ) {
                    stage == (DirectoryStage::Delete { path })
                } else {
                    stage == (DirectoryStage::Finished {
                        result: Err(DirectoryFailure::OutsideTools),
                    })
                },
                DirectoryEvent::TargetResolved(Err(error)) => stage == (DirectoryStage::Finished {
                    result: Err(DirectoryFailure::DirectoryInaccessible { error }),
                }),
                DirectoryEvent::Deleted(Ok(_)) => stage == (DirectoryStage::Finished {
                    result: Ok(()),
                }),
                DirectoryEvent::Deleted(Err(error)) => stage == (DirectoryStage::Finished {
                    result: Err(DirectoryFailure::DeletionFailed { error }),
                }),
            }
        }),
{
    lemma_last_event(start, events);
}

/// The tool that a stage is about.
pub open spec fn tool_of(stage: SlotRemovalStage) -> Option<VirtualToolConfig> {
    match stage {
        SlotRemovalStage::RemoveDirectory { tool, .. } => Some(tool),
        SlotRemovalStage::RemoveSlot { tool, .. } => Some(tool),
        SlotRemovalStage::SyncState { tool } => Some(tool),
        SlotRemovalStage::BroadcastState { tool } => Some(tool),
        _ => None,
    }
}

/// At every point the virtual tool that is removed is the one that was looked up, and the
/// slot that is removed is the one that was asked for.
pub proof fn law_tool_that_was_found_is_removed(
    start: SlotRemovalStage,
    events: Seq<SlotRemovalEvent>,
)
    requires
        start is LookUp,
        removal_can_follow(start, events),
    ensures
        ({
            let stage = after_removal_events(start, events);
            &&& tool_of(stage) matches Some(tool) ==> events.len() > 0 && events[0]
                == SlotRemovalEvent::LookedUp(Some(tool))
            &&& stage matches SlotRemovalStage::RemoveDirectory { virtual_tool_id, .. }
                ==> virtual_tool_id == start->LookUp_virtual_tool_id
            &&& stage matches SlotRemovalStage::RemoveSlot { virtual_tool_id, .. }
                ==> virtual_tool_id == start->LookUp_virtual_tool_id
            &&& stage is LookUp ==> events.len() == 0 && stage == start
        }),
    decreases events.len(),
{
    if events.len() > 0 {
        let prior = events.drop_last();
        lemma_last_removal_event(start, events);
        law_tool_that_was_found_is_removed(start, prior);
        if prior.len() > 0 {
            assert(prior[0] == events[0]);
        }
    }
}

/// What the last outcome of a removal leads to: a failure is told and nothing more is done,
/// and anything else leads to the next piece of work, up to the notice that the tool is
/// removed, under its label.
pub proof fn law_removal_goes_on_or_ends(start: SlotRemovalStage, events: Seq<SlotRemovalEvent>)
    requires
        removal_can_follow(start, events),
        events.len() > 0,
    ensures
        ({
            let before = after_removal_events(start, events.drop_last());
            let stage = after_removal_events(start, events);
            match events.last() {
                SlotRemovalEvent::LookedUp(Some(tool)) => stage == (
                SlotRemovalStage::RemoveDirectory {
                    virtual_tool_id: before->LookUp_virtual_tool_id,
                    tool,
                }),
                SlotRemovalEvent::LookedUp(None) => stage == (SlotRemovalStage::Notify {
                    notice: SlotRemovalNotice::NotFound,
                }),
                SlotRemovalEvent::DirectoryRemoved(Ok(_)) => stage is RemoveSlot
                    && stage->RemoveSlot_virtual_tool_id
                    == before->RemoveDirectory_virtual_tool_id,
                SlotRemovalEvent::DirectoryRemoved(Err(failure)) => stage == (
                SlotRemovalStage::Notify {
                    notice: SlotRemovalNotice::DirectoryNotRemoved { failure },
                }),
                SlotRemovalEvent::SlotRemoved(Ok(_)) => stage is SyncState,
                SlotRemovalEvent::SlotRemoved(Err(error)) => stage == (SlotRemovalStage::Notify {
                    notice: SlotRemovalNotice::ManifestNotUpdated { error },
                }),
                SlotRemovalEvent::StateSynced => stage is BroadcastState,
                SlotRemovalEvent::StateBroadcast => stage == (SlotRemovalStage::Notify {
                    notice: SlotRemovalNotice::Removed {
                        user_label: tool_of(before)->0.user_label,
                    },
                }),
                SlotRemovalEvent::Notified => stage is Finished,
            }
        }),
        ({
            let before = after_removal_events(start, events.drop_last());
            let stage = after_removal_events(start, events);
            tool_of(before) is Some && tool_of(stage) is Some ==> tool_of(stage) == tool_of(before)
        }),
{
    lemma_last_removal_event(start, events);
}

/// The user is told how it ended, with the whole error or the whole label.
pub proof fn law_notices_say_it_all(said: String, inner: DirectoryFailure)
    ensures
        (DirectoryFailure::BaseInaccessible { error: said }).text()
            == "Failed to access compatibility tools base directory: "@ + said@,
        (DirectoryFailure::DirectoryInaccessible { error: said }).text()
            == "Failed to access virtual tool directory: "@ + said@,
        DirectoryFailure::OutsideTools.text()
            == "Refusing to remove path outside compatibilitytools.d"@,
        (DirectoryFailure::DeletionFailed { error: said }).text()
            == "Error removing virtual compatibility tool: "@ + said@,
        SlotRemovalNotice::NotFound.text() == "Virtual tool not found"@,
        (SlotRemovalNotice::DirectoryNotRemoved { failure: inner }).text() == inner.text(),
        (SlotRemovalNotice::ManifestNotUpdated { error: said }).text()
            == "Compatibility tool directory removed but virtual tool manifest update failed: "@
            + said@,
        (SlotRemovalNotice::Removed { user_label: said }).text()
            == "Removed virtual compatibility tool: "@ + said@,
{
}

/// The directory that is looked for and resolved is that of the tool, one name below the
/// compatibility tools, and it is compared with what their directory is resolved to.
pub proof fn law_directory_of_the_tool_is_removed(
    cask: WineCask,
    tool: VirtualToolConfig,
    start: DirectoryStage,
    events: Seq<DirectoryEvent>,
)
    requires
        cask.is_directory_removal_of(start, tool),
        app::is_plain_name(tool.directory_name@),
        can_follow(start, events),
    ensures
        ({
            let place = paths::components(cask.compatibility_tools_directory@).push(
                paths::ComponentView::Normal(app::name_bytes(tool.directory_name@)),
            );
            match after_events(start, events) {
                DirectoryStage::CheckExisting { tool_directory, .. } => paths::components(
                    tool_directory@,
                ) == place,
                DirectoryStage::ResolveBase { base_directory, .. } => base_directory@
                    == cask.compatibility_tools_directory@,
                DirectoryStage::ResolveTarget { tool_directory, .. } => paths::components(
                    tool_directory@,
                ) == place,
                _ => true,
            }
        }),
{
    law_directory_that_was_asked_for_is_resolved(start, events);
    app::law_plain_name_is_added(cask.compatibility_tools_directory@, tool.directory_name@);
}

/// From the first stage on, the slot that is removed is the one that was asked for, and it is
/// removed only after the directory of the tool that was looked up for it.
pub proof fn law_request_is_followed_to_the_end(
    virtual_tool_id: String,
    start: SlotRemovalStage,
    events: Seq<SlotRemovalEvent>,
)
    requires
        is_removal_of(start, virtual_tool_id),
        removal_can_follow(start, events),
    ensures
        start is LookUp && start->LookUp_virtual_tool_id == virtual_tool_id,
        after_removal_events(start, events) matches SlotRemovalStage::RemoveSlot {
            virtual_tool_id: id,
            tool,
        } ==> id == virtual_tool_id && events.len() == 2 && events[0]
            == SlotRemovalEvent::LookedUp(Some(tool)) && (events[1]
            matches SlotRemovalEvent::DirectoryRemoved(Ok(_))),
{
    law_tool_that_was_found_is_removed(start, events);
    if after_removal_events(start, events) is RemoveSlot {
        let prior = events.drop_last();
        lemma_last_removal_event(start, events);
        law_tool_that_was_found_is_removed(start, prior);
        if prior.len() > 1 {
            lemma_last_removal_event(start, prior);
            law_tool_that_was_found_is_removed(start, prior.drop_last());
        }
        assert(prior.len() == 1);
        assert(events.last() == events[1]);
    }
}

} // verus!
