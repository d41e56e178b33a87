//! Uninstalling a tool.
use crate::paths;
use crate::text;
use crate::wine_cask::app::WineCask;
use crate::wine_cask::flavors::{InstalledTool, InstalledToolSource};
use vstd::prelude::*;
use vstd::string::*;

verus! {

broadcast use vstd::string::group_string_axioms;

/// What the user is told at the end.
#[derive(Debug)]
pub enum UninstallNotice {
    NotFound,
    BaseInaccessible { error: String },
    PathInaccessible { error: String },
    OutsideTools,
    DeletionFailed { error: String },
    ManifestNotUpdated { error: String },
    Removed { label: String },
}

/// What is to be done next to uninstall a tool.
pub enum UninstallStage {
    /// Look the tool up among the installed ones.
    LookUp { installed_tool_id: String, base_directory: Vec<u8> },
    /// Resolve `base_directory`, that of the compatibility tools, to its canonical path.
    ResolveBase { tool: InstalledTool, base_directory: Vec<u8> },
    /// Resolve `tool.path` to its canonical path.
    ResolveTarget { tool: InstalledTool, base: Vec<u8> },
    /// Delete what is at `path`.
    Delete { tool: InstalledTool, path: Vec<u8> },
    /// Remove the slot of the virtual tool from the manifest.
    RemoveSlot { tool: InstalledTool, virtual_tool_id: String },
    /// Bring the state of the backend up to date.
    SyncState { tool: InstalledTool },
    /// Show all users the state of the backend.
    BroadcastState { tool: InstalledTool },
    /// Tell the user how it ended.
    Notify { notice: UninstallNotice },
    /// Nothing: the operation has ended.
    Finished,
}

/// What came of a stage.
pub enum UninstallEvent {
    LookedUp(Option<InstalledTool>),
    BaseResolved(Result<Vec<u8>, String>),
    TargetResolved(Result<Vec<u8>, String>),
    Deleted(Result<(), String>),
    SlotRemoved(Result<String, String>),
    StateSynced,
    StateBroadcast,
    Notified,
}

impl UninstallNotice {
    /// What the user is told.
    pub open spec fn text(self) -> Seq<char> {
        match self {
            UninstallNotice::NotFound => "Installed tool not found"@,
            UninstallNotice::BaseInaccessible { error } =>
                "Failed to access compatibility tools base directory: "@ + error@,
            UninstallNotice::PathInaccessible { error } => "Failed to access uninstall path: "@
                + error@,
            UninstallNotice::OutsideTools =>
                "Refusing to uninstall path outside compatibilitytools.d"@,
            UninstallNotice::DeletionFailed { error } => "Error during uninstallation: "@ + error@,
            UninstallNotice::ManifestNotUpdated { error } =>
                "Compatibility tool directory removed but virtual tool manifest update failed: "@
                + error@,
            UninstallNotice::Removed { label } => "Removed "@ + label@,
        }
    }

    /// What the user is told.
    pub fn message(&self) -> (r: String)
        ensures
            r@ == self.text(),
    {
        match self {
            UninstallNotice::NotFound => "Installed tool not found".to_string(),
            UninstallNotice::BaseInaccessible { error } => text::labelled(
                "Failed to access compatibility tools base directory: ",
                error.as_str(),
            ),
            UninstallNotice::PathInaccessible { error } => text::labelled(
                "Failed to access uninstall path: ",
                error.as_str(),
            ),
            UninstallNotice::OutsideTools =>
                "Refusing to uninstall path outside compatibilitytools.d".to_string(),
            UninstallNotice::DeletionFailed { error } => text::labelled(
                "Error during uninstallation: ",
                error.as_str(),
            ),
            UninstallNotice::ManifestNotUpdated { error } => text::labelled(
                "Compatibility tool directory removed but virtual tool manifest update failed: ",
                error.as_str(),
            ),
            UninstallNotice::Removed { label } => text::labelled("Removed ", label.as_str()),
        }
    }
}

/// The name that the user knows a tool by: the label given to it, or else the name that
/// it is displayed under.
pub open spec fn shown_name(tool: InstalledTool) -> String {
    match tool.user_label {
        Some(label) => label,
        None => tool.display_name,
    }
}

/// The slot that goes with a tool: that of a virtual tool.
pub open spec fn slot_of(tool: InstalledTool) -> Option<String> {
    if tool.source == InstalledToolSource::Virtual {
        tool.virtual_tool_id
    } else {
        None
    }
}

/// Tells the user how it ended.
fn notify(notice: UninstallNotice) -> (r: UninstallStage)
    ensures
        r == (UninstallStage::Notify { notice }),
{
    UninstallStage::Notify { notice }
}

impl UninstallStage {
    /// Is the event an outcome of this stage?
    pub open spec fn awaits(self, event: UninstallEvent) -> bool {
        match self {
            UninstallStage::LookUp { .. } => event is LookedUp,
            UninstallStage::ResolveBase { .. } => event is BaseResolved,
            UninstallStage::ResolveTarget { .. } => event is TargetResolved,
            UninstallStage::Delete { .. } => event is Deleted,
            UninstallStage::RemoveSlot { .. } => event is SlotRemoved,
            UninstallStage::SyncState { .. } => event is StateSynced,
            UninstallStage::BroadcastState { .. } => event is StateBroadcast,
            UninstallStage::Notify { .. } => event is Notified,
            UninstallStage::Finished => false,
        }
    }

    /// The stage that an event leads to. Only a path among the compatibility tools is
    /// deleted.
    pub open spec fn after(self, event: UninstallEvent) -> UninstallStage {
        match (self, event) {
            (
                UninstallStage::LookUp { base_directory, .. },
                UninstallEvent::LookedUp(found),
            ) => match found {
                Some(tool) => UninstallStage::ResolveBase { tool, base_directory },
                None => UninstallStage::Notify { notice: UninstallNotice::NotFound },
            },
            (UninstallStage::ResolveBase { tool, .. }, UninstallEvent::BaseResolved(outcome)) =>
                match outcome {
                    Ok(base) => UninstallStage::ResolveTarget { tool, base },
                    Err(error) => UninstallStage::Notify {
                        notice: UninstallNotice::BaseInaccessible { error },
                    },
                },
            (
                UninstallStage::ResolveTarget { tool, base },
                UninstallEvent::TargetResolved(outcome),
            ) => match outcome {
                Ok(path) => if paths::lies_within(path@, base@) {
                    UninstallStage::Delete { tool, path }
                } else {
                    UninstallStage::Notify { notice: UninstallNotice::OutsideTools }
                },
                Err(error) => UninstallStage::Notify {
                    notice: UninstallNotice::PathInaccessible { error },
                },
            },
            (UninstallStage::Delete { tool, path }, UninstallEvent::Deleted(outcome)) =>
                match outcome {
                    Ok(_) => match slot_of(tool) {
                        Some(virtual_tool_id) => UninstallStage::RemoveSlot {
                            tool,
                            virtual_tool_id,
                        },
                        None => UninstallStage::SyncState { tool },
                    },
                    Err(error) => UninstallStage::Notify {
                        notice: UninstallNotice::DeletionFailed { error },
                    },
                },
            (
                UninstallStage::RemoveSlot { tool, virtual_tool_id },
                UninstallEvent::SlotRemoved(outcome),
            ) => match outcome {
                Ok(_) => UninstallStage::SyncState { tool },
                Err(error) => UninstallStage::Notify {
                    notice: UninstallNotice::ManifestNotUpdated { error },
                },
            },
            (UninstallStage::SyncState { tool }, _) => UninstallStage::BroadcastState { tool },
            (UninstallStage::BroadcastState { tool }, _) => UninstallStage::Notify {
                notice: UninstallNotice::Removed { label: shown_name(tool) },
            },
            (UninstallStage::Notify { notice }, _) => UninstallStage::Finished,
            _ => self,
        }
    }

    /// Is the event an outcome of this stage?
    pub fn expects(&self, event: &UninstallEvent) -> (r: bool)
        ensures
            r == self.awaits(*event),
    {
        match (self, event) {
            (UninstallStage::LookUp { .. }, UninstallEvent::LookedUp(_)) => true,
            (UninstallStage::ResolveBase { .. }, UninstallEvent::BaseResolved(_)) => true,
            (UninstallStage::ResolveTarget { .. }, UninstallEvent::TargetResolved(_)) => true,
            (UninstallStage::Delete { .. }, UninstallEvent::Deleted(_)) => true,
            (UninstallStage::RemoveSlot { .. }, UninstallEvent::SlotRemoved(_)) => true,
            (UninstallStage::SyncState { .. }, UninstallEvent::StateSynced) => true,
            (UninstallStage::BroadcastState { .. }, UninstallEvent::StateBroadcast) => true,
            (UninstallStage::Notify { .. }, UninstallEvent::Notified) => true,
            _ => false,
        }
    }

    /// Takes the outcome of this stage.
    pub fn advance(self, event: UninstallEvent) -> (r: UninstallStage)
        requires
            self.awaits(event),
        ensures
            r == self.after(event),
    {
        match (self, event) {
            (
                UninstallStage::LookUp { base_directory, .. },
                UninstallEvent::LookedUp(found),
            ) => match found {
                Some(tool) => UninstallStage::ResolveBase { tool, base_directory },
                None => notify(UninstallNotice::NotFound),
            },
            (UninstallStage::ResolveBase { tool, .. }, UninstallEvent::BaseResolved(outcome)) =>
                match outcome {
                    Ok(base) => UninstallStage::ResolveTarget { tool, base },
                    Err(error) => notify(UninstallNotice::BaseInaccessible { error }),
                },
            (
                UninstallStage::ResolveTarget { tool, base },
                UninstallEvent::TargetResolved(outcome),
            ) => match outcome {
                Ok(path) => if paths::path_lies_within(path.as_slice(), base.as_slice()) {
                    UninstallStage::Delete { tool, path }
                } else {
                    notify(UninstallNotice::OutsideTools)
                },
                Err(error) => notify(UninstallNotice::PathInaccessible { error }),
            },
            (UninstallStage::Delete { tool, path: _ }, UninstallEvent::Deleted(outcome)) =>
                match outcome {
                    Ok(_) => match tool.source {
                        InstalledToolSource::Virtual => match tool.virtual_tool_id.clone() {
                            Some(virtual_tool_id) => UninstallStage::RemoveSlot {
                                tool,
                                virtual_tool_id,
                            },
                            None => UninstallStage::SyncState { tool },
                        },
                        InstalledToolSource::Direct => UninstallStage::SyncState { tool },
                    },
                    Err(error) => notify(UninstallNotice::DeletionFailed { error }),
                },
            (
                UninstallStage::RemoveSlot { tool, virtual_tool_id: _ },
                UninstallEvent::SlotRemoved(outcome),
            ) => match outcome {
                Ok(_) => UninstallStage::SyncState { tool },
                Err(error) => notify(UninstallNotice::ManifestNotUpdated { error }),
            },
            (UninstallStage::SyncState { tool }, _) => UninstallStage::BroadcastState { tool },
            (UninstallStage::BroadcastState { tool }, _) => {
                let label = match tool.user_label {
                    Some(label) => label,
                    None => tool.display_name,
                };
                notify(UninstallNotice::Removed { label })
            },
            (UninstallStage::Notify { notice: _ }, _) => UninstallStage::Finished,
            (stage, _) => stage,
        }
    }
}

impl WineCask {
    /// Is `stage` the first stage of uninstalling a tool?
    pub open spec fn is_uninstallation_of(
        self,
        stage: UninstallStage,
        installed_tool_id: String,
    ) -> bool {
        stage matches UninstallStage::LookUp { installed_tool_id: id, base_directory } && id
            == installed_tool_id && base_directory@ == self.compatibility_tools_directory@
    }

    /// Starts to uninstall a tool.
    pub fn uninstall_installed_tool(&self, installed_tool_id: String) -> (r: UninstallStage)
        ensures
            r matches UninstallStage::LookUp { installed_tool_id: id, base_directory } && id
                == installed_tool_id && base_directory@ == self.compatibility_tools_directory@,
            self.is_uninstallation_of(r, installed_tool_id),
    {
        let mut base_directory: Vec<u8> = Vec::new();
        base_directory.extend_from_slice(self.compatibility_tools_directory.as_slice());
        assert(base_directory@ == self.compatibility_tools_directory@);
        UninstallStage::LookUp { installed_tool_id, base_directory }
    }
}

/// Can the events follow one another from `stage` on?
pub open spec fn can_follow(stage: UninstallStage, events: Seq<UninstallEvent>) -> bool
    decreases events.len(),
{
    events.len() == 0 || (stage.awaits(events[0]) && can_follow(
        stage.after(events[0]),
        events.drop_first(),
    ))
}

/// The stage that a sequence of events leads to.
pub open spec fn after_events(stage: UninstallStage, events: Seq<UninstallEvent>) -> UninstallStage
    decreases events.len(),
{
    if events.len() == 0 {
        stage
    } else {
        after_events(stage.after(events[0]), events.drop_first())
    }
}

/// Whatever is deleted lies among the compatibility tools: the deletion of a path comes
/// after both paths were resolved, and the one that is deleted is the tool's, which lies within
/// the other.
pub proof fn law_only_tools_are_deleted(start: UninstallStage, events: Seq<UninstallEvent>)
    requires
        start is LookUp,
        can_follow(start, events),
        after_events(start, events) is Delete,
    ensures
        events.len() == 3,
        events[1] matches UninstallEvent::BaseResolved(Ok(base)) && events[2]
            matches UninstallEvent::TargetResolved(Ok(path)) && paths::lies_within(path@, base@)
            && after_events(start, events)->Delete_path == path,
{
    reveal_with_fuel(after_events, 5);
    reveal_with_fuel(can_follow, 5);
    lemma_delete_comes_once(start, events);
}

/// How many events lead from a stage to the deletion, if they do.
pub open spec fn steps_to_delete(stage: UninstallStage) -> Option<nat> {
    match stage {
        UninstallStage::LookUp { .. } => Some(3),
        UninstallStage::ResolveBase { .. } => Some(2),
        UninstallStage::ResolveTarget { .. } => Some(1),
        UninstallStage::Delete { .. } => Some(0),
        _ => None,
    }
}

proof fn lemma_delete_comes_once(stage: UninstallStage, events: Seq<UninstallEvent>)
    requires
        can_follow(stage, events),
        after_events(stage, events) is Delete,
    ensures
        steps_to_delete(stage) == Some(events.len()),
    decreases events.len(),
{
    if events.len() > 0 {
        lemma_delete_comes_once(stage.after(events[0]), events.drop_first());
    }
}

proof fn lemma_stage_at(start: UninstallStage, events: Seq<UninstallEvent>, i: int)
    requires
        can_follow(start, events),
        0 <= i < events.len(),
    ensures
        after_events(start, events.take(i)).awaits(events[i]),
        after_events(start, events.take(i + 1)) == after_events(
            start,
            events.take(i),
        ).after(events[i]),
    decreases i,
{
    let next = start.after(events[0]);
    let rest = events.drop_first();
    if i == 0 {
        assert(after_events(start, events.take(0)) == start);
        assert(events.take(1)[0] == events[0]);
        assert(after_events(next, events.take(1).drop_first()) == next);
    } else {
        lemma_stage_at(next, rest, i - 1);
        assert(rest[i - 1] == events[i]);
        assert(events.take(i)[0] == events[0]);
        assert(events.take(i + 1)[0] == events[0]);
        assert(events.take(i).drop_first() =~= rest.take(i - 1));
        assert(events.take(i + 1).drop_first() =~= rest.take(i));
    }
}

/// The user is told of a removal only if the tool was deleted, and, for a virtual tool,
/// only if its slot was removed too; and the name that they are told is the tool's.
pub proof fn law_removal_is_complete(
    start: UninstallStage,
    events: Seq<UninstallEvent>,
    label: String,
)
    requires
        start is LookUp,
        can_follow(start, events),
        after_events(start, events) == (UninstallStage::Notify {
            notice: UninstallNotice::Removed { label },
        }),
    ensures
        events.len() >= 6,
        events[0] matches UninstallEvent::LookedUp(Some(tool)) && label == shown_name(tool) && (
        slot_of(tool) is Some ==> (events[4] matches UninstallEvent::SlotRemoved(Ok(_)))),
        events[3] matches UninstallEvent::Deleted(Ok(_)),
{
    assert(events.take(events.len() as int) =~= events);
    assert(after_events(start, events.take(0)) == start);
    if events.len() > 0 {
        lemma_stage_at(start, events, 0);
    }
    if events.len() > 1 {
        lemma_stage_at(start, events, 1);
    }
    if events.len() > 2 {
        lemma_stage_at(start, events, 2);
    }
    if events.len() > 3 {
        lemma_stage_at(start, events, 3);
    }
    if events.len() > 4 {
        lemma_stage_at(start, events, 4);
    }
    if events.len() > 5 {
        lemma_stage_at(start, events, 5);
    }
    if events.len() > 6 {
        lemma_stage_at(start, events, 6);
    }
    if events.len() > 7 {
        lemma_stage_at(start, events, 7);
    }
    if events.len() > 8 {
        lemma_stage_at(start, events, 8);
    }
}

/// How often the user was told something.
pub open spec fn notifications(events: Seq<UninstallEvent>) -> nat
    decreases events.len(),
{
    if events.len() == 0 {
        0
    } else {
        notifications(events.drop_first()) + if events[0] is Notified {
            1nat
        } else {
            0nat
        }
    }
}

/// The user is told exactly once how an uninstallation ended.
pub proof fn law_user_is_told_once(start: UninstallStage, events: Seq<UninstallEvent>)
    requires
        start is LookUp,
        can_follow(start, events),
        after_events(start, events) is Finished,
    ensures
        notifications(events) == 1,
{
    lemma_notifications_balance(start, events);
}

proof fn lemma_notifications_balance(stage: UninstallStage, events: Seq<UninstallEvent>)
    requires
        can_follow(stage, events),
        after_events(stage, events) is Finished,
    ensures
        notifications(events) == if stage is Finished {
            0nat
        } else {
            1nat
        },
    decreases events.len(),
{
    if events.len() > 0 {
        lemma_notifications_balance(stage.after(events[0]), events.drop_first());
    }
}

proof fn lemma_last_event(start: UninstallStage, events: Seq<UninstallEvent>)
    requires
        can_follow(start, events),
        events.len() > 0,
    ensures
        can_follow(start, events.drop_last()),
        after_events(start, events.drop_last()).awaits(events.last()),
        after_events(start, events) == after_events(start, events.drop_last()).after(
            events.last(),
        ),
    decreases events.len(),
{
    let next = start.after(events[0]);
    let rest = events.drop_first();
    assert(can_follow(next, rest));
    if events.len() == 1 {
        assert(after_events(next, rest) == next);
        assert(after_events(start, events.drop_last()) == start);
    } else {
        lemma_last_event(next, rest);
        assert(rest.last() == events.last());
        assert(rest.drop_last() =~= events.drop_last().drop_first());
        assert(events.drop_last()[0] == events[0]);
    }
}

/// Uninstalling takes every outcome of its stages, whatever it is, and no other.
pub proof fn law_every_outcome_is_taken(stage: UninstallStage, event: UninstallEvent)
    ensures
        stage.awaits(event) <==> {
            ||| stage is LookUp && event is LookedUp
            ||| stage is ResolveBase && event is BaseResolved
            ||| stage is ResolveTarget && event is TargetResolved
            ||| stage is Delete && event is Deleted
            ||| stage is RemoveSlot && event is SlotRemoved
            ||| stage is SyncState && event is StateSynced
            ||| stage is BroadcastState && event is StateBroadcast
            ||| stage is Notify && event is Notified
        },
{
}

/// The tool that a stage is about.
pub open spec fn tool_of(stage: UninstallStage) -> Option<InstalledTool> {
    match stage {
        UninstallStage::ResolveBase { tool, .. } => Some(tool),
        UninstallStage::ResolveTarget { tool, .. } => Some(tool),
        UninstallStage::Delete { tool, .. } => Some(tool),
        UninstallStage::RemoveSlot { tool, .. } => Some(tool),
        UninstallStage::SyncState { tool } => Some(tool),
        UninstallStage::BroadcastState { tool } => Some(tool),
        _ => None,
    }
}

/// At every point the tool that is uninstalled is the one that was looked up, the directory
/// that is resolved is that of the compatibility tools, and the slot that is removed is that
/// of the tool, which is then a virtual one.
pub proof fn law_tool_that_was_found_is_uninstalled(
    start: UninstallStage,
    events: Seq<UninstallEvent>,
)
    requires
        start is LookUp,
        can_follow(start, events),
    ensures
        ({
            let stage = after_events(start, events);
            &&& tool_of(stage) matches Some(tool) ==> events.len() > 0 && events[0]
                == UninstallEvent::LookedUp(Some(tool))
            &&& stage matches UninstallStage::ResolveBase { base_directory, .. } ==> events.len()
                == 1 && base_directory == start->LookUp_base_directory
            &&& stage matches UninstallStage::ResolveTarget { base, .. } ==> events.len() == 2
                && events[1] == UninstallEvent::BaseResolved(Ok(base))
            &&& stage matches UninstallStage::RemoveSlot { tool, virtual_tool_id } ==> tool.source
                == InstalledToolSource::Virtual && tool.virtual_tool_id == Some(virtual_tool_id)
            &&& stage is LookUp ==> events.len() == 0 && stage == start
        }),
    decreases events.len(),
{
    if events.len() > 0 {
        let prior = events.drop_last();
        lemma_last_event(start, events);
        law_tool_that_was_found_is_uninstalled(start, prior);
        if prior.len() > 0 {
            assert(prior[0] == events[0]);
        }
    }
}

/// What the last outcome leads to: a failure is told and nothing more is done, and anything
/// else leads to the next piece of work, up to the notice that the tool is removed, under the
/// label that the user gave it, or else the name that it is displayed under.
pub proof fn law_uninstalling_goes_on_or_ends(start: UninstallStage, events: Seq<UninstallEvent>)
    requires
        can_follow(start, events),
        events.len() > 0,
    ensures
        ({
            let before = after_events(start, events.drop_last());
            let stage = after_events(start, events);
            match events.last() {
                UninstallEvent::LookedUp(Some(tool)) => stage == (UninstallStage::ResolveBase {
                    tool,
                    base_directory: before->LookUp_base_directory,
                }),
                UninstallEvent::LookedUp(None) => stage == (UninstallStage::Notify {
                    notice: UninstallNotice::NotFound,
                }),
                UninstallEvent::BaseResolved(Ok(base)) => stage is ResolveTarget
                    && stage->ResolveTarget_base == base,
                UninstallEvent::BaseResolved(Err(error)) => stage == (UninstallStage::Notify {
                    notice: UninstallNotice::BaseInaccessible { error },
                }),
                UninstallEvent::TargetResolved(Ok(path)) => if paths::lies_within(
                    path@,
                    before->ResolveTarget_base@,
                ) {
                    stage is Delete && stage->Delete_path == path
                } else {
                    stage == (UninstallStage::Notify { notice: UninstallNotice::OutsideTools })
                },
                UninstallEvent::TargetResolved(Err(error)) => stage == (UninstallStage::Notify {
                    notice: UninstallNotice::PathInaccessible { error },
                }),
                UninstallEvent::Deleted(Ok(_)) => {
                    let tool = tool_of(before)->0;
                    if tool.source == InstalledToolSource::Virtual && tool.virtual_tool_id is Some {
                        stage is RemoveSlot && tool.virtual_tool_id == Some(
                            stage->RemoveSlot_virtual_tool_id,
                        )
                    } else {
                        stage is SyncState
                    }
                },
                UninstallEvent::Deleted(Err(error)) => stage == (UninstallStage::Notify {
                    notice: UninstallNotice::DeletionFailed { error },
                }),
                UninstallEvent::SlotRemoved(Ok(_)) => stage is SyncState,
                UninstallEvent::SlotRemoved(Err(error)) => stage == (UninstallStage::Notify {
                    notice: UninstallNotice::ManifestNotUpdated { error },
                }),
                UninstallEvent::StateSynced => stage is BroadcastState,
                UninstallEvent::StateBroadcast => {
                    let tool = tool_of(before)->0;
                    match tool.user_label {
                        Some(label) => stage == (UninstallStage::Notify {
                            notice: UninstallNotice::Removed { label },
                        }),
                        None => stage == (UninstallStage::Notify {
                            notice: UninstallNotice::Removed { label: tool.display_name },
                        }),
                    }
                },
                UninstallEvent::Notified => stage is Finished,
            }
        }),
        ({
            let before = after_events(start, events.drop_last());
            let stage = after_events(start, events);
            tool_of(before) is Some && tool_of(stage) is Some ==> tool_of(stage) == tool_of(before)
        }),
{
    lemma_last_event(start, events);
}

/// The user is told how it ended, with the whole error or the whole name.
pub proof fn law_notices_say_it_all(said: String)
    ensures
        UninstallNotice::NotFound.text() == "Installed tool not found"@,
        (UninstallNotice::BaseInaccessible { error: said }).text()
            == "Failed to access compatibility tools base directory: "@ + said@,
        (UninstallNotice::PathInaccessible { error: said }).text()
            == "Failed to access uninstall path: "@ + said@,
        UninstallNotice::OutsideTools.text()
            == "Refusing to uninstall path outside compatibilitytools.d"@,
        (UninstallNotice::DeletionFailed { error: said }).text()
            == "Error during uninstallation: "@ + said@,
        (UninstallNotice::ManifestNotUpdated { error: said }).text()
            == "Compatibility tool directory removed but virtual tool manifest update failed: "@
            + said@,
        (UninstallNotice::Removed { label: said }).text() == "Removed "@ + said@,
{
}

/// The tool that is looked up is the one that was asked for, and it is deleted only if its
/// resolved path lies within what the directory of the compatibility tools is resolved to.
pub proof fn law_request_is_followed_to_the_end(
    cask: WineCask,
    installed_tool_id: String,
    start: UninstallStage,
    events: Seq<UninstallEvent>,
)
    requires
        cask.is_uninstallation_of(start, installed_tool_id),
        can_follow(start, events),
    ensures
        start is LookUp && start->LookUp_installed_tool_id == installed_tool_id,
        after_events(start, events) matches UninstallStage::ResolveBase { base_directory, .. }
            ==> base_directory@ == cask.compatibility_tools_directory@,
{
    law_tool_that_was_found_is_uninstalled(start, events);
}

} // verus!
