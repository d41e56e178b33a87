//! Mounting an extracted release into a virtual tool.
use crate::wine_cask;
use crate::wine_cask::app;
use crate::wine_cask::app::WineCask;
use crate::wine_cask::flavors::CatalogRelease;
use crate::wine_cask::outcome::{InstallFailure, InstallSuccess};
use crate::wine_cask::virtual_tools;
use crate::wine_cask::virtual_tools::{VirtualToolConfig, VirtualToolManifest};
use vstd::prelude::*;
use vstd::string::*;

verus! {

/// The slot that a release is mounted into: the id that was asked for, and the tool that
/// has it.
pub struct MountSlot {
    pub virtual_tool_id: String,
    pub tool: VirtualToolConfig,
}

/// What is to be done next to mount an extracted release.
pub enum MountStage {
    /// Load the manifest of virtual tools.
    LoadManifest { virtual_tool_id: String },
    /// Look whether something is at `target`, the tool's directory.
    CheckTarget { slot: MountSlot, target: Vec<u8> },
    /// Delete the tool's directory.
    DeleteTarget { slot: MountSlot, target: Vec<u8> },
    /// Move the extracted directory to the tool's directory.
    Move { slot: MountSlot, from: Vec<u8>, to: Vec<u8> },
    /// Write `text`, the description of the tool, to `file`.
    WriteVdf { slot: MountSlot, file: Vec<u8>, text: String },
    /// Record in the manifest that the release is mounted into the slot that was asked for.
    RecordPayload { slot: MountSlot, release_id: String },
    /// Nothing: the installation has ended.
    Finished { result: Result<InstallSuccess, InstallFailure> },
}

/// What came of a stage.
pub enum MountEvent {
    ManifestLoaded(VirtualToolManifest),
    /// Is something there?
    TargetChecked(bool),
    TargetDeleted(Result<(), String>),
    Moved(Result<(), String>),
    VdfWritten,
    PayloadRecorded(Result<(), String>),
}

/// What is to be done next, in specifications.
pub enum MountView {
    LoadManifest { virtual_tool_id: String },
    CheckTarget { slot: MountSlot, target: Seq<u8> },
    DeleteTarget { slot: MountSlot, target: Seq<u8> },
    Move { slot: MountSlot, from: Seq<u8>, to: Seq<u8> },
    WriteVdf { slot: MountSlot, file: Seq<u8>, text: Seq<char> },
    RecordPayload { slot: MountSlot, release_id: String },
    Finished { result: Result<InstallSuccess, InstallFailure> },
}

impl View for MountStage {
    type V = MountView;

    open spec fn view(&self) -> MountView {
        match self {
            MountStage::LoadManifest { virtual_tool_id } => MountView::LoadManifest {
                virtual_tool_id: *virtual_tool_id,
            },
            MountStage::CheckTarget { slot, target } => MountView::CheckTarget {
                slot: *slot,
                target: target@,
            },
            MountStage::DeleteTarget { slot, target } => MountView::DeleteTarget {
                slot: *slot,
                target: target@,
            },
            MountStage::Move { slot, from, to } => MountView::Move {
                slot: *slot,
                from: from@,
                to: to@,
            },
            MountStage::WriteVdf { slot, file, text } => MountView::WriteVdf {
                slot: *slot,
                file: file@,
                text: text@,
            },
            MountStage::RecordPayload { slot, release_id } => MountView::RecordPayload {
                slot: *slot,
                release_id: *release_id,
            },
            MountStage::Finished { result } => MountView::Finished { result: *result },
        }
    }
}

/// The end of an installation that failed.
pub open spec fn failed(failure: InstallFailure) -> MountView {
    MountView::Finished { result: Err(failure) }
}

/// The stage that mounts what was extracted to `extracted`.
pub open spec fn moving(slot: MountSlot, extracted: Seq<u8>, target: Seq<u8>) -> MountView {
    MountView::Move { slot, from: extracted, to: target }
}

impl MountView {
    /// Is the event an outcome of this stage?
    pub open spec fn awaits(self, event: MountEvent) -> bool {
        match self {
            MountView::LoadManifest { .. } => event is ManifestLoaded,
            MountView::CheckTarget { .. } => event is TargetChecked,
            MountView::DeleteTarget { .. } => event is TargetDeleted,
            MountView::Move { .. } => event is Moved,
            MountView::WriteVdf { .. } => event is VdfWritten,
            MountView::RecordPayload { .. } => event is PayloadRecorded,
            MountView::Finished { .. } => false,
        }
    }

    /// The stage that an event leads to.
    pub open spec fn after(
        self,
        cask: WineCask,
        extracted: Seq<u8>,
        release: CatalogRelease,
        event: MountEvent,
    ) -> MountView {
        match (self, event) {
            (
                MountView::LoadManifest { virtual_tool_id },
                MountEvent::ManifestLoaded(manifest),
            ) => match virtual_tools::slot_position(manifest@.tools, virtual_tool_id@) {
                Some(i) => MountView::CheckTarget {
                    slot: MountSlot { virtual_tool_id, tool: manifest.tools@[i] },
                    target: cask.tool_path(manifest.tools@[i].directory_name@),
                },
                None => failed(InstallFailure::SlotGone),
            },
            (MountView::CheckTarget { slot, target }, MountEvent::TargetChecked(existing)) =>
                if existing {
                    MountView::DeleteTarget { slot, target }
                } else {
                    moving(slot, extracted, target)
                },
            (MountView::DeleteTarget { slot, target }, MountEvent::TargetDeleted(outcome)) =>
                match outcome {
                    Ok(_) => moving(slot, extracted, target),
                    Err(error) => failed(InstallFailure::ReplaceContents { error }),
                },
            (MountView::Move { slot, from, to }, MountEvent::Moved(outcome)) => match outcome {
                Ok(_) => MountView::WriteVdf {
                    slot,
                    file: app::vdf_path(to),
                    text: wine_cask::vdf_text(
                        slot.tool.steam_internal_name@,
                        slot.tool.user_label@,
                    ),
                },
                Err(error) => failed(InstallFailure::MoveContents { error }),
            },
            (MountView::WriteVdf { slot, .. }, _) => MountView::RecordPayload {
                slot,
                release_id: release.id,
            },
            (MountView::RecordPayload { slot, .. }, MountEvent::PayloadRecorded(outcome)) =>
                match outcome {
                    Ok(_) => MountView::Finished {
                        result: Ok(
                            InstallSuccess::Mounted {
                                tag_name: release.release.tag_name,
                                user_label: slot.tool.user_label,
                            },
                        ),
                    },
                    Err(error) => failed(InstallFailure::RecordPayload { error }),
                },
            _ => self,
        }
    }
}

/// Ends an installation that failed.
fn fail(failure: InstallFailure) -> (r: MountStage)
    ensures
        r@ == failed(failure),
{
    MountStage::Finished { result: Err(failure) }
}

/// Goes on to mount what was extracted.
fn proceed(slot: MountSlot, extracted_directory: &[u8], target: Vec<u8>) -> (r: MountStage)
    ensures
        r@ == moving(slot, extracted_directory@, target@),
{
    let mut from: Vec<u8> = Vec::new();
    from.extend_from_slice(extracted_directory);
    assert(from@ == extracted_directory@);
    MountStage::Move { slot, from, to: target }
}

impl MountStage {
    /// Is the event an outcome of this stage?
    pub fn expects(&self, event: &MountEvent) -> (r: bool)
        ensures
            r == self@.awaits(*event),
    {
        match (self, event) {
            (MountStage::LoadManifest { .. }, MountEvent::ManifestLoaded(_)) => true,
            (MountStage::CheckTarget { .. }, MountEvent::TargetChecked(_)) => true,
            (MountStage::DeleteTarget { .. }, MountEvent::TargetDeleted(_)) => true,
            (MountStage::Move { .. }, MountEvent::Moved(_)) => true,
            (MountStage::WriteVdf { .. }, MountEvent::VdfWritten) => true,
            (MountStage::RecordPayload { .. }, MountEvent::PayloadRecorded(_)) => true,
            _ => false,
        }
    }

    /// Takes the outcome of this stage in the installation of `release`, which was extracted
    /// to `extracted_directory`.
    pub fn advance(
        self,
        cask: &WineCask,
        extracted_directory: &[u8],
        release: &CatalogRelease,
        event: MountEvent,
    ) -> (r: MountStage)
        requires
            self@.awaits(event),
        ensures
            r@ == self@.after(*cask, extracted_directory@, *release, event),
    {
        match (self, event) {
            (
                MountStage::LoadManifest { virtual_tool_id },
                MountEvent::ManifestLoaded(manifest),
            ) => match manifest.position(virtual_tool_id.as_str()) {
                Some(position) => {
                    proof {
                        virtual_tools::law_slot_position_is_first(
                            manifest@.tools,
                            virtual_tool_id@,
                        );
                    }
                    let mut tools = manifest.tools;
                    let tool = tools.remove(position);
                    let target = cask.tool_directory(tool.directory_name.as_str());
                    MountStage::CheckTarget { slot: MountSlot { virtual_tool_id, tool }, target }
                },
                None => fail(InstallFailure::SlotGone),
            },
            (MountStage::CheckTarget { slot, target }, MountEvent::TargetChecked(existing)) =>
                if existing {
                    MountStage::DeleteTarget { slot, target }
                } else {
                    proceed(slot, extracted_directory, target)
                },
            (MountStage::DeleteTarget { slot, target }, MountEvent::TargetDeleted(outcome)) =>
                match outcome {
                    Ok(_) => proceed(slot, extracted_directory, target),
                    Err(error) => fail(InstallFailure::ReplaceContents { error }),
                },
            (MountStage::Move { slot, from: _, to }, MountEvent::Moved(outcome)) => match outcome {
                Ok(_) => {
                    let text = wine_cask::generate_compatibility_tool_vdf(
                        slot.tool.steam_internal_name.as_str(),
                        slot.tool.user_label.as_str(),
                    );
                    MountStage::WriteVdf { slot, file: app::vdf_file(to.as_slice()), text }
                },
                Err(error) => fail(InstallFailure::MoveContents { error }),
            },
            (MountStage::WriteVdf { slot, .. }, _) => MountStage::RecordPayload {
                slot,
                release_id: release.id.clone(),
            },
            (MountStage::RecordPayload { slot, .. }, MountEvent::PayloadRecorded(outcome)) =>
                match outcome {
                    Ok(_) => MountStage::Finished {
                        result: Ok(
                            InstallSuccess::Mounted {
                                tag_name: release.release.tag_name.clone(),
                                user_label: slot.tool.user_label,
                            },
                        ),
                    },
                    Err(error) => fail(InstallFailure::RecordPayload { error }),
                },
            (stage, _) => stage,
        }
    }
}

/// Is `stage` the first stage of mounting a release into the virtual tool with the given id?
pub open spec fn is_mount_into(stage: MountView, virtual_tool_id: String) -> bool {
    stage matches MountView::LoadManifest { virtual_tool_id: id } && id == virtual_tool_id
}

/// Starts to mount an extracted release into the virtual tool with the given id.
pub fn install_virtual_tool(virtual_tool_id: String) -> (r: MountStage)
    ensures
        r == (MountStage::LoadManifest { virtual_tool_id }),
        is_mount_into(r@, virtual_tool_id),
{
    MountStage::LoadManifest { virtual_tool_id }
}

/// Can the events follow one another from `stage` on?
pub open spec fn can_follow(
    stage: MountView,
    cask: WineCask,
    extracted: Seq<u8>,
    release: CatalogRelease,
    events: Seq<MountEvent>,
) -> bool
    decreases events.len(),
{
    events.len() == 0 || (stage.awaits(events[0]) && can_follow(
        stage.after(cask, extracted, release, events[0]),
        cask,
        extracted,
        release,
        events.drop_first(),
    ))
}

/// The stage that a sequence of events leads to.
pub open spec fn after_events(
    stage: MountView,
    cask: WineCask,
    extracted: Seq<u8>,
    release: CatalogRelease,
    events: Seq<MountEvent>,
) -> MountView
    decreases events.len(),
{
    if events.len() == 0 {
        stage
    } else {
        after_events(
            stage.after(cask, extracted, release, events[0]),
            cask,
            extracted,
            release,
            events.drop_first(),
        )
    }
}

/// The slot that a stage is about.
pub open spec fn slot_of(stage: MountView) -> Option<MountSlot> {
    match stage {
        MountView::CheckTarget { slot, .. } => Some(slot),
        MountView::DeleteTarget { slot, .. } => Some(slot),
        MountView::Move { slot, .. } => Some(slot),
        MountView::WriteVdf { slot, .. } => Some(slot),
        MountView::RecordPayload { slot, .. } => Some(slot),
        _ => None,
    }
}

/// A release is reported as mounted into the tool that has the id in the manifest that was
/// loaded, under that tool's label, and only once the manifest says so too.
pub proof fn law_mounted_is_recorded(
    virtual_tool_id: String,
    cask: WineCask,
    extracted: Seq<u8>,
    release: CatalogRelease,
    events: Seq<MountEvent>,
)
    requires
        can_follow(MountView::LoadManifest { virtual_tool_id }, cask, extracted, release, events),
        after_events(
            MountView::LoadManifest { virtual_tool_id },
            cask,
            extracted,
            release,
            events,
        ) matches MountView::Finished { result: Ok(_) },
    ensures
        events.len() > 1,
        events.last() == MountEvent::PayloadRecorded(Ok(())),
        events[0] matches MountEvent::ManifestLoaded(manifest) && virtual_tools::slot_position(
            manifest@.tools,
            virtual_tool_id@,
        ) matches Some(i) && after_events(
            MountView::LoadManifest { virtual_tool_id },
            cask,
            extracted,
            release,
            events,
        ) == (MountView::Finished {
            result: Ok::<InstallSuccess, InstallFailure>(
                InstallSuccess::Mounted {
                    tag_name: release.release.tag_name,
                    user_label: manifest.tools@[i].user_label,
                },
            ),
        }),
{
    let start = MountView::LoadManifest { virtual_tool_id };
    let next = start.after(cask, extracted, release, events[0]);
    let rest = events.drop_first();
    assert(can_follow(next, cask, extracted, release, rest));
    if next is Finished {
        if rest.len() > 0 {
            assert(next.awaits(rest[0]));
        }
        assert(after_events(next, cask, extracted, release, rest) == next);
    } else {
        lemma_mounted_is_recorded(next, cask, extracted, release, rest);
        assert(rest.last() == events.last());
    }
}

proof fn lemma_mounted_is_recorded(
    stage: MountView,
    cask: WineCask,
    extracted: Seq<u8>,
    release: CatalogRelease,
    events: Seq<MountEvent>,
)
    requires
        can_follow(stage, cask, extracted, release, events),
        slot_of(stage) is Some,
        after_events(stage, cask, extracted, release, events) matches MountView::Finished {
            result: Ok(_),
        },
    ensures
        events.len() > 0,
        events.last() == MountEvent::PayloadRecorded(Ok(())),
        after_events(stage, cask, extracted, release, events) == (MountView::Finished {
            result: Ok::<InstallSuccess, InstallFailure>(
                InstallSuccess::Mounted {
                    tag_name: release.release.tag_name,
                    user_label: slot_of(stage)->0.tool.user_label,
                },
            ),
        }),
    decreases events.len(),
{
    let next = stage.after(cask, extracted, release, events[0]);
    let rest = events.drop_first();
    assert(can_follow(next, cask, extracted, release, rest));
    if next is Finished {
        if rest.len() > 0 {
            assert(next.awaits(rest[0]));
        }
        assert(after_events(next, cask, extracted, release, rest) == next);
        assert(events.last() == events[0]);
        assert(stage is RecordPayload);
        assert(events[0]->PayloadRecorded_0 is Ok);
        assert(events[0]->PayloadRecorded_0->Ok_0 == ());
    } else {
        lemma_mounted_is_recorded(next, cask, extracted, release, rest);
        assert(rest.last() == events.last());
    }
}

/// Does the stage touch the directory of its slot, the extracted directory and nothing
/// else?
pub open spec fn is_in_place(stage: MountView, cask: WineCask, extracted: Seq<u8>) -> bool {
    match stage {
        MountView::CheckTarget { slot, target } => target == slot_path(slot, cask),
        MountView::DeleteTarget { slot, target } => target == slot_path(slot, cask),
        MountView::Move { slot, from, to } => from == extracted && to == slot_path(slot, cask),
        MountView::WriteVdf { slot, file, text } => file == app::vdf_path(slot_path(slot, cask))
            && text == wine_cask::vdf_text(
            slot.tool.steam_internal_name@,
            slot.tool.user_label@,
        ),
        _ => true,
    }
}

/// The directory of a slot.
pub open spec fn slot_path(slot: MountSlot, cask: WineCask) -> Seq<u8> {
    cask.tool_path(slot.tool.directory_name@)
}

/// Mounting replaces the directory of the tool that was asked for, by the one that was
/// extracted, and describes it under the tool's own names: no other directory is
/// deleted, moved or written to.
pub proof fn law_only_the_slot_is_replaced(
    virtual_tool_id: String,
    cask: WineCask,
    extracted: Seq<u8>,
    release: CatalogRelease,
    events: Seq<MountEvent>,
)
    requires
        can_follow(
            MountView::LoadManifest { virtual_tool_id },
            cask,
            extracted,
            release,
            events,
        ),
    ensures
        ({
            let stage = after_events(
                MountView::LoadManifest { virtual_tool_id },
                cask,
                extracted,
                release,
                events,
            );
            &&& is_in_place(stage, cask, extracted)
            &&& slot_of(stage) is Some ==> slot_of(stage)->0.tool.id@ == virtual_tool_id@
        }),
{
    lemma_stays_in_place(
        MountView::LoadManifest { virtual_tool_id },
        virtual_tool_id,
        cask,
        extracted,
        release,
        events,
    );
}

/// Is the stage about the tool with the given id?
spec fn is_about(stage: MountView, virtual_tool_id: String) -> bool {
    match stage {
        MountView::LoadManifest { virtual_tool_id: id } => id == virtual_tool_id,
        _ => slot_of(stage) is Some ==> slot_of(stage)->0.tool.id@ == virtual_tool_id@,
    }
}

proof fn lemma_stays_in_place(
    stage: MountView,
    virtual_tool_id: String,
    cask: WineCask,
    extracted: Seq<u8>,
    release: CatalogRelease,
    events: Seq<MountEvent>,
)
    requires
        can_follow(stage, cask, extracted, release, events),
        is_in_place(stage, cask, extracted),
        is_about(stage, virtual_tool_id),
    ensures
        is_in_place(after_events(stage, cask, extracted, release, events), cask, extracted),
        is_about(after_events(stage, cask, extracted, release, events), virtual_tool_id),
    decreases events.len(),
{
    if events.len() > 0 {
        if let MountEvent::ManifestLoaded(manifest) = events[0] {
            virtual_tools::law_slot_position_is_first(manifest@.tools, virtual_tool_id@);
        }
        lemma_stays_in_place(
            stage.after(cask, extracted, release, events[0]),
            virtual_tool_id,
            cask,
            extracted,
            release,
            events.drop_first(),
        );
    }
}

proof fn lemma_last_event(
    start: MountView,
    cask: WineCask,
    extracted: Seq<u8>,
    release: CatalogRelease,
    events: Seq<MountEvent>,
)
    requires
        can_follow(start, cask, extracted, release, events),
        events.len() > 0,
    ensures
        can_follow(start, cask, extracted, release, events.drop_last()),
        after_events(start, cask, extracted, release, events.drop_last()).awaits(events.last()),
        after_events(start, cask, extracted, release, events) == after_events(
            start,
            cask,
            extracted,
            release,
            events.drop_last(),
        ).after(cask, extracted, release, events.last()),
    decreases events.len(),
{
    let next = start.after(cask, extracted, release, events[0]);
    let rest = events.drop_first();
    assert(can_follow(next, cask, extracted, release, rest));
    if events.len() == 1 {
        assert(after_events(next, cask, extracted, release, rest) == next);
        assert(after_events(start, cask, extracted, release, events.drop_last()) == start);
    } else {
        lemma_last_event(next, cask, extracted, release, rest);
        assert(rest.last() == events.last());
        assert(rest.drop_last() =~= events.drop_last().drop_first());
        assert(events.drop_last()[0] == events[0]);
    }
}

/// Mounting takes every outcome of its stages, whatever it is, and no other.
pub proof fn law_every_outcome_is_taken(stage: MountView, event: MountEvent)
    ensures
        stage.awaits(event) <==> {
            ||| stage is LoadManifest && event is ManifestLoaded
            ||| stage is CheckTarget && event is TargetChecked
            ||| stage is DeleteTarget && event is TargetDeleted
            ||| stage is Move && event is Moved
            ||| stage is WriteVdf && event is VdfWritten
            ||| stage is RecordPayload && event is PayloadRecorded
        },
{
}

/// Is `tool` the first of the tools that has the id?
pub open spec fn is_first_with_id(
    tools: Seq<VirtualToolConfig>,
    tool: VirtualToolConfig,
    virtual_tool_id: Seq<char>,
) -> bool {
    exists|i: int|
        0 <= i < tools.len() && #[trigger] tools[i] == tool && tool.id@ == virtual_tool_id && (
        forall|j: int| 0 <= j < i ==> (#[trigger] tools[j]).id@ != virtual_tool_id)
}

/// In every run of a mount, whatever the slot held before, what is recorded is the release
/// that is mounted, for the id that was asked for; the slot is the first tool of the
/// manifest that has that id, as the manifest has it.
pub proof fn law_mounted_release_is_the_one_recorded(
    virtual_tool_id: String,
    cask: WineCask,
    extracted: Seq<u8>,
    release: CatalogRelease,
    events: Seq<MountEvent>,
)
    requires
        can_follow(MountView::LoadManifest { virtual_tool_id }, cask, extracted, release, events),
    ensures
        ({
            let stage = after_events(
                MountView::LoadManifest { virtual_tool_id },
                cask,
                extracted,
                release,
                events,
            );
            &&& stage matches MountView::RecordPayload { slot, release_id } ==> release_id
                == release.id && slot.virtual_tool_id == virtual_tool_id
            &&& slot_of(stage) matches Some(slot) ==> {
                &&& slot.virtual_tool_id == virtual_tool_id
                &&& events.len() > 0
                &&& events[0] matches MountEvent::ManifestLoaded(manifest) && is_first_with_id(
                    manifest.tools@,
                    slot.tool,
                    virtual_tool_id@,
                )
            }
            &&& stage is LoadManifest ==> events.len() == 0 && stage == (MountView::LoadManifest {
                virtual_tool_id,
            })
        }),
    decreases events.len(),
{
    if events.len() > 0 {
        let start = MountView::LoadManifest { virtual_tool_id };
        let prior = events.drop_last();
        lemma_last_event(start, cask, extracted, release, events);
        law_mounted_release_is_the_one_recorded(
            virtual_tool_id,
            cask,
            extracted,
            release,
            prior,
        );
        if prior.len() > 0 {
            assert(prior[0] == events[0]);
        } else if let MountEvent::ManifestLoaded(manifest) = events[0] {
            virtual_tools::law_slot_position_is_first(manifest@.tools, virtual_tool_id@);
            if let Some(i) = virtual_tools::slot_position(manifest@.tools, virtual_tool_id@) {
                let tools = manifest.tools@;
                assert forall|j: int| 0 <= j < tools.len() implies (#[trigger] tools[j]).id@
                    == manifest@.tools[j].id by {}
                assert(tools[i].id@ == virtual_tool_id@);
                assert(is_first_with_id(tools, tools[i], virtual_tool_id@));
            }
        }
    }
}

/// A mount that is reported as done has recorded, as the last thing, the id of the release
/// that was moved into place, for the id that was asked for.
pub proof fn law_done_means_the_release_was_recorded(
    virtual_tool_id: String,
    cask: WineCask,
    extracted: Seq<u8>,
    release: CatalogRelease,
    events: Seq<MountEvent>,
)
    requires
        can_follow(MountView::LoadManifest { virtual_tool_id }, cask, extracted, release, events),
        after_events(
            MountView::LoadManifest { virtual_tool_id },
            cask,
            extracted,
            release,
            events,
        ) matches MountView::Finished { result: Ok(_) },
    ensures
        events.len() > 0,
        after_events(
            MountView::LoadManifest { virtual_tool_id },
            cask,
            extracted,
            release,
            events.drop_last(),
        ) matches MountView::RecordPayload { slot, release_id } && release_id == release.id
            && slot.virtual_tool_id == virtual_tool_id,
{
    let start = MountView::LoadManifest { virtual_tool_id };
    law_mounted_is_recorded(virtual_tool_id, cask, extracted, release, events);
    lemma_last_event(start, cask, extracted, release, events);
    law_mounted_release_is_the_one_recorded(
        virtual_tool_id,
        cask,
        extracted,
        release,
        events.drop_last(),
    );
}

/// What the last outcome of a mount leads to: a failure ends it with that failure, and
/// anything else leads to the next piece of work, up to the success.
pub proof fn law_mount_goes_on_or_ends(
    start: MountView,
    cask: WineCask,
    extracted: Seq<u8>,
    release: CatalogRelease,
    events: Seq<MountEvent>,
)
    requires
        can_follow(start, cask, extracted, release, events),
        events.len() > 0,
    ensures
        ({
            let before = after_events(start, cask, extracted, release, events.drop_last());
            let stage = after_events(start, cask, extracted, release, events);
            match events.last() {
                MountEvent::ManifestLoaded(manifest) => if exists|j: int|
                    0 <= j < manifest.tools@.len() && (#[trigger] manifest.tools@[j]).id@
                        == before->LoadManifest_virtual_tool_id@ {
                    stage matches MountView::CheckTarget { slot, target } && slot.virtual_tool_id
                        == before->LoadManifest_virtual_tool_id && is_first_with_id(
                        manifest.tools@,
                        slot.tool,
                        slot.virtual_tool_id@,
                    ) && target == slot_path(slot, cask)
                } else {
                    stage == (MountView::Finished { result: Err(InstallFailure::SlotGone) })
                },
                MountEvent::TargetChecked(true) => stage is DeleteTarget
                    && stage->DeleteTarget_target == before->CheckTarget_target,
                MountEvent::TargetChecked(false) => stage is Move && stage->from == extracted
                    && stage->to == before->CheckTarget_target,
                MountEvent::TargetDeleted(Ok(_)) => stage is Move && stage->from == extracted
                    && stage->to == before->DeleteTarget_target,
                MountEvent::TargetDeleted(Err(error)) => stage == (MountView::Finished {
                    result: Err(InstallFailure::ReplaceContents { error }),
                }),
                MountEvent::Moved(Ok(_)) => stage is WriteVdf && stage->file == app::vdf_path(
                    before->to,
                ) && stage->text == wine_cask::vdf_text(
                    slot_of(before)->0.tool.steam_internal_name@,
                    slot_of(before)->0.tool.user_label@,
                ),
                MountEvent::Moved(Err(error)) => stage == (MountView::Finished {
                    result: Err(InstallFailure::MoveContents { error }),
                }),
                MountEvent::VdfWritten => stage is RecordPayload && stage->release_id == release.id,
                MountEvent::PayloadRecorded(Ok(_)) => stage == (MountView::Finished {
                    result: Ok(
                        InstallSuccess::Mounted {
                            tag_name: release.release.tag_name,
                            user_label: slot_of(before)->0.tool.user_label,
                        },
                    ),
                }),
                MountEvent::PayloadRecorded(Err(error)) => stage == (MountView::Finished {
                    result: Err(InstallFailure::RecordPayload { error }),
                }),
            }
        }),
        ({
            let before = after_events(start, cask, extracted, release, events.drop_last());
            let stage = after_events(start, cask, extracted, release, events);
            slot_of(before) is Some && slot_of(stage) is Some ==> slot_of(stage) == slot_of(before)
        }),
{
    lemma_last_event(start, cask, extracted, release, events);
    let before = after_events(start, cask, extracted, release, events.drop_last());
    if let MountEvent::ManifestLoaded(manifest) = events.last() {
        let id = before->LoadManifest_virtual_tool_id@;
        virtual_tools::law_slot_position_is_first(manifest@.tools, id);
        let tools = manifest.tools@;
        assert forall|j: int| 0 <= j < tools.len() implies (#[trigger] tools[j]).id@
            == manifest@.tools[j].id by {}
        if let Some(i) = virtual_tools::slot_position(manifest@.tools, id) {
            assert(is_first_with_id(tools, tools[i], id));
        }
    }
}

/// In specifications a stage has the slot, the paths and the texts that it has.
pub proof fn law_stage_is_seen_as_it_is(stage: MountStage)
    ensures
        match stage {
            MountStage::LoadManifest { virtual_tool_id } => stage@ == (MountView::LoadManifest {
                virtual_tool_id,
            }),
            MountStage::CheckTarget { slot, target } => stage@ == (MountView::CheckTarget {
                slot,
                target: target@,
            }),
            MountStage::DeleteTarget { slot, target } => stage@ == (MountView::DeleteTarget {
                slot,
                target: target@,
            }),
            MountStage::Move { slot, from, to } => stage@ == (MountView::Move {
                slot,
                from: from@,
                to: to@,
            }),
            MountStage::WriteVdf { slot, file, text } => stage@ == (MountView::WriteVdf {
                slot,
                file: file@,
                text: text@,
            }),
            MountStage::RecordPayload { slot, release_id } => stage@ == (
            MountView::RecordPayload { slot, release_id }),
            MountStage::Finished { result } => stage@ == (MountView::Finished { result }),
        },
{
}

/// From the first stage on, what is deleted, moved and described is the directory of the tool
/// with the id that was asked for, and what is recorded is that release for that id.
pub proof fn law_request_is_followed_to_the_end(
    virtual_tool_id: String,
    start: MountView,
    cask: WineCask,
    extracted: Seq<u8>,
    release: CatalogRelease,
    events: Seq<MountEvent>,
)
    requires
        is_mount_into(start, virtual_tool_id),
        can_follow(start, cask, extracted, release, events),
    ensures
        ({
            let stage = after_events(start, cask, extracted, release, events);
            &&& slot_of(stage) matches Some(slot) ==> slot.virtual_tool_id == virtual_tool_id
                && slot.tool.id@ == virtual_tool_id@
            &&& stage matches MountView::DeleteTarget { slot, target } ==> target
                == cask.tool_path(slot.tool.directory_name@)
            &&& stage matches MountView::Move { slot, from, to } ==> from == extracted && to
                == cask.tool_path(slot.tool.directory_name@)
            &&& stage matches MountView::WriteVdf { slot, file, text } ==> file
                == app::vdf_path(cask.tool_path(slot.tool.directory_name@)) && text
                == wine_cask::vdf_text(slot.tool.steam_internal_name@, slot.tool.user_label@)
            &&& stage matches MountView::RecordPayload { release_id, .. } ==> release_id
                == release.id
        }),
{
    law_mounted_release_is_the_one_recorded(virtual_tool_id, cask, extracted, release, events);
    law_only_the_slot_is_replaced(virtual_tool_id, cask, extracted, release, events);
}

} // verus!
