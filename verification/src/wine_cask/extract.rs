//! Extracting a downloaded archive and installing what is in it.
use crate::wine_cask::app::{InstallTarget, OperationState};
use crate::wine_cask::archive::CompressionType;
use crate::wine_cask::install::InstallJob;
use crate::wine_cask::outcome::{InstallFailure, InstallSuccess, UnpackFailure};
use crate::wine_cask::unpack;
use crate::wine_cask::unpack::UnpackStage;
use vstd::prelude::*;
use vstd::string::*;

verus! {

/// What is to be done next to install a downloaded archive.
#[derive(Debug)]
pub enum ExtractStage {
    /// Look whether the operation is being cancelled, before the archive is unpacked.
    CheckBeforeUnpacking {
        compression_type: CompressionType,
        temp_directory: Vec<u8>,
        archive_file: Vec<u8>,
    },
    /// Report what the operation does now, see `reported`.
    Report {
        state: OperationState,
        progress: u8,
        compression_type: CompressionType,
        temp_directory: Vec<u8>,
        archive_file: Vec<u8>,
    },
    /// Unpack the archive into the temporary directory, see `unpacking`.
    Unpack {
        compression_type: CompressionType,
        temp_directory: Vec<u8>,
        archive_file: Vec<u8>,
    },
    /// Delete the archive.
    DeleteArchive { temp_directory: Vec<u8>, archive_file: Vec<u8> },
    /// Look whether the operation is being cancelled, now that the archive is unpacked.
    CheckAfterUnpacking { temp_directory: Vec<u8> },
    /// List what was extracted.
    ListDirectory { temp_directory: Vec<u8> },
    /// Look whether the operation is being cancelled, before the directory is installed.
    CheckBeforeInstalling { extracted_directory: Vec<u8> },
    /// Install the directory as a tool of its own.
    InstallDirect { extracted_directory: Vec<u8> },
    /// Mount the directory into a virtual tool.
    InstallVirtual { extracted_directory: Vec<u8>, virtual_tool_id: String },
    /// Nothing: the installation has ended.
    Finished { result: Result<InstallSuccess, InstallFailure> },
}

/// What is known of an entry of the directory that was extracted to.
#[derive(Debug)]
pub enum ExtractedEntry {
    /// The entry could not be read.
    Unreadable,
    /// The entry at this path. Whether it is a directory is unknown if its metadata could
    /// not be read; `has_vdf` is whether it contains the description of a tool.
    Readable { path: Vec<u8>, is_directory: Option<bool>, has_vdf: bool },
}

/// What came of unpacking the archive.
#[derive(Debug)]
pub enum UnpackOutcome {
    /// The task that unpacks the archive did not end.
    TaskFailed(String),
    /// The task ended with this result.
    Ended(Result<(), UnpackFailure>),
}

/// What came of a stage.
#[derive(Debug)]
pub enum ExtractEvent {
    /// Is the operation being cancelled?
    CancelChecked(bool),
    Reported,
    Unpacked(UnpackOutcome),
    ArchiveDeleted(Result<(), String>),
    Listed(Result<Vec<ExtractedEntry>, String>),
    Installed(Result<InstallSuccess, InstallFailure>),
}

/// Is the entry a directory with a compatibility tool?
pub open spec fn is_tool(entry: ExtractedEntry) -> bool {
    entry matches ExtractedEntry::Readable { path, is_directory, has_vdf } && is_directory == Some(
        true,
    ) && has_vdf
}

/// Where the first directory with a compatibility tool stands.
pub open spec fn tool_position(entries: Seq<ExtractedEntry>) -> Option<int>
    decreases entries.len(),
{
    if entries.len() == 0 {
        None
    } else if is_tool(entries[0]) {
        Some(0)
    } else {
        match tool_position(entries.drop_first()) {
            Some(i) => Some(i + 1),
            None => None,
        }
    }
}

/// The position that is found is that of the first directory with a tool; none is
/// found exactly when there is no such directory.
pub proof fn law_tool_position_is_first(entries: Seq<ExtractedEntry>)
    ensures
        match tool_position(entries) {
            Some(i) => {
                &&& 0 <= i < entries.len()
                &&& is_tool(entries[i])
                &&& forall|j: int| 0 <= j < i ==> !is_tool(#[trigger] entries[j])
            },
            None => forall|j: int| 0 <= j < entries.len() ==> !is_tool(#[trigger] entries[j]),
        },
    decreases entries.len(),
{
    if entries.len() > 0 && !is_tool(entries[0]) {
        let rest = entries.drop_first();
        law_tool_position_is_first(rest);
        assert forall|j: int| 0 < j < entries.len() implies #[trigger] entries[j] == rest[
            j - 1
        ] by {}
    }
}

proof fn lemma_tool_position_unique(entries: Seq<ExtractedEntry>, i: int)
    requires
        0 <= i < entries.len(),
        is_tool(entries[i]),
        forall|j: int| 0 <= j < i ==> !is_tool(#[trigger] entries[j]),
    ensures
        tool_position(entries) == Some(i),
{
    law_tool_position_is_first(entries);
}

/// The first directory with a compatibility tool.
pub open spec fn extracted_tool(entries: Seq<ExtractedEntry>) -> Option<Vec<u8>> {
    match tool_position(entries) {
        Some(i) => Some(entries[i]->path),
        None => None,
    }
}

/// The first directory with a compatibility tool.
pub fn find_extracted_tool(entries: Vec<ExtractedEntry>) -> (r: Option<Vec<u8>>)
    ensures
        r == extracted_tool(entries@),
{
    let ghost all = entries@;
    let mut list = entries;
    let mut i: usize = 0;
    while i < list.len()
        invariant
            i <= list.len(),
            list@ == all,
            entries@ == all,
            forall|j: int| 0 <= j < i ==> !is_tool(#[trigger] all[j]),
        decreases list.len() - i,
    {
        let found: bool = match &list[i] {
            ExtractedEntry::Readable { path: _, is_directory: Some(true), has_vdf: true } => true,
            _ => false,
        };
        assert(found == is_tool(all[i as int]));
        if found {
            proof {
                lemma_tool_position_unique(all, i as int);
            }
            return match list.remove(i) {
                ExtractedEntry::Readable { path, .. } => Some(path),
                ExtractedEntry::Unreadable => None,
            };
        }
        i = i + 1;
    }
    proof {
        law_tool_position_is_first(all);
    }
    None
}

impl ExtractStage {
    /// Is the event an outcome of this stage?
    pub open spec fn awaits(self, event: ExtractEvent) -> bool {
        match self {
            ExtractStage::CheckBeforeUnpacking { .. } => event is CancelChecked,
            ExtractStage::Report { .. } => event is Reported,
            ExtractStage::Unpack { .. } => event is Unpacked,
            ExtractStage::DeleteArchive { .. } => event is ArchiveDeleted,
            ExtractStage::CheckAfterUnpacking { .. } => event is CancelChecked,
            ExtractStage::ListDirectory { .. } => event is Listed,
            ExtractStage::CheckBeforeInstalling { .. } => event is CancelChecked,
            ExtractStage::InstallDirect { .. } => event is Installed,
            ExtractStage::InstallVirtual { .. } => event is Installed,
            ExtractStage::Finished { .. } => false,
        }
    }

    /// The stage that an event leads to.
    pub open spec fn after(self, target: InstallTarget, event: ExtractEvent) -> ExtractStage {
        match (self, event) {
            (_, ExtractEvent::CancelChecked(true)) => failed(InstallFailure::Cancelled),
            (
                ExtractStage::CheckBeforeUnpacking { compression_type, temp_directory, archive_file },
                _,
            ) => ExtractStage::Report {
                state: OperationState::Extracting,
                progress: 0,
                compression_type,
                temp_directory,
                archive_file,
            },
            (ExtractStage::Report { compression_type, temp_directory, archive_file, .. }, _) =>
                ExtractStage::Unpack { compression_type, temp_directory, archive_file },
            (
                ExtractStage::Unpack { temp_directory, archive_file, .. },
                ExtractEvent::Unpacked(outcome),
            ) => match outcome {
                UnpackOutcome::TaskFailed(error) => failed(InstallFailure::ExtractionTask { error }),
                UnpackOutcome::Ended(Err(failure)) => failed(InstallFailure::Unpack { failure }),
                UnpackOutcome::Ended(Ok(_)) => ExtractStage::DeleteArchive {
                    temp_directory,
                    archive_file,
                },
            },
            (ExtractStage::DeleteArchive { temp_directory, .. }, _) =>
                ExtractStage::CheckAfterUnpacking { temp_directory },
            (ExtractStage::CheckAfterUnpacking { temp_directory }, _) =>
                ExtractStage::ListDirectory { temp_directory },
            (_, ExtractEvent::Listed(outcome)) => match outcome {
                Err(error) => failed(InstallFailure::ReadDirectory { error }),
                Ok(entries) => match extracted_tool(entries@) {
                    Some(extracted_directory) => ExtractStage::CheckBeforeInstalling {
                        extracted_directory,
                    },
                    None => failed(InstallFailure::NoToolFound),
                },
            },
            (ExtractStage::CheckBeforeInstalling { extracted_directory }, _) => match target {
                InstallTarget::Direct => ExtractStage::InstallDirect { extracted_directory },
                InstallTarget::VirtualTool { virtual_tool_id } => ExtractStage::InstallVirtual {
                    extracted_directory,
                    virtual_tool_id,
                },
            },
            (_, ExtractEvent::Installed(result)) => ExtractStage::Finished { result },
            _ => self,
        }
    }

    /// Is `unpacking` how this stage starts to unpack the archive?
    pub open spec fn is_unpacking(self, unpacking: UnpackStage) -> bool {
        self matches ExtractStage::Unpack { compression_type, temp_directory, archive_file }
            && unpacking matches UnpackStage::Open {
            compression_type: compression,
            archive_file: archive,
            destination,
        } && compression == compression_type && archive@ == archive_file@ && destination@
            == temp_directory@
    }

    /// How this stage starts to unpack the archive.
    pub fn unpacking(&self) -> (r: Option<UnpackStage>)
        ensures
            match self {
                ExtractStage::Unpack { compression_type, temp_directory, archive_file } => r
                    matches Some(UnpackStage::Open {
                    compression_type: compression,
                    archive_file: archive,
                    destination,
                }) && compression == *compression_type && archive@ == archive_file@ && destination@
                    == temp_directory@,
                _ => r is None,
            },
            r matches Some(unpacking) ==> self.is_unpacking(unpacking),
    {
        match self {
            ExtractStage::Unpack { compression_type, temp_directory, archive_file } => {
                let mut destination: Vec<u8> = Vec::new();
                destination.extend_from_slice(temp_directory.as_slice());
                assert(destination@ == temp_directory@);
                let mut archive: Vec<u8> = Vec::new();
                archive.extend_from_slice(archive_file.as_slice());
                assert(archive@ == archive_file@);
                Some(unpack::safe_unpack_tar(*compression_type, archive, destination))
            },
            _ => None,
        }
    }

    /// What is reported in this stage.
    pub open spec fn report(self) -> Option<(OperationState, u8)> {
        match self {
            ExtractStage::Report { state, progress, .. } => Some((state, progress)),
            _ => None,
        }
    }

    /// What is reported in this stage: the state of the operation, and its progress in
    /// percent.
    pub fn reported(&self) -> (r: Option<(OperationState, u8)>)
        ensures
            r == match self {
                ExtractStage::Report { state, progress, .. } => Some((*state, *progress)),
                _ => None,
            },
            r == self.report(),
    {
        match self {
            ExtractStage::Report { state, progress, .. } => Some((*state, *progress)),
            _ => None,
        }
    }

    /// Is the event an outcome of this stage?
    pub fn expects(&self, event: &ExtractEvent) -> (r: bool)
        ensures
            r == self.awaits(*event),
    {
        match (self, event) {
            (ExtractStage::CheckBeforeUnpacking { .. }, ExtractEvent::CancelChecked(_)) => true,
            (ExtractStage::Report { .. }, ExtractEvent::Reported) => true,
            (ExtractStage::Unpack { .. }, ExtractEvent::Unpacked(_)) => true,
            (ExtractStage::DeleteArchive { .. }, ExtractEvent::ArchiveDeleted(_)) => true,
            (ExtractStage::CheckAfterUnpacking { .. }, ExtractEvent::CancelChecked(_)) => true,
            (ExtractStage::ListDirectory { .. }, ExtractEvent::Listed(_)) => true,
            (ExtractStage::CheckBeforeInstalling { .. }, ExtractEvent::CancelChecked(_)) => true,
            (ExtractStage::InstallDirect { .. }, ExtractEvent::Installed(_)) => true,
            (ExtractStage::InstallVirtual { .. }, ExtractEvent::Installed(_)) => true,
            _ => false,
        }
    }

    /// Takes the outcome of this stage in an installation that goes to `target`. That
    /// the archive could not be deleted does not matter.
    pub fn advance(self, target: &InstallTarget, event: ExtractEvent) -> (r: ExtractStage)
        requires
            self.awaits(event),
        ensures
            r == self.after(*target, event),
    {
        match (self, event) {
            (_, ExtractEvent::CancelChecked(true)) => fail(InstallFailure::Cancelled),
            (
                ExtractStage::CheckBeforeUnpacking { compression_type, temp_directory, archive_file },
                _,
            ) => ExtractStage::Report {
                state: OperationState::Extracting,
                progress: 0,
                compression_type,
                temp_directory,
                archive_file,
            },
            (ExtractStage::Report { compression_type, temp_directory, archive_file, .. }, _) =>
                ExtractStage::Unpack { compression_type, temp_directory, archive_file },
            (
                ExtractStage::Unpack { temp_directory, archive_file, .. },
                ExtractEvent::Unpacked(outcome),
            ) => match outcome {
                UnpackOutcome::TaskFailed(error) => fail(InstallFailure::ExtractionTask { error }),
                UnpackOutcome::Ended(Err(failure)) => fail(InstallFailure::Unpack { failure }),
                UnpackOutcome::Ended(Ok(_)) => ExtractStage::DeleteArchive {
                    temp_directory,
                    archive_file,
                },
            },
            (ExtractStage::DeleteArchive { temp_directory, .. }, _) =>
                ExtractStage::CheckAfterUnpacking { temp_directory },
            (ExtractStage::CheckAfterUnpacking { temp_directory }, _) =>
                ExtractStage::ListDirectory { temp_directory },
            (_, ExtractEvent::Listed(outcome)) => match outcome {
                Err(error) => fail(InstallFailure::ReadDirectory { error }),
                Ok(entries) => match find_extracted_tool(entries) {
                    Some(extracted_directory) => ExtractStage::CheckBeforeInstalling {
                        extracted_directory,
                    },
                    None => fail(InstallFailure::NoToolFound),
                },
            },
            (ExtractStage::CheckBeforeInstalling { extracted_directory }, _) => match target {
                InstallTarget::Direct => ExtractStage::InstallDirect { extracted_directory },
                InstallTarget::VirtualTool { virtual_tool_id } => ExtractStage::InstallVirtual {
                    extracted_directory,
                    virtual_tool_id: virtual_tool_id.clone(),
                },
            },
            (_, ExtractEvent::Installed(result)) => ExtractStage::Finished { result },
            (stage, _) => stage,
        }
    }
}

/// The end of an installation that failed.
pub open spec fn failed(failure: InstallFailure) -> ExtractStage {
    ExtractStage::Finished { result: Err(failure) }
}

/// Ends an installation that failed.
fn fail(failure: InstallFailure) -> (r: ExtractStage)
    ensures
        r == failed(failure),
{
    ExtractStage::Finished { result: Err(failure) }
}

impl InstallJob {
    /// Is `stage` the first stage of installing the archive that was downloaded?
    pub open spec fn is_extraction_of(self, stage: ExtractStage) -> bool {
        stage matches ExtractStage::CheckBeforeUnpacking {
            compression_type,
            temp_directory,
            archive_file,
        } && compression_type == self.plan.download.compression_type && temp_directory@
            == self.temp_directory@ && archive_file@ == self.archive_path()
    }

    /// Starts to install the archive that was downloaded.
    pub fn extract_and_install(&self) -> (r: ExtractStage)
        ensures
            r matches ExtractStage::CheckBeforeUnpacking {
                compression_type,
                temp_directory,
                archive_file,
            } && compression_type == self.plan.download.compression_type && temp_directory@
                == self.temp_directory@ && archive_file@ == self.archive_path(),
            self.is_extraction_of(r),
    {
        let mut temp_directory: Vec<u8> = Vec::new();
        temp_directory.extend_from_slice(self.temp_directory.as_slice());
        assert(temp_directory@ == self.temp_directory@);
        ExtractStage::CheckBeforeUnpacking {
            compression_type: self.plan.download.compression_type,
            temp_directory,
            archive_file: self.archive_file(),
        }
    }
}

/// Can the events follow one another from `stage` on?
pub open spec fn can_follow(
    stage: ExtractStage,
    target: InstallTarget,
    events: Seq<ExtractEvent>,
) -> bool
    decreases events.len(),
{
    events.len() == 0 || (stage.awaits(events[0]) && can_follow(
        stage.after(target, events[0]),
        target,
        events.drop_first(),
    ))
}

/// The stage that a sequence of events leads to.
pub open spec fn after_events(
    stage: ExtractStage,
    target: InstallTarget,
    events: Seq<ExtractEvent>,
) -> ExtractStage
    decreases events.len(),
{
    if events.len() == 0 {
        stage
    } else {
        after_events(stage.after(target, events[0]), target, events.drop_first())
    }
}

/// A cancellation that is seen ends the installation as cancelled, at once: no event
/// follows it, and nothing is installed.
pub proof fn law_cancelled_installation_ends(
    stage: ExtractStage,
    target: InstallTarget,
    events: Seq<ExtractEvent>,
    i: int,
)
    requires
        can_follow(stage, target, events),
        0 <= i < events.len(),
        events[i] == ExtractEvent::CancelChecked(true),
    ensures
        i == events.len() - 1,
        after_events(stage, target, events) == failed(InstallFailure::Cancelled),
    decreases events.len(),
{
    let next = stage.after(target, events[0]);
    let rest = events.drop_first();
    assert(can_follow(next, target, rest));
    if i == 0 {
        if rest.len() > 0 {
            assert(next.awaits(rest[0]));
        }
        assert(after_events(next, target, rest) == next);
    } else {
        assert(rest[i - 1] == events[i]);
        law_cancelled_installation_ends(next, target, rest, i - 1);
    }
}

/// How far a stage is from the start.
pub open spec fn rank(stage: ExtractStage) -> nat {
    match stage {
        ExtractStage::CheckBeforeUnpacking { .. } => 0,
        ExtractStage::Report { .. } => 1,
        ExtractStage::Unpack { .. } => 2,
        ExtractStage::DeleteArchive { .. } => 3,
        ExtractStage::CheckAfterUnpacking { .. } => 4,
        ExtractStage::ListDirectory { .. } => 5,
        ExtractStage::CheckBeforeInstalling { .. } => 6,
        ExtractStage::InstallDirect { .. } => 7,
        ExtractStage::InstallVirtual { .. } => 7,
        ExtractStage::Finished { .. } => 8,
    }
}

/// An installation that succeeds has gone through every stage: the archive was unpacked, a
/// tool was found in it, no cancellation was seen, and what was installed is what
/// is reported.
pub proof fn law_success_goes_through_every_stage(
    start: ExtractStage,
    target: InstallTarget,
    events: Seq<ExtractEvent>,
    success: InstallSuccess,
)
    requires
        start is CheckBeforeUnpacking,
        can_follow(start, target, events),
        after_events(start, target, events) == (ExtractStage::Finished {
            result: Ok::<InstallSuccess, InstallFailure>(success),
        }),
    ensures
        events.len() == 8,
        events[0] == ExtractEvent::CancelChecked(false),
        events[2] matches ExtractEvent::Unpacked(UnpackOutcome::Ended(Ok(_))),
        events[4] == ExtractEvent::CancelChecked(false),
        events[5] matches ExtractEvent::Listed(Ok(entries)) && tool_position(entries@) is Some,
        events[6] == ExtractEvent::CancelChecked(false),
        events[7] == ExtractEvent::Installed(Ok(success)),
{
    lemma_success_events(start, target, events, success);
}

proof fn lemma_success_events(
    stage: ExtractStage,
    target: InstallTarget,
    events: Seq<ExtractEvent>,
    success: InstallSuccess,
)
    requires
        can_follow(stage, target, events),
        !(stage is Finished),
        after_events(stage, target, events) == (ExtractStage::Finished {
            result: Ok::<InstallSuccess, InstallFailure>(success),
        }),
    ensures
        events.len() == 8 - rank(stage),
        rank(stage) <= 0 ==> events[0 - rank(stage)] == ExtractEvent::CancelChecked(false),
        rank(stage) <= 2 ==> (events[2 - rank(stage)] matches ExtractEvent::Unpacked(
            UnpackOutcome::Ended(Ok(_)),
        )),
        rank(stage) <= 4 ==> events[4 - rank(stage)] == ExtractEvent::CancelChecked(false),
        rank(stage) <= 5 ==> (events[5 - rank(stage)] matches ExtractEvent::Listed(Ok(entries))
            && tool_position(entries@) is Some),
        rank(stage) <= 6 ==> events[6 - rank(stage)] == ExtractEvent::CancelChecked(false),
        events[7 - rank(stage)] == ExtractEvent::Installed(Ok(success)),
    decreases events.len(),
{
    let next = stage.after(target, events[0]);
    let rest = events.drop_first();
    assert(stage.awaits(events[0]));
    assert(can_follow(next, target, rest));
    if next is Finished {
        if rest.len() > 0 {
            assert(next.awaits(rest[0]));
        }
        assert(after_events(next, target, rest) == next);
    } else {
        assert(rank(next) == rank(stage) + 1);
        lemma_success_events(next, target, rest, success);
        assert forall|k: int| 0 < k < events.len() implies #[trigger] events[k] == rest[
            k - 1
        ] by {}
    }
}

proof fn lemma_last_event(start: ExtractStage, target: InstallTarget, events: Seq<ExtractEvent>)
    requires
        can_follow(start, target, events),
        events.len() > 0,
    ensures
        can_follow(start, target, events.drop_last()),
        after_events(start, target, events.drop_last()).awaits(events.last()),
        after_events(start, target, events) == after_events(
            start,
            target,
            events.drop_last(),
        ).after(target, events.last()),
    decreases events.len(),
{
    let next = start.after(target, events[0]);
    let rest = events.drop_first();
    assert(can_follow(next, target, rest));
    if events.len() == 1 {
        assert(after_events(next, target, rest) == next);
        assert(after_events(start, target, events.drop_last()) == start);
    } else {
        lemma_last_event(next, target, rest);
        assert(rest.last() == events.last());
        assert(rest.drop_last() =~= events.drop_last().drop_first());
        assert(events.drop_last()[0] == events[0]);
    }
}

/// The installation of an archive takes every outcome of its stages, whatever it is, and no
/// other.
pub proof fn law_every_outcome_is_taken(stage: ExtractStage, event: ExtractEvent)
    ensures
        stage.awaits(event) <==> {
            ||| stage is CheckBeforeUnpacking && event is CancelChecked
            ||| stage is Report && event is Reported
            ||| stage is Unpack && event is Unpacked
            ||| stage is DeleteArchive && event is ArchiveDeleted
            ||| stage is CheckAfterUnpacking && event is CancelChecked
            ||| stage is ListDirectory && event is Listed
            ||| stage is CheckBeforeInstalling && event is CancelChecked
            ||| stage is InstallDirect && event is Installed
            ||| stage is InstallVirtual && event is Installed
        },
{
}

/// Is the entry a directory at `path` that holds the description of a tool?
pub open spec fn is_tool_at(entry: ExtractedEntry, path: Vec<u8>) -> bool {
    entry == (ExtractedEntry::Readable { path, is_directory: Some(true), has_vdf: true })
}

/// Is `path` that of the first directory with the description of a tool?
pub open spec fn is_first_tool_at(entries: Seq<ExtractedEntry>, path: Vec<u8>) -> bool {
    exists|i: int|
        0 <= i < entries.len() && is_tool_at(#[trigger] entries[i], path) && (forall|j: int,
            other: Vec<u8>|
            0 <= j < i ==> !(#[trigger] is_tool_at(entries[j], other)))
}

/// The directory that is installed is the first one that was listed as a directory with the
/// description of a tool; there is none exactly when no entry was listed so.
pub proof fn law_first_listed_tool_is_installed(entries: Seq<ExtractedEntry>)
    ensures
        match extracted_tool(entries) {
            Some(path) => is_first_tool_at(entries, path),
            None => forall|j: int, path: Vec<u8>|
                0 <= j < entries.len() ==> !(#[trigger] is_tool_at(entries[j], path)),
        },
{
    law_tool_position_is_first(entries);
    if let Some(i) = tool_position(entries) {
        let path = entries[i]->path;
        assert(is_tool_at(entries[i], path));
        assert forall|j: int, other: Vec<u8>| 0 <= j < i implies !(#[trigger] is_tool_at(
            entries[j],
            other,
        )) by {
            assert(!is_tool(entries[j]));
        }
        assert(is_first_tool_at(entries, path));
    } else {
        assert forall|j: int, path: Vec<u8>| 0 <= j < entries.len() implies !(#[trigger] is_tool_at(
            entries[j],
            path,
        )) by {
            assert(!is_tool(entries[j]));
        }
    }
}

/// At every point of an installation the archive, the way it is compressed and the temporary
/// directory are those that it began with; what is installed is the first tool that was
/// listed, and it goes where the target says.
pub proof fn law_installation_keeps_to_its_archive(
    start: ExtractStage,
    target: InstallTarget,
    events: Seq<ExtractEvent>,
)
    requires
        start is CheckBeforeUnpacking,
        can_follow(start, target, events),
    ensures
        ({
            let compression = start->CheckBeforeUnpacking_compression_type;
            let temp = start->CheckBeforeUnpacking_temp_directory;
            let archive = start->CheckBeforeUnpacking_archive_file;
            let stage = after_events(start, target, events);
            &&& stage is Finished || events.len() == rank(stage)
            &&& match stage {
                ExtractStage::CheckBeforeUnpacking { .. } => stage == start,
                ExtractStage::Report {
                    state,
                    progress,
                    compression_type,
                    temp_directory,
                    archive_file,
                } => {
                    &&& state == OperationState::Extracting
                    &&& progress == 0
                    &&& compression_type == compression
                    &&& temp_directory == temp
                    &&& archive_file == archive
                },
                ExtractStage::Unpack { compression_type, temp_directory, archive_file } => {
                    &&& compression_type == compression
                    &&& temp_directory == temp
                    &&& archive_file == archive
                },
                ExtractStage::DeleteArchive { temp_directory, archive_file } => temp_directory
                    == temp && archive_file == archive,
                ExtractStage::CheckAfterUnpacking { temp_directory } => temp_directory == temp,
                ExtractStage::ListDirectory { temp_directory } => temp_directory == temp,
                ExtractStage::CheckBeforeInstalling { extracted_directory } => is_listed(
                    events,
                    extracted_directory,
                ),
                ExtractStage::InstallDirect { extracted_directory } => is_listed(
                    events,
                    extracted_directory,
                ) && target == InstallTarget::Direct,
                ExtractStage::InstallVirtual { extracted_directory, virtual_tool_id } => is_listed(
                    events,
                    extracted_directory,
                ) && target == (InstallTarget::VirtualTool { virtual_tool_id }),
                ExtractStage::Finished { .. } => events.len() > 0,
            }
        }),
    decreases events.len(),
{
    if events.len() > 0 {
        let prior = events.drop_last();
        lemma_last_event(start, target, events);
        law_installation_keeps_to_its_archive(start, target, prior);
        if prior.len() > 5 {
            assert(prior[5] == events[5]);
        }
        if let ExtractEvent::Listed(Ok(entries)) = events.last() {
            law_first_listed_tool_is_installed(entries@);
        }
    }
}

/// Was the directory the first tool that was listed?
pub open spec fn is_listed(events: Seq<ExtractEvent>, directory: Vec<u8>) -> bool {
    events.len() > 5 && (events[5] matches ExtractEvent::Listed(Ok(entries)) && is_first_tool_at(
        entries@,
        directory,
    ))
}

/// The directory that a stage is about to install.
pub open spec fn directory_of(stage: ExtractStage) -> Option<Vec<u8>> {
    match stage {
        ExtractStage::CheckBeforeInstalling { extracted_directory } => Some(extracted_directory),
        ExtractStage::InstallDirect { extracted_directory } => Some(extracted_directory),
        ExtractStage::InstallVirtual { extracted_directory, .. } => Some(extracted_directory),
        _ => None,
    }
}

/// The temporary directory of a stage.
pub open spec fn temp_of(stage: ExtractStage) -> Option<Vec<u8>> {
    match stage {
        ExtractStage::CheckBeforeUnpacking { temp_directory, .. } => Some(temp_directory),
        ExtractStage::Report { temp_directory, .. } => Some(temp_directory),
        ExtractStage::Unpack { temp_directory, .. } => Some(temp_directory),
        ExtractStage::DeleteArchive { temp_directory, .. } => Some(temp_directory),
        ExtractStage::CheckAfterUnpacking { temp_directory } => Some(temp_directory),
        ExtractStage::ListDirectory { temp_directory } => Some(temp_directory),
        _ => None,
    }
}

/// The archive of a stage.
pub open spec fn archive_of(stage: ExtractStage) -> Option<Vec<u8>> {
    match stage {
        ExtractStage::CheckBeforeUnpacking { archive_file, .. } => Some(archive_file),
        ExtractStage::Report { archive_file, .. } => Some(archive_file),
        ExtractStage::Unpack { archive_file, .. } => Some(archive_file),
        ExtractStage::DeleteArchive { archive_file, .. } => Some(archive_file),
        _ => None,
    }
}

/// How the archive of a stage is compressed.
pub open spec fn compression_of(stage: ExtractStage) -> Option<CompressionType> {
    match stage {
        ExtractStage::CheckBeforeUnpacking { compression_type, .. } => Some(compression_type),
        ExtractStage::Report { compression_type, .. } => Some(compression_type),
        ExtractStage::Unpack { compression_type, .. } => Some(compression_type),
        _ => None,
    }
}

/// Does `later` have the directories, the archive and the kind of archive of `earlier`, each
/// where both have one?
pub open spec fn keeps(earlier: ExtractStage, later: ExtractStage) -> bool {
    &&& temp_of(earlier) is Some && temp_of(later) is Some ==> temp_of(later) == temp_of(earlier)
    &&& archive_of(earlier) is Some && archive_of(later) is Some ==> archive_of(later)
        == archive_of(earlier)
    &&& compression_of(earlier) is Some && compression_of(later) is Some ==> compression_of(later)
        == compression_of(earlier)
    &&& directory_of(earlier) is Some && directory_of(later) is Some ==> directory_of(later)
        == directory_of(earlier)
}

/// What the last outcome leads to: a failure ends the installation with that failure, and
/// anything else leads to the next piece of work, up to the result of the installation; the
/// directories and the archive stay what they are.
pub proof fn law_extraction_goes_on_or_ends(
    start: ExtractStage,
    target: InstallTarget,
    events: Seq<ExtractEvent>,
)
    requires
        can_follow(start, target, events),
        events.len() > 0,
    ensures
        ({
            let before = after_events(start, target, events.drop_last());
            let stage = after_events(start, target, events);
            match events.last() {
                ExtractEvent::CancelChecked(true) => stage == (ExtractStage::Finished {
                    result: Err(InstallFailure::Cancelled),
                }),
                ExtractEvent::CancelChecked(false) => {
                    &&& before is CheckBeforeUnpacking ==> stage is Report && stage.report()
                        == Some((OperationState::Extracting, 0u8))
                    &&& before is CheckAfterUnpacking ==> stage is ListDirectory
                    &&& before is CheckBeforeInstalling ==> match target {
                        InstallTarget::Direct => stage is InstallDirect,
                        InstallTarget::VirtualTool { virtual_tool_id } => stage is InstallVirtual
                            && stage->InstallVirtual_virtual_tool_id == virtual_tool_id,
                    }
                },
                ExtractEvent::Reported => stage is Unpack,
                ExtractEvent::Unpacked(UnpackOutcome::TaskFailed(error)) => stage == (
                ExtractStage::Finished { result: Err(InstallFailure::ExtractionTask { error }) }),
                ExtractEvent::Unpacked(UnpackOutcome::Ended(Err(failure))) => stage == (
                ExtractStage::Finished { result: Err(InstallFailure::Unpack { failure }) }),
                ExtractEvent::Unpacked(UnpackOutcome::Ended(Ok(_))) => stage is DeleteArchive,
                ExtractEvent::ArchiveDeleted(_) => stage is CheckAfterUnpacking,
                ExtractEvent::Listed(Err(error)) => stage == (ExtractStage::Finished {
                    result: Err(InstallFailure::ReadDirectory { error }),
                }),
                ExtractEvent::Listed(Ok(entries)) => if exists|j: int, path: Vec<u8>|
                    0 <= j < entries@.len() && #[trigger] is_tool_at(entries@[j], path) {
                    stage is CheckBeforeInstalling && is_first_tool_at(
                        entries@,
                        directory_of(stage)->0,
                    )
                } else {
                    stage == (ExtractStage::Finished { result: Err(InstallFailure::NoToolFound) })
                },
                ExtractEvent::Installed(result) => stage == (ExtractStage::Finished { result }),
            }
        }),
        keeps(
            after_events(start, target, events.drop_last()),
            after_events(start, target, events),
        ),
{
    lemma_last_event(start, target, events);
    if let ExtractEvent::Listed(Ok(entries)) = events.last() {
        law_first_listed_tool_is_installed(entries@);
    }
}

/// The archive that a job downloaded is unpacked in the job's own directory, as an archive
/// of the kind that was planned; before that it is reported that the operation extracts.
pub proof fn law_downloaded_archive_is_unpacked(
    job: InstallJob,
    start: ExtractStage,
    target: InstallTarget,
    events: Seq<ExtractEvent>,
    unpacking: UnpackStage,
)
    requires
        job.is_extraction_of(start),
        can_follow(start, target, events),
    ensures
        ({
            let stage = after_events(start, target, events);
            &&& stage.report() is Some <==> stage is Report
            &&& stage is Report ==> stage.report() == Some((OperationState::Extracting, 0u8))
            &&& stage.is_unpacking(unpacking) ==> {
                &&& stage is Unpack
                &&& unpacking is Open
                &&& unpacking->Open_compression_type == job.plan.download.compression_type
                &&& unpacking->Open_archive_file@ == job.archive_path()
                &&& unpacking->Open_destination@ == job.temp_directory@
            }
        }),
{
    law_installation_keeps_to_its_archive(start, target, events);
}

} // verus!
