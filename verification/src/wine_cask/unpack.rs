//! Unpacking a downloaded archive, entry by entry.
use crate::paths;
use crate::wine_cask::archive::CompressionType;
use crate::wine_cask::outcome::UnpackFailure;
use vstd::prelude::*;

verus! {

/// How an archive's contents are read.
#[derive(Clone, Copy, Debug, PartialEq, Eq, Structural)]
pub enum Decoder {
    Gzip,
    Xz,
}

/// What is to be done next to unpack an archive.
#[derive(Debug)]
pub enum UnpackStage {
    /// Open the archive.
    Open { compression_type: CompressionType, archive_file: Vec<u8>, destination: Vec<u8> },
    /// Start to read the archive's entries.
    ReadEntries { decoder: Decoder, destination: Vec<u8> },
    /// Read the next entry.
    ReadEntry { destination: Vec<u8> },
    /// Resolve the path of the entry that was read.
    ResolvePath { destination: Vec<u8> },
    /// Unpack the entry that was read, in the directory `destination`.
    UnpackEntry { destination: Vec<u8> },
    /// Nothing: the archive is unpacked, or was given up.
    Finished { result: Result<(), UnpackFailure> },
}

/// The path of an entry: its bytes, and how it is shown.
#[derive(Debug)]
pub struct EntryPath {
    pub bytes: Vec<u8>,
    pub shown: String,
}

/// What came of a stage.
#[derive(Debug)]
pub enum UnpackEvent {
    Opened(Result<(), String>),
    EntriesRead(Result<(), String>),
    /// The entry that was read; there is none at the end of the archive.
    EntryRead(Option<Result<(), String>>),
    PathResolved(Result<EntryPath, String>),
    EntryUnpacked(Result<(), String>),
}

impl UnpackStage {
    /// Is the event an outcome of this stage?
    pub open spec fn awaits(self, event: UnpackEvent) -> bool {
        match self {
            UnpackStage::Open { .. } => event is Opened,
            UnpackStage::ReadEntries { .. } => event is EntriesRead,
            UnpackStage::ReadEntry { .. } => event is EntryRead,
            UnpackStage::ResolvePath { .. } => event is PathResolved,
            UnpackStage::UnpackEntry { .. } => event is EntryUnpacked,
            UnpackStage::Finished { .. } => false,
        }
    }

    /// The stage that an event leads to. An entry is unpacked only if its path cannot
    /// lead out of the directory that it is unpacked in.
    pub open spec fn after(self, event: UnpackEvent) -> UnpackStage {
        match (self, event) {
            (
                UnpackStage::Open { compression_type, destination, .. },
                UnpackEvent::Opened(outcome),
            ) => match outcome {
                Ok(_) => match compression_type {
                    CompressionType::Gzip => UnpackStage::ReadEntries {
                        decoder: Decoder::Gzip,
                        destination,
                    },
                    CompressionType::Xz => UnpackStage::ReadEntries {
                        decoder: Decoder::Xz,
                        destination,
                    },
                    CompressionType::Unknown => given_up(UnpackFailure::UnsupportedCompression),
                },
                Err(error) => given_up(UnpackFailure::Open { error }),
            },
            (
                UnpackStage::ReadEntries { destination, .. },
                UnpackEvent::EntriesRead(outcome),
            ) => match outcome {
                Ok(_) => UnpackStage::ReadEntry { destination },
                Err(error) => given_up(UnpackFailure::ReadEntries { error }),
            },
            (UnpackStage::ReadEntry { destination }, UnpackEvent::EntryRead(entry)) => match entry {
                None => UnpackStage::Finished { result: Ok(()) },
                Some(Ok(_)) => UnpackStage::ResolvePath { destination },
                Some(Err(error)) => given_up(UnpackFailure::ReadEntry { error }),
            },
            (
                UnpackStage::ResolvePath { destination },
                UnpackEvent::PathResolved(outcome),
            ) => match outcome {
                Ok(path) => if paths::is_unsafe_entry(path.bytes@) {
                    given_up(UnpackFailure::UnsafePath { path: path.shown })
                } else {
                    UnpackStage::UnpackEntry { destination }
                },
                Err(error) => given_up(UnpackFailure::ResolvePath { error }),
            },
            (
                UnpackStage::UnpackEntry { destination },
                UnpackEvent::EntryUnpacked(outcome),
            ) => match outcome {
                Ok(_) => UnpackStage::ReadEntry { destination },
                Err(error) => given_up(UnpackFailure::UnpackEntry { error }),
            },
            _ => self,
        }
    }

    /// Is the event an outcome of this stage?
    pub fn expects(&self, event: &UnpackEvent) -> (r: bool)
        ensures
            r == self.awaits(*event),
    {
        match (self, event) {
            (UnpackStage::Open { .. }, UnpackEvent::Opened(_)) => true,
            (UnpackStage::ReadEntries { .. }, UnpackEvent::EntriesRead(_)) => true,
            (UnpackStage::ReadEntry { .. }, UnpackEvent::EntryRead(_)) => true,
            (UnpackStage::ResolvePath { .. }, UnpackEvent::PathResolved(_)) => true,
            (UnpackStage::UnpackEntry { .. }, UnpackEvent::EntryUnpacked(_)) => true,
            _ => false,
        }
    }

    /// Takes the outcome of this stage.
    pub fn advance(self, event: UnpackEvent) -> (r: UnpackStage)
        requires
            self.awaits(event),
        ensures
            r == self.after(event),
    {
        match (self, event) {
            (
                UnpackStage::Open { compression_type, destination, .. },
                UnpackEvent::Opened(outcome),
            ) => match outcome {
                Ok(_) => match compression_type {
                    CompressionType::Gzip => UnpackStage::ReadEntries {
                        decoder: Decoder::Gzip,
                        destination,
                    },
                    CompressionType::Xz => UnpackStage::ReadEntries {
                        decoder: Decoder::Xz,
                        destination,
                    },
                    CompressionType::Unknown => give_up(UnpackFailure::UnsupportedCompression),
                },
                Err(error) => give_up(UnpackFailure::Open { error }),
            },
            (
                UnpackStage::ReadEntries { destination, .. },
                UnpackEvent::EntriesRead(outcome),
            ) => match outcome {
                Ok(_) => UnpackStage::ReadEntry { destination },
                Err(error) => give_up(UnpackFailure::ReadEntries { error }),
            },
            (UnpackStage::ReadEntry { destination }, UnpackEvent::EntryRead(entry)) => match entry {
                None => UnpackStage::Finished { result: Ok(()) },
                Some(Ok(_)) => UnpackStage::ResolvePath { destination },
                Some(Err(error)) => give_up(UnpackFailure::ReadEntry { error }),
            },
            (
                UnpackStage::ResolvePath { destination },
                UnpackEvent::PathResolved(outcome),
            ) => match outcome {
                Ok(path) => if paths::is_unsafe_entry_path(path.bytes.as_slice()) {
                    give_up(UnpackFailure::UnsafePath { path: path.shown })
                } else {
                    UnpackStage::UnpackEntry { destination }
                },
                Err(error) => give_up(UnpackFailure::ResolvePath { error }),
            },
            (
                UnpackStage::UnpackEntry { destination },
                UnpackEvent::EntryUnpacked(outcome),
            ) => match outcome {
                Ok(_) => UnpackStage::ReadEntry { destination },
                Err(error) => give_up(UnpackFailure::UnpackEntry { error }),
            },
            (stage, _) => stage,
        }
    }
}

/// The end of an attempt that failed.
pub open spec fn given_up(failure: UnpackFailure) -> UnpackStage {
    UnpackStage::Finished { result: Err(failure) }
}

/// Ends an attempt that failed.
fn give_up(failure: UnpackFailure) -> (r: UnpackStage)
    ensures
        r == given_up(failure),
{
    UnpackStage::Finished { result: Err(failure) }
}

/// Starts to unpack the archive in `archive_file` into the directory `destination`.
pub fn safe_unpack_tar(
    compression_type: CompressionType,
    archive_file: Vec<u8>,
    destination: Vec<u8>,
) -> (r: UnpackStage)
    ensures
        r == (UnpackStage::Open { compression_type, archive_file, destination }),
{
    UnpackStage::Open { compression_type, archive_file, destination }
}

/// Can the events follow one another from `stage` on?
pub open spec fn can_follow(stage: UnpackStage, events: Seq<UnpackEvent>) -> bool
    decreases events.len(),
{
    events.len() == 0 || (stage.awaits(events[0]) && can_follow(
        stage.after(events[0]),
        events.drop_first(),
    ))
}

/// The stage that a sequence of events leads to.
pub open spec fn after_events(stage: UnpackStage, events: Seq<UnpackEvent>) -> UnpackStage
    decreases events.len(),
{
    if events.len() == 0 {
        stage
    } else {
        after_events(stage.after(events[0]), events.drop_first())
    }
}

/// Does the event resolve a path that may be unpacked?
pub open spec fn resolves_safe_path(event: UnpackEvent) -> bool {
    event matches UnpackEvent::PathResolved(Ok(path)) && !paths::is_unsafe_entry(path.bytes@)
}

proof fn lemma_stage_at(start: UnpackStage, events: Seq<UnpackEvent>, i: int)
    requires
        can_follow(start, events),
        0 <= i < events.len(),
    ensures
        after_events(start, events.take(i)).awaits(events[i]),
        after_events(start, events.take(i + 1)) == after_events(start, events.take(i)).after(
            events[i],
        ),
    decreases i,
{
    let next = start.after(events[0]);
    let rest = events.drop_first();
    if i == 0 {
        assert(after_events(start, events.take(0)) == start);
        assert(events.take(1)[0] == events[0]);
        assert(after_events(next, events.take(1).drop_first()) == next);
    } else {
        lemma_stage_at(next, rest, i - 1);
        assert(rest[i - 1] == events[i]);
        assert(events.take(i)[0] == events[0]);
        assert(events.take(i + 1)[0] == events[0]);
        assert(events.take(i).drop_first() =~= rest.take(i - 1));
        assert(events.take(i + 1).drop_first() =~= rest.take(i));
    }
}

/// The directory that a stage unpacks in.
pub open spec fn destination_of(stage: UnpackStage) -> Option<Vec<u8>> {
    match stage {
        UnpackStage::Open { destination, .. } => Some(destination),
        UnpackStage::ReadEntries { destination, .. } => Some(destination),
        UnpackStage::ReadEntry { destination } => Some(destination),
        UnpackStage::ResolvePath { destination } => Some(destination),
        UnpackStage::UnpackEntry { destination } => Some(destination),
        UnpackStage::Finished { .. } => None,
    }
}

proof fn lemma_destination_is_kept(start: UnpackStage, events: Seq<UnpackEvent>)
    requires
        can_follow(start, events),
    ensures
        after_events(start, events) is Finished || destination_of(after_events(start, events))
            == destination_of(start),
    decreases events.len(),
{
    if events.len() > 0 {
        let next = start.after(events[0]);
        let rest = events.drop_first();
        assert(can_follow(next, rest));
        if next is Finished && rest.len() > 0 {
            assert(next.awaits(rest[0]));
        }
        lemma_destination_is_kept(next, rest);
    }
}

proof fn lemma_beginning_can_follow(start: UnpackStage, events: Seq<UnpackEvent>, i: int)
    requires
        can_follow(start, events),
        0 <= i <= events.len(),
    ensures
        can_follow(start, events.take(i)),
    decreases i,
{
    if i > 0 {
        let next = start.after(events[0]);
        lemma_beginning_can_follow(next, events.drop_first(), i - 1);
        assert(events.take(i)[0] == events[0]);
        assert(events.take(i).drop_first() =~= events.drop_first().take(i - 1));
    }
}

/// Whatever is unpacked stays below the directory that was asked for: before an entry is
/// unpacked its path was resolved, the entry goes to that directory, and the path that it
/// names there starts with the directory's components, with none after them that leads out.
pub proof fn law_only_safe_entries_are_unpacked(
    start: UnpackStage,
    events: Seq<UnpackEvent>,
    i: int,
)
    requires
        start is Open,
        can_follow(start, events),
        0 <= i < events.len(),
        events[i] is EntryUnpacked,
    ensures
        i > 0,
        resolves_safe_path(events[i - 1]),
        after_events(start, events.take(i)) == (UnpackStage::UnpackEntry {
            destination: start->Open_destination,
        }),
        ({
            let directory = start->Open_destination@;
            let entry = events[i - 1]->PathResolved_0->Ok_0.bytes@;
            let target = paths::joined(directory, entry);
            &&& paths::lies_within(target, directory)
            &&& forall|k: int|
                paths::components(directory).len() <= k < paths::components(target).len()
                    ==> !paths::leads_out(#[trigger] paths::components(target)[k])
        }),
{
    lemma_stage_at(start, events, i);
    if i == 0 {
        assert(after_events(start, events.take(0)) == start);
    } else {
        lemma_stage_at(start, events, i - 1);
        lemma_beginning_can_follow(start, events, i);
        lemma_destination_is_kept(start, events.take(i));
        paths::law_safe_entry_stays_below(
            start->Open_destination@,
            events[i - 1]->PathResolved_0->Ok_0.bytes@,
        );
    }
}

/// An archive with an unsafe path is never reported as unpacked: the attempt ends at once,
/// with that path, which the user is shown.
pub proof fn law_unsafe_entry_ends_unpacking(
    start: UnpackStage,
    events: Seq<UnpackEvent>,
    j: int,
    path: EntryPath,
)
    requires
        can_follow(start, events),
        0 <= j < events.len(),
        events[j] == UnpackEvent::PathResolved(Ok(path)),
        paths::is_unsafe_entry(path.bytes@),
    ensures
        j == events.len() - 1,
        after_events(start, events) == given_up(UnpackFailure::UnsafePath { path: path.shown }),
{
    lemma_stage_at(start, events, j);
    if j + 1 < events.len() {
        lemma_stage_at(start, events, j + 1);
    }
    assert(events.take(events.len() as int) =~= events);
}

/// An archive is reported as unpacked only after its last entry was read, and then
/// no stage failed.
pub proof fn law_unpacked_to_the_end(stage: UnpackStage, events: Seq<UnpackEvent>)
    requires
        can_follow(stage, events),
        !(stage is Finished),
        after_events(stage, events) == (UnpackStage::Finished { result: Ok(()) }),
    ensures
        events.len() > 0,
        events.last() == UnpackEvent::EntryRead(None),
        forall|i: int| 0 <= i < events.len() ==> !is_failure(#[trigger] events[i]),
    decreases events.len(),
{
    if events.len() > 0 {
        let next = stage.after(events[0]);
        let rest = events.drop_first();
        assert(can_follow(next, rest));
        if next is Finished {
            if rest.len() > 0 {
                assert(next.awaits(rest[0]));
            }
            assert(after_events(next, rest) == next);
            assert(events.len() == 1);
        } else {
            law_unpacked_to_the_end(next, rest);
            assert(rest.last() == events.last());
            assert forall|i: int| 0 <= i < events.len() implies !is_failure(
                #[trigger] events[i],
            ) by {
                if i > 0 {
                    assert(events[i] == rest[i - 1]);
                }
            }
        }
    }
}

/// Does the event say that something failed?
pub open spec fn is_failure(event: UnpackEvent) -> bool {
    match event {
        UnpackEvent::Opened(outcome) => outcome is Err,
        UnpackEvent::EntriesRead(outcome) => outcome is Err,
        UnpackEvent::EntryRead(entry) => entry matches Some(Err(_)),
        UnpackEvent::PathResolved(outcome) => outcome is Err,
        UnpackEvent::EntryUnpacked(outcome) => outcome is Err,
    }
}

proof fn lemma_last_event(start: UnpackStage, events: Seq<UnpackEvent>)
    requires
        can_follow(start, events),
        events.len() > 0,
    ensures
        can_follow(start, events.drop_last()),
        after_events(start, events.drop_last()).awaits(events.last()),
        after_events(start, events) == after_events(start, events.drop_last()).after(
            events.last(),
        ),
    decreases events.len(),
{
    let next = start.after(events[0]);
    let rest = events.drop_first();
    assert(can_follow(next, rest));
    if events.len() == 1 {
        assert(after_events(next, rest) == next);
        assert(after_events(start, events.drop_last()) == start);
    } else {
        lemma_last_event(next, rest);
        assert(rest.last() == events.last());
        assert(rest.drop_last() =~= events.drop_last().drop_first());
        assert(events.drop_last()[0] == events[0]);
    }
}

/// Unpacking takes every outcome of its stages, whatever it is, and no other.
pub proof fn law_every_outcome_is_taken(stage: UnpackStage, event: UnpackEvent)
    ensures
        stage.awaits(event) <==> {
            ||| stage is Open && event is Opened
            ||| stage is ReadEntries && event is EntriesRead
            ||| stage is ReadEntry && event is EntryRead
            ||| stage is ResolvePath && event is PathResolved
            ||| stage is UnpackEntry && event is EntryUnpacked
        },
{
}

/// What the last outcome of unpacking leads to: a failure ends it with that failure, and
/// anything else leads to the next piece of work, up to the end. An archive is read by the
/// decoder of its kind, and an entry is unpacked exactly when none of its path's components
/// is the root or the parent directory.
pub proof fn law_unpacking_goes_on_or_ends(start: UnpackStage, events: Seq<UnpackEvent>)
    requires
        can_follow(start, events),
        events.len() > 0,
    ensures
        ({
            let before = after_events(start, events.drop_last());
            let stage = after_events(start, events);
            let destination = destination_of(before)->0;
            match events.last() {
                UnpackEvent::Opened(Ok(_)) => match before->Open_compression_type {
                    CompressionType::Gzip => stage == (UnpackStage::ReadEntries {
                        decoder: Decoder::Gzip,
                        destination,
                    }),
                    CompressionType::Xz => stage == (UnpackStage::ReadEntries {
                        decoder: Decoder::Xz,
                        destination,
                    }),
                    CompressionType::Unknown => stage == (UnpackStage::Finished {
                        result: Err(UnpackFailure::UnsupportedCompression),
                    }),
                },
                UnpackEvent::Opened(Err(error)) => stage == (UnpackStage::Finished {
                    result: Err(UnpackFailure::Open { error }),
                }),
                UnpackEvent::EntriesRead(Ok(_)) => stage == (UnpackStage::ReadEntry {
                    destination,
                }),
                UnpackEvent::EntriesRead(Err(error)) => stage == (UnpackStage::Finished {
                    result: Err(UnpackFailure::ReadEntries { error }),
                }),
                UnpackEvent::EntryRead(None) => stage == (UnpackStage::Finished {
                    result: Ok(()),
                }),
                UnpackEvent::EntryRead(Some(Ok(_))) => stage == (UnpackStage::ResolvePath {
                    destination,
                }),
                UnpackEvent::EntryRead(Some(Err(error))) => stage == (UnpackStage::Finished {
                    result: Err(UnpackFailure::ReadEntry { error }),
                }),
                UnpackEvent::PathResolved(Ok(path)) => {
                    let names = paths::components(path.bytes@);
                    if names.contains(paths::ComponentView::ParentDir) || names.contains(
                        paths::ComponentView::RootDir,
                    ) {
                        stage == (UnpackStage::Finished {
                            result: Err(UnpackFailure::UnsafePath { path: path.shown }),
                        })
                    } else {
                        stage == (UnpackStage::UnpackEntry { destination })
                    }
                },
                UnpackEvent::PathResolved(Err(error)) => stage == (UnpackStage::Finished {
                    result: Err(UnpackFailure::ResolvePath { error }),
                }),
                UnpackEvent::EntryUnpacked(Ok(_)) => stage == (UnpackStage::ReadEntry {
                    destination,
                }),
                UnpackEvent::EntryUnpacked(Err(error)) => stage == (UnpackStage::Finished {
                    result: Err(UnpackFailure::UnpackEntry { error }),
                }),
            }
        }),
{
    lemma_last_event(start, events);
    if let UnpackEvent::PathResolved(Ok(path)) = events.last() {
        paths::law_unsafe_entry_names_root_or_parent(path.bytes@);
    }
}

/// All entries are unpacked in the directory that was asked for.
pub proof fn law_destination_is_kept(start: UnpackStage, events: Seq<UnpackEvent>)
    requires
        can_follow(start, events),
    ensures
        destination_of(after_events(start, events)) matches Some(destination) ==> destination_of(
            start,
        ) == Some(destination),
{
    lemma_destination_is_kept(start, events);
}

} // verus!
