//! What holds of every save of the manifest, from its start to its end.
use crate::paths;
use crate::wine_cask::app;
use crate::wine_cask::app::WineCask;
use crate::wine_cask::virtual_tools;
use crate::wine_cask::virtual_tools::{
    ManifestRead, ManifestView, SaveEvent, SaveFailure, SaveStage, VirtualToolManifest,
};
use vstd::prelude::*;

verus! {

/// Can the events follow one another from `stage` on?
pub open spec fn can_follow(stage: SaveStage, events: Seq<SaveEvent>) -> bool
    decreases events.len(),
{
    events.len() == 0 || (stage.awaits(events[0]) && can_follow(
        stage.after(events[0]),
        events.drop_first(),
    ))
}

/// The stage that a sequence of events leads to.
pub open spec fn after_events(stage: SaveStage, events: Seq<SaveEvent>) -> SaveStage
    decreases events.len(),
{
    if events.len() == 0 {
        stage
    } else {
        after_events(stage.after(events[0]), events.drop_first())
    }
}

/// How many events lead from a stage to the end of a save in which nothing fails.
pub open spec fn stages_left(stage: SaveStage) -> nat {
    match stage {
        SaveStage::PrepareDirectory { .. } => 6,
        SaveStage::Serialize { .. } => 5,
        SaveStage::CreateTempFile { .. } => 4,
        SaveStage::WriteTempFile { .. } => 3,
        SaveStage::FlushTempFile { .. } => 2,
        SaveStage::ReplaceManifest { .. } => 1,
        SaveStage::Finished { .. } => 0,
    }
}

/// Does the event say that its stage succeeded?
pub open spec fn is_success(event: SaveEvent) -> bool {
    match event {
        SaveEvent::DirectoryPrepared(outcome) => outcome is Ok,
        SaveEvent::Serialized(outcome) => outcome is Ok,
        SaveEvent::TempFileCreated(outcome) => outcome is Ok,
        SaveEvent::TempFileWritten(outcome) => outcome is Ok,
        SaveEvent::TempFileFlushed(outcome) => outcome is Ok,
        SaveEvent::ManifestReplaced(outcome) => outcome is Ok,
    }
}

/// Did every one of the first `n` stages succeed?
pub open spec fn all_succeeded(events: Seq<SaveEvent>, n: nat) -> bool {
    events.len() >= n && forall|i: int| 0 <= i < n ==> is_success(#[trigger] events[i])
}

/// The manifest is saved exactly when every stage succeeds: the directory is there, the
/// text is made, the temporary file is created, written and flushed, and it replaces the
/// manifest file.
pub proof fn law_saved_only_if_every_stage_succeeds(stage: SaveStage, events: Seq<SaveEvent>)
    requires
        !(stage is Finished),
        can_follow(stage, events),
    ensures
        after_events(stage, events) == (SaveStage::Finished { result: Ok(()) })
            <==> all_succeeded(events, stages_left(stage)),
    decreases events.len(),
{
    if events.len() > 0 {
        let next = stage.after(events[0]);
        let rest = events.drop_first();
        assert(can_follow(next, rest));
        if next is Finished {
            lemma_finished_stays(next, rest);
        } else {
            law_saved_only_if_every_stage_succeeds(next, rest);
            if all_succeeded(rest, stages_left(next)) {
                assert forall|i: int| 0 <= i < stages_left(stage) implies is_success(
                    #[trigger] events[i],
                ) by {
                    if i > 0 {
                        assert(is_success(rest[i - 1]));
                    }
                }
            }
            if all_succeeded(events, stages_left(stage)) {
                assert forall|i: int| 0 <= i < stages_left(next) implies is_success(
                    #[trigger] rest[i],
                ) by {
                    assert(is_success(events[i + 1]));
                }
            }
        }
    }
}

proof fn lemma_finished_stays(stage: SaveStage, events: Seq<SaveEvent>)
    requires
        stage is Finished,
        can_follow(stage, events),
    ensures
        events.len() == 0,
        after_events(stage, events) == stage,
{
}

/// The manifest file is not touched before a complete new one is on disk: it is replaced
/// only after all stages before that succeeded.
pub proof fn law_manifest_is_replaced_last(stage: SaveStage, events: Seq<SaveEvent>)
    requires
        stage is PrepareDirectory,
        can_follow(stage, events),
        after_events(stage, events) is ReplaceManifest,
    ensures
        events.len() == 5,
        all_succeeded(events, 5),
        after_events(stage, events) == (SaveStage::ReplaceManifest {
            temp_file: stage->PrepareDirectory_temp_file,
            manifest_file: stage->PrepareDirectory_manifest_file,
        }),
{
    lemma_replaced_last(stage, events);
}

/// The two files that a stage is about.
pub open spec fn files_of(stage: SaveStage) -> Option<(Vec<u8>, Vec<u8>)> {
    match stage {
        SaveStage::PrepareDirectory { temp_file, manifest_file, .. } => Some(
            (temp_file, manifest_file),
        ),
        SaveStage::Serialize { temp_file, manifest_file, .. } => Some((temp_file, manifest_file)),
        SaveStage::CreateTempFile { temp_file, manifest_file, .. } => Some(
            (temp_file, manifest_file),
        ),
        SaveStage::WriteTempFile { temp_file, manifest_file, .. } => Some(
            (temp_file, manifest_file),
        ),
        SaveStage::FlushTempFile { temp_file, manifest_file } => Some((temp_file, manifest_file)),
        SaveStage::ReplaceManifest { temp_file, manifest_file } => Some((temp_file, manifest_file)),
        SaveStage::Finished { .. } => None,
    }
}

proof fn lemma_replaced_last(stage: SaveStage, events: Seq<SaveEvent>)
    requires
        can_follow(stage, events),
        after_events(stage, events) is ReplaceManifest,
    ensures
        stages_left(stage) == events.len() + 1,
        all_succeeded(events, events.len()),
        files_of(after_events(stage, events)) == files_of(stage),
    decreases events.len(),
{
    if events.len() > 0 {
        let next = stage.after(events[0]);
        let rest = events.drop_first();
        assert(can_follow(next, rest));
        lemma_replaced_last(next, rest);
        assert forall|i: int| 0 <= i < events.len() implies is_success(#[trigger] events[i]) by {
            if i > 0 {
                assert(is_success(rest[i - 1]));
            }
        }
    }
}

/// Do the two disks hold the same files, but for the one at `path`? A disk is the contents
/// of its files by their paths.
pub open spec fn same_but_for(
    a: Map<Seq<u8>, Seq<char>>,
    b: Map<Seq<u8>, Seq<char>>,
    path: Seq<u8>,
) -> bool {
    a.remove(path) == b.remove(path)
}

/// Can doing what `stage` says, with the outcome `event`, lead from the disk `before` to the
/// disk `after`? A file that could not be created or written is in any state; renaming a
/// file is atomic.
pub open spec fn can_change(
    stage: SaveStage,
    event: SaveEvent,
    before: Map<Seq<u8>, Seq<char>>,
    after: Map<Seq<u8>, Seq<char>>,
) -> bool {
    match stage {
        SaveStage::CreateTempFile { temp_file, .. } => if is_success(event) {
            after == before.insert(temp_file@, Seq::empty())
        } else {
            same_but_for(before, after, temp_file@)
        },
        SaveStage::WriteTempFile { text, temp_file, .. } => if is_success(event) {
            after == before.insert(temp_file@, text@)
        } else {
            same_but_for(before, after, temp_file@)
        },
        SaveStage::ReplaceManifest { temp_file, manifest_file } => if is_success(event) {
            after == before.insert(manifest_file@, before[temp_file@]).remove(temp_file@)
        } else {
            after == before
        },
        _ => after == before,
    }
}

/// Can the disk change as `disks` say while the events happen, one disk before each event
/// and one after the last?
pub open spec fn disk_can_follow(
    stage: SaveStage,
    events: Seq<SaveEvent>,
    disks: Seq<Map<Seq<u8>, Seq<char>>>,
) -> bool
    decreases events.len(),
{
    &&& disks.len() == events.len() + 1
    &&& events.len() > 0 ==> can_change(stage, events[0], disks[0], disks[1]) && disk_can_follow(
        stage.after(events[0]),
        events.drop_first(),
        disks.drop_first(),
    )
}

/// What is known of the disk in a stage that followed a disk `first`: nothing but the
/// temporary file has changed, and once that is written it holds the text.
spec fn is_prepared(
    stage: SaveStage,
    first: Map<Seq<u8>, Seq<char>>,
    disk: Map<Seq<u8>, Seq<char>>,
    text: Seq<char>,
    temp_file: Seq<u8>,
    manifest_file: Seq<u8>,
) -> bool {
    &&& same_but_for(first, disk, temp_file)
    &&& files_of(stage) matches Some(files) && files.0@ == temp_file && files.1@ == manifest_file
    &&& stage matches SaveStage::CreateTempFile { text: made, .. } ==> made@ == text
    &&& stage matches SaveStage::WriteTempFile { text: made, .. } ==> made@ == text
    &&& stage is FlushTempFile || stage is ReplaceManifest ==> disk.dom().contains(temp_file)
        && disk[temp_file] == text
}

proof fn lemma_disk_after_save(
    stage: SaveStage,
    events: Seq<SaveEvent>,
    disks: Seq<Map<Seq<u8>, Seq<char>>>,
    first: Map<Seq<u8>, Seq<char>>,
    text: Seq<char>,
    temp_file: Seq<u8>,
    manifest_file: Seq<u8>,
)
    requires
        temp_file != manifest_file,
        can_follow(stage, events),
        disk_can_follow(stage, events, disks),
        after_events(stage, events) is Finished,
        is_prepared(stage, first, disks[0], text, temp_file, manifest_file),
        forall|i: int|
            0 <= i < events.len() ==> ((#[trigger] events[i]) matches SaveEvent::Serialized(Ok(made))
                ==> made@ == text),
    ensures
        ({
            let saved = after_events(stage, events)->Finished_result is Ok;
            &&& saved ==> disks.last() == first.insert(manifest_file, text).remove(temp_file)
            &&& !saved ==> same_but_for(first, disks.last(), temp_file)
        }),
    decreases events.len(),
{
    let event = events[0];
    let next = stage.after(event);
    let rest = events.drop_first();
    let later = disks.drop_first();
    assert(can_follow(next, rest));
    assert(later[0] == disks[1]);
    assert(later.last() == disks.last());
    assert(stage.awaits(event));
    assert(can_change(stage, event, disks[0], disks[1]));
    if next is Finished {
        lemma_finished_stays(next, rest);
        assert(disks.last() == disks[1]);
        if next->Finished_result is Ok {
            assert(disks[1] =~= first.insert(manifest_file, text).remove(temp_file)) by {
                assert forall|path: Seq<u8>| path != temp_file && path != manifest_file implies (
                disks[1].dom().contains(path) == #[trigger] first.dom().contains(path)) && (
                first.dom().contains(path) ==> disks[1][path] == first[path]) by {
                    assert(first.remove(temp_file).dom().contains(path) == disks[0].remove(
                        temp_file,
                    ).dom().contains(path));
                    assert(first.remove(temp_file)[path] == disks[0].remove(temp_file)[path]);
                }
            }
        } else {
            assert(first.remove(temp_file) =~= disks[1].remove(temp_file));
        }
    } else {
        assert(first.remove(temp_file) =~= disks[1].remove(temp_file)) by {
            assert(disks[0].remove(temp_file) =~= disks[1].remove(temp_file));
        }
        assert forall|i: int| 0 <= i < rest.len() implies ((
        #[trigger] rest[i]) matches SaveEvent::Serialized(Ok(made)) ==> made@ == text) by {
            assert(rest[i] == events[i + 1]);
        }
        lemma_disk_after_save(next, rest, later, first, text, temp_file, manifest_file);
    }
}

/// A save that succeeds leaves a manifest file with the text that the given manifest was
/// turned into, no temporary file, and every other file as it was. A save that fails leaves
/// every file as it was, the manifest file among them, but for the temporary file.
pub proof fn law_save_replaces_the_file_or_leaves_it(
    start: SaveStage,
    events: Seq<SaveEvent>,
    disks: Seq<Map<Seq<u8>, Seq<char>>>,
)
    requires
        start is PrepareDirectory,
        start->PrepareDirectory_temp_file@ != start->PrepareDirectory_manifest_file@,
        can_follow(start, events),
        disk_can_follow(start, events, disks),
        after_events(start, events) is Finished,
    ensures
        ({
            let manifest_file = start->PrepareDirectory_manifest_file@;
            let temp_file = start->PrepareDirectory_temp_file@;
            match after_events(start, events)->Finished_result {
                Ok(_) => {
                    &&& events.len() == 6
                    &&& start.after(events[0]) matches SaveStage::Serialize { manifest, .. }
                        && manifest == start->PrepareDirectory_manifest
                    &&& events[1] matches SaveEvent::Serialized(Ok(text)) && disks.last()
                        == disks[0].insert(manifest_file, text@).remove(temp_file)
                },
                Err(_) => {
                    &&& same_but_for(disks[0], disks.last(), temp_file)
                    &&& disks[0].dom().contains(manifest_file) == disks.last().dom().contains(
                        manifest_file,
                    )
                    &&& disks[0].dom().contains(manifest_file) ==> disks[0][manifest_file]
                        == disks.last()[manifest_file]
                },
            }
        }),
{
    let temp_file = start->PrepareDirectory_temp_file@;
    let manifest_file = start->PrepareDirectory_manifest_file@;
    let text = if events.len() > 1 {
        events[1]->Serialized_0->Ok_0@
    } else {
        Seq::empty()
    };
    assert(start.awaits(events[0]));
    lemma_one_text(start, events);
    lemma_disk_after_save(start, events, disks, disks[0], text, temp_file, manifest_file);
    let last = disks.last();
    if after_events(start, events)->Finished_result is Ok {
        assert(after_events(start, events)->Finished_result->Ok_0 == ());
        law_saved_only_if_every_stage_succeeds(start, events);
        lemma_length(start, events);
        assert(is_success(events[0]));
        assert(is_success(events[1]));
        let next = start.after(events[0]);
        assert(can_follow(next, events.drop_first()));
        assert(events.drop_first()[0] == events[1]);
        assert(next.awaits(events[1]));
    } else {
        assert(disks[0].remove(temp_file).dom().contains(manifest_file) == last.remove(
            temp_file,
        ).dom().contains(manifest_file));
        assert(disks[0].remove(temp_file)[manifest_file] == last.remove(
            temp_file,
        )[manifest_file]);
    }
}

proof fn lemma_length(stage: SaveStage, events: Seq<SaveEvent>)
    requires
        can_follow(stage, events),
    ensures
        events.len() <= stages_left(stage),
    decreases events.len(),
{
    if events.len() > 0 {
        lemma_length(stage.after(events[0]), events.drop_first());
    }
}

/// The manifest is turned into text once, in the second stage.
proof fn lemma_one_text(start: SaveStage, events: Seq<SaveEvent>)
    requires
        start is PrepareDirectory,
        can_follow(start, events),
    ensures
        forall|i: int| 0 <= i < events.len() && (#[trigger] events[i]) is Serialized ==> i == 1,
{
    lemma_text_at(start, events);
}

proof fn lemma_text_at(stage: SaveStage, events: Seq<SaveEvent>)
    requires
        can_follow(stage, events),
    ensures
        forall|i: int|
            0 <= i < events.len() && (#[trigger] events[i]) is Serialized ==> stages_left(stage)
                - i == 5,
    decreases events.len(),
{
    if events.len() > 0 {
        let next = stage.after(events[0]);
        let rest = events.drop_first();
        assert(can_follow(next, rest));
        lemma_text_at(next, rest);
        if next is Finished {
            lemma_finished_stays(next, rest);
        }
        assert forall|i: int|
            0 <= i < events.len() && (#[trigger] events[i]) is Serialized implies stages_left(
            stage,
        ) - i == 5 by {
            if i > 0 {
                assert(rest[i - 1] is Serialized);
            }
        }
    }
}

/// What was saved is what is loaded: if the text of the given manifest reads as that
/// manifest, so does the manifest file after a save that succeeds, and a manifest with a next
/// number is loaded from it unchanged.
pub proof fn law_saved_manifest_is_read_back(
    start: SaveStage,
    events: Seq<SaveEvent>,
    disks: Seq<Map<Seq<u8>, Seq<char>>>,
    reads_as: spec_fn(Seq<char>) -> Option<VirtualToolManifest>,
)
    requires
        start is PrepareDirectory,
        start->PrepareDirectory_temp_file@ != start->PrepareDirectory_manifest_file@,
        can_follow(start, events),
        disk_can_follow(start, events, disks),
        after_events(start, events) == (SaveStage::Finished { result: Ok(()) }),
        forall|text: String|
            events[1] == SaveEvent::Serialized(Ok(text)) ==> ((#[trigger] reads_as(text@))
                matches Some(read) && read@ == start->PrepareDirectory_manifest@),
    ensures
        ({
            let manifest = start->PrepareDirectory_manifest;
            let file = start->PrepareDirectory_manifest_file@;
            &&& disks.last().dom().contains(file)
            &&& !disks.last().dom().contains(start->PrepareDirectory_temp_file@)
            &&& reads_as(disks.last()[file]) matches Some(read) && read@ == manifest@ && (
            manifest.next_virtual_tool_number != 0 ==> virtual_tools::manifest_of(
                ManifestRead::Parsed(read),
            ) == manifest@)
        }),
{
    law_save_replaces_the_file_or_leaves_it(start, events, disks);
    let text = events[1]->Serialized_0->Ok_0;
    assert(reads_as(text@) is Some);
}

/// The temporary file is in the directory of the manifest file, and it is not the manifest
/// file.
pub proof fn law_temp_manifest_is_beside_the_manifest(cask: WineCask)
    requires
        paths::file_name(cask.virtual_tool_manifest_path@) is Some,
    ensures
        paths::components(cask.temp_manifest_path()).drop_last() == paths::components(
            cask.virtual_tool_manifest_path@,
        ).drop_last(),
        !paths::same_place(cask.temp_manifest_path(), cask.virtual_tool_manifest_path@),
{
    let manifest = cask.virtual_tool_manifest_path@;
    let extension = app::name_bytes("json.tmp"@);
    reveal_strlit("json.tmp");
    assert(vstd::utf8::is_ascii_chars("json.tmp"@));
    vstd::utf8::is_ascii_chars_encode_utf8("json.tmp"@);
    assert(extension.len() == 8);
    assert(extension[4] == "json.tmp"@[4] as u8);
    assert forall|k: int| 0 <= k < extension.len() implies extension[k] != paths::SEPARATOR by {
        assert(extension[k] == "json.tmp"@[k] as u8);
    }
    paths::law_extension_keeps_directory(manifest, extension);
    paths::law_dotted_extension_makes_another_name(manifest, extension, 4);
    assert(paths::components(cask.temp_manifest_path()).drop_last() =~= paths::components(
        manifest,
    ).drop_last());
}

proof fn lemma_last_event(start: SaveStage, events: Seq<SaveEvent>)
    requires
        can_follow(start, events),
        events.len() > 0,
    ensures
        can_follow(start, events.drop_last()),
        after_events(start, events.drop_last()).awaits(events.last()),
        after_events(start, events) == after_events(start, events.drop_last()).after(
            events.last(),
        ),
    decreases events.len(),
{
    let next = start.after(events[0]);
    let rest = events.drop_first();
    assert(can_follow(next, rest));
    if events.len() == 1 {
        assert(after_events(next, rest) == next);
        assert(after_events(start, events.drop_last()) == start);
    } else {
        lemma_last_event(next, rest);
        assert(rest.last() == events.last());
        assert(rest.drop_last() =~= events.drop_last().drop_first());
        assert(events.drop_last()[0] == events[0]);
    }
}

/// A save takes every outcome of its stages, whatever it is, and no other.
pub proof fn law_every_outcome_is_taken(stage: SaveStage, event: SaveEvent)
    ensures
        stage.awaits(event) <==> {
            ||| stage is PrepareDirectory && event is DirectoryPrepared
            ||| stage is Serialize && event is Serialized
            ||| stage is CreateTempFile && event is TempFileCreated
            ||| stage is WriteTempFile && event is TempFileWritten
            ||| stage is FlushTempFile && event is TempFileFlushed
            ||| stage is ReplaceManifest && event is ManifestReplaced
        },
{
}

/// At every point of a save, what is serialized is the manifest that is to be saved, what is
/// written is the text that it was turned into, and the files are those that the save began
/// with.
pub proof fn law_save_keeps_to_its_manifest_and_files(start: SaveStage, events: Seq<SaveEvent>)
    requires
        start is PrepareDirectory,
        can_follow(start, events),
    ensures
        ({
            let temp = start->PrepareDirectory_temp_file;
            let file = start->PrepareDirectory_manifest_file;
            match after_events(start, events) {
                SaveStage::PrepareDirectory { manifest, directory, temp_file, manifest_file } => {
                    &&& events.len() == 0
                    &&& manifest == start->PrepareDirectory_manifest
                    &&& directory == start->PrepareDirectory_directory
                    &&& temp_file == temp
                    &&& manifest_file == file
                },
                SaveStage::Serialize { manifest, temp_file, manifest_file } => {
                    &&& events.len() == 1
                    &&& manifest == start->PrepareDirectory_manifest
                    &&& temp_file == temp
                    &&& manifest_file == file
                },
                SaveStage::CreateTempFile { text, temp_file, manifest_file } => {
                    &&& events.len() == 2
                    &&& events[1] == SaveEvent::Serialized(Ok(text))
                    &&& temp_file == temp
                    &&& manifest_file == file
                },
                SaveStage::WriteTempFile { text, temp_file, manifest_file } => {
                    &&& events.len() == 3
                    &&& events[1] == SaveEvent::Serialized(Ok(text))
                    &&& temp_file == temp
                    &&& manifest_file == file
                },
                SaveStage::FlushTempFile { temp_file, manifest_file } => {
                    &&& events.len() == 4
                    &&& temp_file == temp
                    &&& manifest_file == file
                },
                SaveStage::ReplaceManifest { temp_file, manifest_file } => {
                    &&& events.len() == 5
                    &&& temp_file == temp
                    &&& manifest_file == file
                },
                SaveStage::Finished { .. } => events.len() > 0,
            }
        }),
    decreases events.len(),
{
    if events.len() > 0 {
        let prior = events.drop_last();
        lemma_last_event(start, events);
        law_save_keeps_to_its_manifest_and_files(start, prior);
        if prior.len() > 1 {
            assert(prior[1] == events[1]);
        }
    }
}

/// The text that a stage is about to write.
pub open spec fn text_of(stage: SaveStage) -> Option<String> {
    match stage {
        SaveStage::CreateTempFile { text, .. } => Some(text),
        SaveStage::WriteTempFile { text, .. } => Some(text),
        _ => None,
    }
}

/// What the last outcome of a save leads to: a failure ends it with that failure, and
/// anything else leads to the next piece of work, up to the end.
pub proof fn law_save_goes_on_or_ends(start: SaveStage, events: Seq<SaveEvent>)
    requires
        can_follow(start, events),
        events.len() > 0,
    ensures
        ({
            let stage = after_events(start, events);
            match events.last() {
                SaveEvent::DirectoryPrepared(Ok(_)) => stage is Serialize,
                SaveEvent::DirectoryPrepared(Err(error)) => stage == (SaveStage::Finished {
                    result: Err(SaveFailure::PrepareDirectory { error }),
                }),
                SaveEvent::Serialized(Ok(_)) => stage is CreateTempFile,
                SaveEvent::Serialized(Err(error)) => stage == (SaveStage::Finished {
                    result: Err(SaveFailure::Serialize { error }),
                }),
                SaveEvent::TempFileCreated(Ok(_)) => stage is WriteTempFile,
                SaveEvent::TempFileCreated(Err(error)) => stage == (SaveStage::Finished {
                    result: Err(SaveFailure::CreateTempFile { error }),
                }),
                SaveEvent::TempFileWritten(Ok(_)) => stage is FlushTempFile,
                SaveEvent::TempFileWritten(Err(error)) => stage == (SaveStage::Finished {
                    result: Err(SaveFailure::WriteTempFile { error }),
                }),
                SaveEvent::TempFileFlushed(Ok(_)) => stage is ReplaceManifest,
                SaveEvent::TempFileFlushed(Err(error)) => stage == (SaveStage::Finished {
                    result: Err(SaveFailure::FlushTempFile { error }),
                }),
                SaveEvent::ManifestReplaced(Ok(_)) => stage == (SaveStage::Finished {
                    result: Ok(()),
                }),
                SaveEvent::ManifestReplaced(Err(error)) => stage == (SaveStage::Finished {
                    result: Err(SaveFailure::ReplaceManifest { error }),
                }),
            }
        }),
        ({
            let before = after_events(start, events.drop_last());
            let stage = after_events(start, events);
            &&& files_of(stage) is Some ==> files_of(stage) == files_of(before)
            &&& events.last() matches SaveEvent::Serialized(Ok(text)) ==> text_of(stage) == Some(
                text,
            )
            &&& stage is WriteTempFile ==> text_of(stage) == text_of(before)
            &&& stage is Serialize ==> stage->Serialize_manifest
                == before->PrepareDirectory_manifest
        }),
{
    lemma_last_event(start, events);
}

/// The user is told which part of a save failed, with the whole error.
pub proof fn law_failures_say_it_all(error: String)
    ensures
        SaveFailure::NoParent.text() == "Failed to resolve virtual tool manifest parent"@,
        (SaveFailure::PrepareDirectory { error }).text()
            == "Failed to prepare virtual tool manifest directory: "@ + error@,
        (SaveFailure::Serialize { error }).text() == "Failed to serialize virtual tool manifest: "@
            + error@,
        (SaveFailure::CreateTempFile { error }).text()
            == "Failed to create virtual tool manifest temp file: "@ + error@,
        (SaveFailure::WriteTempFile { error }).text()
            == "Failed to write virtual tool manifest temp file: "@ + error@,
        (SaveFailure::FlushTempFile { error }).text()
            == "Failed to flush virtual tool manifest temp file: "@ + error@,
        (SaveFailure::ReplaceManifest { error }).text()
            == "Failed to persist virtual tool manifest: "@ + error@,
{
}

/// A save begins with the whole manifest, replaces the manifest file, and first prepares the
/// directory of that file, for a temporary file in the same directory that is called after
/// the manifest file and is not that file. It ends at once exactly when the manifest file has
/// no directory.
pub proof fn law_save_begins_beside_the_manifest(
    cask: WineCask,
    stage: SaveStage,
    saved: ManifestView,
)
    requires
        cask.is_save_of(stage, saved),
    ensures
        ({
            let path = cask.virtual_tool_manifest_path@;
            &&& stage == (SaveStage::Finished { result: Err(SaveFailure::NoParent) }) <==>
                paths::parent(path) is None
            &&& stage is PrepareDirectory <==> paths::parent(path) is Some
            &&& stage matches SaveStage::PrepareDirectory {
                manifest,
                directory,
                temp_file,
                manifest_file,
            } ==> {
                &&& manifest@ == saved
                &&& paths::components(directory@) == paths::components(path).drop_last()
                &&& manifest_file@ == path
                &&& paths::file_name(path) is Some ==> {
                    let name = paths::file_name(path)->0;
                    let stem = name.take(paths::stem_length(name));
                    &&& paths::components(temp_file@) == paths::components(directory@).push(
                        paths::ComponentView::Normal(
                            stem.push(paths::DOT) + app::name_bytes("json.tmp"@),
                        ),
                    )
                    &&& !paths::same_place(temp_file@, path)
                }
            }
        }),
{
    let path = cask.virtual_tool_manifest_path@;
    if paths::parent(path) is Some {
        paths::law_parent_drops_last_component(path);
        if paths::file_name(path) is Some {
            law_temp_manifest_is_beside_the_manifest(cask);
            let extension = app::name_bytes("json.tmp"@);
            reveal_strlit("json.tmp");
            assert(vstd::utf8::is_ascii_chars("json.tmp"@));
            vstd::utf8::is_ascii_chars_encode_utf8("json.tmp"@);
            assert forall|k: int| 0 <= k < extension.len() implies extension[k]
                != paths::SEPARATOR by {
                assert(extension[k] == "json.tmp"@[k] as u8);
            }
            paths::law_extension_keeps_directory(path, extension);
        }
    }
}

} // verus!
