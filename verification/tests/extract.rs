use wine_cellar::wine_cask::app::{InstallTarget, OperationState};
use wine_cellar::wine_cask::archive::CompressionType;
use wine_cellar::wine_cask::extract::{
    find_extracted_tool, ExtractEvent, ExtractStage, ExtractedEntry,
    UnpackOutcome,
};
use wine_cellar::wine_cask::outcome::{InstallFailure, InstallSuccess, UnpackFailure};
use wine_cellar::wine_cask::unpack::{
    safe_unpack_tar, Decoder, EntryPath, UnpackEvent, UnpackStage,
};

fn step(stage: ExtractStage, event: ExtractEvent) -> ExtractStage {
    step_to(stage, &InstallTarget::Direct, event)
}

fn step_to(stage: ExtractStage, target: &InstallTarget, event: ExtractEvent) -> ExtractStage {
    assert!(stage.expects(&event));
    stage.advance(target, event)
}

fn entry(path: &str, is_directory: Option<bool>, has_vdf: bool) -> ExtractedEntry {
    ExtractedEntry::Readable {
        path: path.as_bytes().to_vec(),
        is_directory,
        has_vdf,
    }
}

fn start() -> ExtractStage {
    ExtractStage::CheckBeforeUnpacking {
        compression_type: CompressionType::Gzip,
        temp_directory: b"/temp".to_vec(),
        archive_file: b"/temp/a.tar.gz".to_vec(),
    }
}

fn failure_of(stage: ExtractStage) -> String {
    match stage {
        ExtractStage::Finished { result: Err(failure) } => failure.message(),
        _ => panic!("the installation has not failed"),
    }
}

fn unpacking() -> ExtractStage {
    let stage = step(start(), ExtractEvent::CancelChecked(false));
    match &stage {
        ExtractStage::Report { state, progress, .. } => {
            assert_eq!(*state, OperationState::Extracting);
            assert_eq!(*progress, 0);
            assert_eq!(stage.reported(), Some((OperationState::Extracting, 0)));
        }
        _ => panic!("nothing is reported"),
    }
    step(stage, ExtractEvent::Reported)
}

fn unpacked() -> ExtractStage {
    let stage = step(unpacking(), ExtractEvent::Unpacked(UnpackOutcome::Ended(Ok(()))));
    match &stage {
        ExtractStage::DeleteArchive { archive_file, .. } => {
            assert_eq!(*archive_file, b"/temp/a.tar.gz".to_vec())
        }
        _ => panic!("the archive is kept"),
    }
    step(stage, ExtractEvent::ArchiveDeleted(Err("busy".to_string())))
}

fn listing() -> ExtractStage {
    step(unpacked(), ExtractEvent::CancelChecked(false))
}

fn found() -> ExtractStage {
    step(
        listing(),
        ExtractEvent::Listed(Ok(vec![
            entry("/temp/file", Some(false), true),
            entry("/temp/tool", Some(true), true),
        ])),
    )
}

fn entries() -> Vec<ExtractedEntry> {
    vec![
        ExtractedEntry::Unreadable,
        entry("/temp/1", None, true),
        entry("/temp/2", Some(false), true),
        entry("/temp/3", Some(true), false),
        entry("/temp/4", Some(true), true),
        entry("/temp/5", Some(true), true),
    ]
}

#[test]
fn first_readable_directory_with_a_tool_is_found() {
    assert_eq!(find_extracted_tool(entries()), Some(b"/temp/4".to_vec()));
    let mut without = entries();
    without.truncate(4);
    assert_eq!(find_extracted_tool(without), None);
}

#[test]
fn cancellation_ends_the_extraction_at_each_check() {
    for stage in [start(), unpacked(), found()] {
        assert_eq!(
            failure_of(step(stage, ExtractEvent::CancelChecked(true))),
            "Installation cancelled"
        );
    }
}

#[test]
fn failed_extraction_is_reported() {
    assert_eq!(
        failure_of(step(
            unpacking(),
            ExtractEvent::Unpacked(UnpackOutcome::TaskFailed("panic".to_string()))
        )),
        "Extraction task failed: panic"
    );
    assert_eq!(
        failure_of(step(
            unpacking(),
            ExtractEvent::Unpacked(UnpackOutcome::Ended(Err(UnpackFailure::UnsafePath {
                path: "../x".to_string()
            })))
        )),
        "Installation failed: Unsafe archive entry path detected: ../x"
    );
    assert_eq!(
        failure_of(step(listing(), ExtractEvent::Listed(Err("gone".to_string())))),
        "Failed to read extraction directory: gone"
    );
    assert_eq!(
        failure_of(step(listing(), ExtractEvent::Listed(Ok(Vec::new())))),
        "Failed to find the extracted compatibility tool contents"
    );
}

#[test]
fn extraction_goes_where_the_target_says() {
    let direct = step(found(), ExtractEvent::CancelChecked(false));
    match &direct {
        ExtractStage::InstallDirect { extracted_directory } => {
            assert_eq!(*extracted_directory, b"/temp/tool".to_vec())
        }
        _ => panic!("nothing is installed"),
    }
    let target = InstallTarget::VirtualTool {
        virtual_tool_id: "virtual-2".to_string(),
    };
    match step_to(found(), &target, ExtractEvent::CancelChecked(false)) {
        ExtractStage::InstallVirtual { extracted_directory, virtual_tool_id } => {
            assert_eq!(extracted_directory, b"/temp/tool".to_vec());
            assert_eq!(virtual_tool_id, "virtual-2");
        }
        _ => panic!("nothing is mounted"),
    }
    let success = InstallSuccess::Completed {
        tag_name: "t".to_string(),
    };
    match step(direct, ExtractEvent::Installed(Ok(success))) {
        ExtractStage::Finished { result: Ok(success) } => {
            assert_eq!(success.message(), "Installation completed: t")
        }
        _ => panic!("the installation has not succeeded"),
    }
}

fn open_stage(compression_type: CompressionType) -> UnpackStage {
    safe_unpack_tar(compression_type, b"/temp/a.tar.gz".to_vec(), b"/temp".to_vec())
}

#[test]
fn archive_is_unpacked_where_it_was_downloaded() {
    match unpacking().unpacking() {
        Some(UnpackStage::Open { compression_type, archive_file, destination }) => {
            assert_eq!(compression_type, CompressionType::Gzip);
            assert_eq!(archive_file, b"/temp/a.tar.gz".to_vec());
            assert_eq!(destination, b"/temp".to_vec());
        }
        _ => panic!("nothing is unpacked"),
    }
    assert!(start().unpacking().is_none());
}

fn unpack_step(stage: UnpackStage, event: UnpackEvent) -> UnpackStage {
    assert!(stage.expects(&event));
    stage.advance(event)
}

fn unpack_failure(stage: UnpackStage) -> String {
    match stage {
        UnpackStage::Finished { result: Err(failure) } => failure.message(),
        _ => panic!("unpacking has not failed"),
    }
}

fn resolved(path: &str) -> UnpackEvent {
    UnpackEvent::PathResolved(Ok(EntryPath {
        bytes: path.as_bytes().to_vec(),
        shown: path.to_string(),
    }))
}

#[test]
fn archive_is_read_as_it_is_compressed() {
    let gzip = unpack_step(open_stage(CompressionType::Gzip), UnpackEvent::Opened(Ok(())));
    assert!(matches!(gzip, UnpackStage::ReadEntries { decoder: Decoder::Gzip, .. }));
    let xz = unpack_step(open_stage(CompressionType::Xz), UnpackEvent::Opened(Ok(())));
    assert!(matches!(xz, UnpackStage::ReadEntries { decoder: Decoder::Xz, .. }));
    let unknown = unpack_step(
        open_stage(CompressionType::Unknown),
        UnpackEvent::Opened(Ok(())),
    );
    assert_eq!(unpack_failure(unknown), "Unsupported archive compression type");
    let missing = unpack_step(
        open_stage(CompressionType::Unknown),
        UnpackEvent::Opened(Err("missing".to_string())),
    );
    assert_eq!(unpack_failure(missing), "Failed to open temporary archive: missing");
}

#[test]
fn safe_entries_are_unpacked_to_the_end() {
    let mut stage = unpack_step(open_stage(CompressionType::Gzip), UnpackEvent::Opened(Ok(())));
    stage = unpack_step(stage, UnpackEvent::EntriesRead(Ok(())));
    for path in ["tool/", "tool/./compatibilitytool.vdf", "tool/..a"] {
        stage = unpack_step(stage, UnpackEvent::EntryRead(Some(Ok(()))));
        stage = unpack_step(stage, resolved(path));
        match &stage {
            UnpackStage::UnpackEntry { destination } => {
                assert_eq!(*destination, b"/temp".to_vec())
            }
            _ => panic!("the entry is not unpacked"),
        }
        stage = unpack_step(stage, UnpackEvent::EntryUnpacked(Ok(())));
    }
    stage = unpack_step(stage, UnpackEvent::EntryRead(None));
    assert!(matches!(stage, UnpackStage::Finished { result: Ok(()) }));
}

#[test]
fn unsafe_entry_ends_the_unpacking() {
    for path in ["../evil", "/etc/evil", "a/../../evil"] {
        assert_eq!(
            unpack_failure(unpack_step(UnpackStage::ResolvePath { destination: b"/temp".to_vec() }, resolved(path))),
            format!("Unsafe archive entry path detected: {}", path)
        );
    }
}

#[test]
fn broken_archives_are_reported() {
    let error = || "bad".to_string();
    assert_eq!(
        unpack_failure(unpack_step(
            UnpackStage::ReadEntries {
                decoder: Decoder::Xz,
                destination: b"/temp".to_vec()
            },
            UnpackEvent::EntriesRead(Err(error()))
        )),
        "Failed to read tar entries: bad"
    );
    assert_eq!(
        unpack_failure(unpack_step(
            UnpackStage::ReadEntry { destination: b"/temp".to_vec() },
            UnpackEvent::EntryRead(Some(Err(error())))
        )),
        "Failed to process tar entry: bad"
    );
    assert_eq!(
        unpack_failure(unpack_step(
            UnpackStage::ResolvePath { destination: b"/temp".to_vec() },
            UnpackEvent::PathResolved(Err(error()))
        )),
        "Failed to resolve tar entry path: bad"
    );
    assert_eq!(
        unpack_failure(unpack_step(
            UnpackStage::UnpackEntry { destination: b"/temp".to_vec() },
            UnpackEvent::EntryUnpacked(Err(error()))
        )),
        "Failed to unpack archive entry: bad"
    );
}

#[test]
fn failures_have_their_own_messages() {
    let cases = [
        (InstallFailure::MissingParent, "Missing temporary extraction parent directory"),
        (InstallFailure::UnresolvedName, "Failed to resolve extracted compatibility tool name"),
        (InstallFailure::SlotGone, "Virtual compatibility tool no longer exists"),
        (
            InstallFailure::RecordPayload { error: "Virtual tool not found".to_string() },
            "Virtual tool not found",
        ),
    ];
    for (failure, message) in cases {
        assert_eq!(failure.message(), message);
    }
}
