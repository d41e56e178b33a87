use wine_cellar::github_util::{Asset, Release};
use wine_cellar::wine_cask::app::{InstallTarget, OperationState, WineCask};
use wine_cellar::wine_cask::archive::CompressionType;
use wine_cellar::wine_cask::extract::ExtractStage;
use wine_cellar::wine_cask::flavors::{CatalogRelease, CompatibilityToolFlavor};
use wine_cellar::wine_cask::install::{
    Chunk, DownloadResponse, InstallEvent, InstallNotice, InstallStage,
};
use wine_cellar::wine_cask::outcome::{InstallFailure, InstallSuccess};

fn catalog_release(name: &str) -> CatalogRelease {
    CatalogRelease {
        id: "ge-1".to_string(),
        flavor: CompatibilityToolFlavor::ProtonGE,
        flavor_name: "Proton GE".to_string(),
        release: Release {
            url: String::new(),
            id: 1,
            draft: false,
            prerelease: false,
            name: "Release".to_string(),
            tag_name: "GE-Proton11-1".to_string(),
            assets: vec![Asset {
                url: String::new(),
                id: 1,
                name: name.to_string(),
                content_type: "application/octet-stream".to_string(),
                state: "uploaded".to_string(),
                size: 1,
                download_count: 0,
                created_at: String::new(),
                updated_at: String::new(),
                browser_download_url: "https://example.com/file".to_string(),
            }],
            created_at: String::new(),
            published_at: String::new(),
            tarball_url: String::new(),
            body: String::new(),
        },
    }
}

fn start() -> InstallStage {
    let cask = WineCask {
        compatibility_tools_directory: b"/tools".to_vec(),
        virtual_tool_manifest_path: b"/data/virtual_tools.json".to_vec(),
    };
    cask.install_catalog_release("ge-1".to_string(), InstallTarget::Direct)
}

fn step(stage: InstallStage, event: InstallEvent) -> InstallStage {
    assert!(stage.expects(&event));
    stage.advance(event)
}

fn answered(status: u16, content_length: Option<u64>) -> InstallEvent {
    InstallEvent::Responded(DownloadResponse::Answered {
        status,
        content_length,
    })
}

fn requested() -> InstallStage {
    let stage = step(start(), InstallEvent::LookedUp(Some(catalog_release("a.tar.xz"))));
    assert!(matches!(stage, InstallStage::ReportStart { .. }));
    assert_eq!(stage.reported(), Some((OperationState::Downloading, 0)));
    assert_eq!(stage.reported_share(), None);
    let stage = step(stage, InstallEvent::Reported);
    match &stage {
        InstallStage::PrepareTemp { staging_root, .. } => {
            assert_eq!(*staging_root, b"/tools/.wine-cellar-staging".to_vec())
        }
        _ => panic!("no directory is prepared"),
    }
    let stage = step(stage, InstallEvent::TempPrepared(Some(b"/temp".to_vec())));
    step(stage, InstallEvent::ArchiveCreated(Ok(())))
}

fn receiving(total: Option<u64>) -> InstallStage {
    step(requested(), answered(200, total))
}

fn data(length: u64) -> InstallEvent {
    InstallEvent::ChunkRead(Some(Chunk::Data { length }))
}

fn abandoned_with(stage: InstallStage) -> String {
    match &stage {
        InstallStage::CleanUp { temp_directory, pending: Some(_) } => {
            assert_eq!(*temp_directory, b"/temp".to_vec())
        }
        _ => panic!("nothing is cleaned up"),
    }
    let stage = step(stage, InstallEvent::CleanedUp);
    told(stage)
}

fn told(stage: InstallStage) -> String {
    let message = match &stage {
        InstallStage::Notify { notice, clean_up } => {
            assert!(clean_up.is_none());
            notice.message()
        }
        _ => panic!("nobody is told"),
    };
    assert!(matches!(step(stage, InstallEvent::Notified), InstallStage::Finished));
    message
}

#[test]
fn missing_release_is_refused() {
    assert_eq!(
        told(step(start(), InstallEvent::LookedUp(None))),
        "Requested release is no longer available"
    );
}

#[test]
fn release_without_archive_is_refused() {
    assert_eq!(
        told(step(start(), InstallEvent::LookedUp(Some(catalog_release("a.zip"))))),
        "Error: No supported compressed archive found for this release"
    );
}

#[test]
fn missing_temp_directory_is_refused() {
    let stage = step(start(), InstallEvent::LookedUp(Some(catalog_release("a.tar.gz"))));
    let stage = step(stage, InstallEvent::Reported);
    assert_eq!(
        told(step(stage, InstallEvent::TempPrepared(None))),
        "Failed to prepare temporary install directory"
    );
}

#[test]
fn plan_names_what_is_downloaded() {
    match requested() {
        InstallStage::SendRequest { job } => {
            assert_eq!(job.archive_file(), b"/temp/download.tar.xz".to_vec());
            let plan = job.plan;
            assert_eq!(plan.download.url, "https://example.com/file");
            assert_eq!(plan.download.compression_type, CompressionType::Xz);
            assert_eq!(plan.catalog_release.id, "ge-1");
            assert!(matches!(plan.target, InstallTarget::Direct));
        }
        _ => panic!("nothing is requested"),
    }
}

#[test]
fn archive_file_that_cannot_be_created_ends_the_installation() {
    let stage = step(start(), InstallEvent::LookedUp(Some(catalog_release("a.tar.gz"))));
    let stage = step(stage, InstallEvent::Reported);
    let stage = step(stage, InstallEvent::TempPrepared(Some(b"/temp".to_vec())));
    assert_eq!(
        abandoned_with(step(stage, InstallEvent::ArchiveCreated(Err("full".to_string())))),
        "Failed to create temporary archive file: full"
    );
}

#[test]
fn failed_request_ends_the_installation() {
    assert_eq!(
        abandoned_with(step(
            requested(),
            InstallEvent::Responded(DownloadResponse::Unreachable)
        )),
        "Connection error: Unable to start compatibility tool download"
    );
    for status in [199, 300, 404, 500] {
        assert_eq!(
            abandoned_with(step(requested(), answered(status, None))),
            "Connection error: Download failed"
        );
    }
    for status in [200, 206, 299] {
        assert!(matches!(
            step(requested(), answered(status, None)),
            InstallStage::ReadChunk { .. }
        ));
    }
}

#[test]
fn cancelled_download_is_cleaned_up() {
    let stage = step(receiving(None), data(10));
    assert_eq!(
        abandoned_with(step(stage, InstallEvent::CancelChecked(true))),
        "Installation cancelled"
    );
}

#[test]
fn cancellation_comes_before_a_broken_connection() {
    let broken = step(receiving(None), InstallEvent::ChunkRead(Some(Chunk::Broken)));
    assert_eq!(
        abandoned_with(step(broken, InstallEvent::CancelChecked(true))),
        "Installation cancelled"
    );
    let broken = step(receiving(None), InstallEvent::ChunkRead(Some(Chunk::Broken)));
    assert_eq!(
        abandoned_with(step(broken, InstallEvent::CancelChecked(false))),
        "Connection error: Download interrupted"
    );
}

#[test]
fn storage_errors_end_the_installation() {
    let stage = step(receiving(None), data(10));
    let stage = step(stage, InstallEvent::CancelChecked(false));
    assert_eq!(
        abandoned_with(step(stage, InstallEvent::ChunkWritten(false))),
        "Storage error: Failed to write compatibility tool archive"
    );
    let stage = step(receiving(None), InstallEvent::ChunkRead(None));
    assert_eq!(
        abandoned_with(step(stage, InstallEvent::ArchiveFlushed(false))),
        "Storage error: Failed to finalize compatibility tool archive"
    );
}

#[test]
fn every_byte_is_counted() {
    let mut stage = receiving(Some(30));
    let lengths: [u64; 3] = [10, 0, 15];
    let mut sum: u64 = 0;
    for length in lengths {
        stage = step(stage, data(length));
        stage = step(stage, InstallEvent::CancelChecked(false));
        stage = step(stage, InstallEvent::ChunkWritten(true));
        sum += length;
        match &stage {
            InstallStage::ReportProgress { transfer, total, .. } => {
                assert_eq!(transfer.downloaded, sum);
                assert_eq!(*total, 30);
                assert_eq!(
                    stage.reported_share(),
                    Some((OperationState::Downloading, sum, 30))
                );
                assert_eq!(stage.reported(), None);
            }
            _ => panic!("no progress is reported"),
        }
        stage = step(stage, InstallEvent::Reported);
    }
    assert!(matches!(stage, InstallStage::ReadChunk { .. }));
}

#[test]
fn progress_needs_a_known_size() {
    for total in [None, Some(0u64)] {
        let stage = step(receiving(total), data(10));
        let stage = step(stage, InstallEvent::CancelChecked(false));
        let stage = step(stage, InstallEvent::ChunkWritten(true));
        match stage {
            InstallStage::ReadChunk { transfer, .. } => assert_eq!(transfer.downloaded, 10),
            _ => panic!("the download does not go on"),
        }
    }
}

#[test]
fn count_of_bytes_does_not_overflow() {
    let stage = step(receiving(None), data(u64::MAX));
    let stage = step(stage, InstallEvent::CancelChecked(false));
    let stage = step(stage, InstallEvent::ChunkWritten(true));
    let stage = step(stage, data(1));
    let stage = step(stage, InstallEvent::CancelChecked(false));
    assert!(!stage.expects(&InstallEvent::ChunkWritten(true)));
    assert_eq!(
        abandoned_with(step(stage, InstallEvent::ChunkWritten(false))),
        "Storage error: Failed to write compatibility tool archive"
    );
}

fn extracting() -> InstallStage {
    let stage = step(receiving(None), InstallEvent::ChunkRead(None));
    step(stage, InstallEvent::ArchiveFlushed(true))
}

#[test]
fn success_is_shown_before_the_clean_up() {
    let success = InstallSuccess::Completed {
        tag_name: "GE-Proton11-1".to_string(),
    };
    let stage = step(extracting(), InstallEvent::Extracted(Ok(success)));
    assert!(matches!(stage, InstallStage::SyncState { .. }));
    let stage = step(stage, InstallEvent::StateSynced);
    let stage = step(stage, InstallEvent::StateBroadcast);
    match &stage {
        InstallStage::Notify { notice, clean_up } => {
            assert_eq!(*clean_up, Some(b"/temp".to_vec()));
            assert_eq!(notice.message(), "Installation completed: GE-Proton11-1");
        }
        _ => panic!("nobody is told"),
    }
    let stage = step(stage, InstallEvent::Notified);
    assert!(matches!(stage, InstallStage::CleanUp { pending: None, .. }));
    assert!(matches!(step(stage, InstallEvent::CleanedUp), InstallStage::Finished));
}

#[test]
fn failed_extraction_changes_no_state() {
    let stage = step(
        extracting(),
        InstallEvent::Extracted(Err(InstallFailure::NoToolFound)),
    );
    match &stage {
        InstallStage::Notify { notice, clean_up } => {
            assert_eq!(*clean_up, Some(b"/temp".to_vec()));
            assert!(matches!(notice, InstallNotice::NotInstalled { .. }));
            assert_eq!(
                notice.message(),
                "Failed to find the extracted compatibility tool contents"
            );
        }
        _ => panic!("nobody is told"),
    }
    let stage = step(stage, InstallEvent::Notified);
    assert!(matches!(step(stage, InstallEvent::CleanedUp), InstallStage::Finished));
}

#[test]
fn stage_does_not_take_the_outcome_of_another() {
    assert!(!start().expects(&InstallEvent::Notified));
    assert!(!InstallStage::Finished.expects(&InstallEvent::CleanedUp));
}

#[test]
fn extraction_works_on_what_was_downloaded() {
    match extracting() {
        InstallStage::Extract { job } => match job.extract_and_install() {
            ExtractStage::CheckBeforeUnpacking { compression_type, temp_directory, archive_file } => {
                assert_eq!(compression_type, CompressionType::Xz);
                assert_eq!(temp_directory, b"/temp".to_vec());
                assert_eq!(archive_file, b"/temp/download.tar.xz".to_vec());
            }
            _ => panic!("the extraction does not start"),
        },
        _ => panic!("nothing is extracted"),
    }
}
