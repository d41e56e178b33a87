//! Downloading and installing a release from the catalog.
use crate::paths;
use crate::text;
use crate::wine_cask::app;
use crate::wine_cask::app::{InstallTarget, OperationState, WineCask};
use crate::wine_cask::archive;
use crate::wine_cask::archive::DownloadPlan;
use crate::wine_cask::flavors::CatalogRelease;
use crate::wine_cask::outcome::{InstallFailure, InstallSuccess};
use vstd::prelude::*;
use vstd::string::*;

verus! {

broadcast use vstd::string::group_string_axioms;

/// What is installed, where it goes, and what is downloaded for it.
pub struct InstallPlan {
    pub catalog_release: CatalogRelease,
    pub target: InstallTarget,
    pub download: DownloadPlan,
}

/// An installation that has a directory to work in.
pub struct InstallJob {
    pub plan: InstallPlan,
    /// The directory that the installation works in.
    pub temp_directory: Vec<u8>,
}

impl InstallJob {
    /// The file that the archive is downloaded to.
    pub open spec fn archive_path(self) -> Seq<u8> {
        paths::joined(
            self.temp_directory@,
            app::name_bytes(archive::archive_name(self.plan.download.compression_type)),
        )
    }

    /// The file that the archive is downloaded to.
    pub fn archive_file(&self) -> (r: Vec<u8>)
        ensures
            r@ == self.archive_path(),
    {
        paths::join_path(
            self.temp_directory.as_slice(),
            archive::download_archive_name(&self.plan.download.compression_type).as_bytes(),
        )
    }
}

/// How far a download is.
#[derive(Clone, Copy, Debug, PartialEq, Eq, Structural)]
pub struct Transfer {
    /// How many bytes have been written.
    pub downloaded: u64,
    /// How many bytes there are, where the server says so.
    pub total: Option<u64>,
}

/// A piece of a download that arrived, or that was to arrive when the connection broke.
#[derive(Clone, Copy, Debug, PartialEq, Eq, Structural)]
pub enum Chunk {
    Data { length: u64 },
    Broken,
}

/// The answer to a download request.
#[derive(Clone, Copy, Debug, PartialEq, Eq, Structural)]
pub enum DownloadResponse {
    /// There is no answer.
    Unreachable,
    /// There is an answer, with this status and, where the server says so, this length.
    Answered { status: u16, content_length: Option<u64> },
}

/// Does an HTTP status say that the request succeeded?
pub open spec fn is_success(status: u16) -> bool {
    200 <= status < 300
}

/// What the user is told at the end of an installation.
#[derive(Debug)]
pub enum InstallNotice {
    ReleaseUnavailable,
    NoArchive,
    TempDirectoryFailed,
    ArchiveFileFailed { error: String },
    RequestFailed,
    DownloadFailed,
    Cancelled,
    Interrupted,
    WriteFailed,
    FlushFailed,
    Installed { success: InstallSuccess },
    NotInstalled { failure: InstallFailure },
}

/// What is to be done next to install a release.
pub enum InstallStage {
    /// Look the release up in the catalog.
    LookUp { release_id: String, target: InstallTarget, staging_root: Vec<u8> },
    /// Report that the download starts, see `reported`.
    ReportStart { plan: InstallPlan, staging_root: Vec<u8> },
    /// Prepare a temporary directory in `staging_root`.
    PrepareTemp { plan: InstallPlan, staging_root: Vec<u8> },
    /// Create the file that the archive is downloaded to, `job.archive_file()`.
    CreateArchive { job: InstallJob },
    /// Request the archive from `job.plan.download.url`.
    SendRequest { job: InstallJob },
    /// Read the next piece of the download.
    ReadChunk { job: InstallJob, transfer: Transfer },
    /// Look whether the operation is being cancelled, now that `chunk` arrived.
    CheckCancelled { job: InstallJob, transfer: Transfer, chunk: Chunk },
    /// Write the piece that arrived.
    WriteChunk { job: InstallJob, transfer: Transfer, length: u64 },
    /// Report how far the download is, see `reported_share`.
    ReportProgress { job: InstallJob, transfer: Transfer, total: u64 },
    /// Flush the archive to disk.
    FlushArchive { job: InstallJob },
    /// Extract the archive and install what is in it, see `InstallJob::extract_and_install`.
    Extract { job: InstallJob },
    /// Bring the state of the backend up to date.
    SyncState { success: InstallSuccess, temp_directory: Vec<u8> },
    /// Show all users the state of the backend.
    BroadcastState { success: InstallSuccess, temp_directory: Vec<u8> },
    /// Tell the user how the installation ended, and clean up the directory `clean_up`
    /// afterwards.
    Notify { notice: InstallNotice, clean_up: Option<Vec<u8>> },
    /// Remove the temporary directory, and tell the user `pending` afterwards.
    CleanUp { temp_directory: Vec<u8>, pending: Option<InstallNotice> },
    /// Nothing: the installation has ended.
    Finished,
}

/// What came of a stage.
pub enum InstallEvent {
    LookedUp(Option<CatalogRelease>),
    Reported,
    /// The temporary directory, if there is one now.
    TempPrepared(Option<Vec<u8>>),
    ArchiveCreated(Result<(), String>),
    Responded(DownloadResponse),
    /// The piece that was read; there is none at the end of the download.
    ChunkRead(Option<Chunk>),
    /// Is the operation being cancelled?
    CancelChecked(bool),
    /// Was the piece written?
    ChunkWritten(bool),
    /// Was the archive flushed?
    ArchiveFlushed(bool),
    Extracted(Result<InstallSuccess, InstallFailure>),
    StateSynced,
    StateBroadcast,
    Notified,
    CleanedUp,
}

impl InstallNotice {
    /// What the user is told.
    pub open spec fn text(self) -> Seq<char> {
        match self {
            InstallNotice::ReleaseUnavailable => "Requested release is no longer available"@,
            InstallNotice::NoArchive =>
                "Error: No supported compressed archive found for this release"@,
            InstallNotice::TempDirectoryFailed => "Failed to prepare temporary install directory"@,
            InstallNotice::ArchiveFileFailed { error } =>
                "Failed to create temporary archive file: "@ + error@,
            InstallNotice::RequestFailed =>
                "Connection error: Unable to start compatibility tool download"@,
            InstallNotice::DownloadFailed => "Connection error: Download failed"@,
            InstallNotice::Cancelled => "Installation cancelled"@,
            InstallNotice::Interrupted => "Connection error: Download interrupted"@,
            InstallNotice::WriteFailed =>
                "Storage error: Failed to write compatibility tool archive"@,
            InstallNotice::FlushFailed =>
                "Storage error: Failed to finalize compatibility tool archive"@,
            InstallNotice::Installed { success } => success.text(),
            InstallNotice::NotInstalled { failure } => failure.text(),
        }
    }

    /// What the user is told.
    pub fn message(&self) -> (r: String)
        ensures
            r@ == self.text(),
    {
        match self {
            InstallNotice::ReleaseUnavailable =>
                "Requested release is no longer available".to_string(),
            InstallNotice::NoArchive =>
                "Error: No supported compressed archive found for this release".to_string(),
            InstallNotice::TempDirectoryFailed =>
                "Failed to prepare temporary install directory".to_string(),
            InstallNotice::ArchiveFileFailed { error } => text::labelled(
                "Failed to create temporary archive file: ",
                error.as_str(),
            ),
            InstallNotice::RequestFailed =>
                "Connection error: Unable to start compatibility tool download".to_string(),
            InstallNotice::DownloadFailed => "Connection error: Download failed".to_string(),
            InstallNotice::Cancelled => "Installation cancelled".to_string(),
            InstallNotice::Interrupted => "Connection error: Download interrupted".to_string(),
            InstallNotice::WriteFailed =>
                "Storage error: Failed to write compatibility tool archive".to_string(),
            InstallNotice::FlushFailed =>
                "Storage error: Failed to finalize compatibility tool archive".to_string(),
            InstallNotice::Installed { success } => success.message(),
            InstallNotice::NotInstalled { failure } => failure.message(),
        }
    }
}

/// The stage that ends an installation which has no temporary directory.
pub open spec fn refused(notice: InstallNotice) -> InstallStage {
    InstallStage::Notify { notice, clean_up: None }
}

/// The stage that ends a download which has a temporary directory.
pub open spec fn abandoned(job: InstallJob, notice: InstallNotice) -> InstallStage {
    InstallStage::CleanUp { temp_directory: job.temp_directory, pending: Some(notice) }
}

/// Ends an installation which has no temporary directory.
fn refuse(notice: InstallNotice) -> (r: InstallStage)
    ensures
        r == refused(notice),
{
    InstallStage::Notify { notice, clean_up: None }
}

/// Ends a download which has a temporary directory.
fn abandon(job: InstallJob, notice: InstallNotice) -> (r: InstallStage)
    ensures
        r == abandoned(job, notice),
{
    InstallStage::CleanUp { temp_directory: job.temp_directory, pending: Some(notice) }
}

impl InstallStage {
    /// Is the event an outcome of this stage? The bytes that were written are counted in
    /// 64 bits.
    pub open spec fn awaits(self, event: InstallEvent) -> bool {
        match self {
            InstallStage::LookUp { .. } => event is LookedUp,
            InstallStage::ReportStart { .. } => event is Reported,
            InstallStage::PrepareTemp { .. } => event is TempPrepared,
            InstallStage::CreateArchive { .. } => event is ArchiveCreated,
            InstallStage::SendRequest { .. } => event is Responded,
            InstallStage::ReadChunk { .. } => event is ChunkRead,
            InstallStage::CheckCancelled { .. } => event is CancelChecked,
            InstallStage::WriteChunk { job, transfer, length } => event
                matches InstallEvent::ChunkWritten(written) && (written ==> transfer.downloaded
                + length <= u64::MAX),
            InstallStage::ReportProgress { .. } => event is Reported,
            InstallStage::FlushArchive { .. } => event is ArchiveFlushed,
            InstallStage::Extract { .. } => event is Extracted,
            InstallStage::SyncState { .. } => event is StateSynced,
            InstallStage::BroadcastState { .. } => event is StateBroadcast,
            InstallStage::Notify { .. } => event is Notified,
            InstallStage::CleanUp { .. } => event is CleanedUp,
            InstallStage::Finished => false,
        }
    }

    /// The stage that an event leads to.
    pub open spec fn after(self, event: InstallEvent) -> InstallStage {
        match (self, event) {
            (InstallStage::LookUp { release_id, target, staging_root }, InstallEvent::LookedUp(found)) =>
                match found {
                    None => refused(InstallNotice::ReleaseUnavailable),
                    Some(catalog_release) => match archive::planned_download(
                        catalog_release.release,
                    ) {
                        None => refused(InstallNotice::NoArchive),
                        Some(download) => InstallStage::ReportStart {
                            plan: InstallPlan { catalog_release, target, download },
                            staging_root,
                        },
                    },
                },
            (InstallStage::ReportStart { plan, staging_root }, _) => InstallStage::PrepareTemp {
                plan,
                staging_root,
            },
            (InstallStage::PrepareTemp { plan, .. }, InstallEvent::TempPrepared(prepared)) =>
                match prepared {
                    Some(temp_directory) => InstallStage::CreateArchive {
                        job: InstallJob { plan, temp_directory },
                    },
                    None => refused(InstallNotice::TempDirectoryFailed),
                },
            (InstallStage::CreateArchive { job }, InstallEvent::ArchiveCreated(outcome)) =>
                match outcome {
                    Ok(_) => InstallStage::SendRequest { job },
                    Err(error) => abandoned(job, InstallNotice::ArchiveFileFailed { error }),
                },
            (InstallStage::SendRequest { job }, InstallEvent::Responded(response)) =>
                match response {
                    DownloadResponse::Unreachable => abandoned(job, InstallNotice::RequestFailed),
                    DownloadResponse::Answered { status, content_length } => if is_success(
                        status,
                    ) {
                        InstallStage::ReadChunk {
                            job,
                            transfer: Transfer { downloaded: 0, total: content_length },
                        }
                    } else {
                        abandoned(job, InstallNotice::DownloadFailed)
                    },
                },
            (InstallStage::ReadChunk { job, transfer }, InstallEvent::ChunkRead(chunk)) =>
                match chunk {
                    None => InstallStage::FlushArchive { job },
                    Some(chunk) => InstallStage::CheckCancelled { job, transfer, chunk },
                },
            (
                InstallStage::CheckCancelled { job, transfer, chunk },
                InstallEvent::CancelChecked(cancelling),
            ) => if cancelling {
                abandoned(job, InstallNotice::Cancelled)
            } else {
                match chunk {
                    Chunk::Data { length } => InstallStage::WriteChunk { job, transfer, length },
                    Chunk::Broken => abandoned(job, InstallNotice::Interrupted),
                }
            },
            (
                InstallStage::WriteChunk { job, transfer, length },
                InstallEvent::ChunkWritten(written),
            ) => if written {
                let further = Transfer {
                    downloaded: (transfer.downloaded + length) as u64,
                    total: transfer.total,
                };
                match transfer.total {
                    Some(total) if total > 0 => InstallStage::ReportProgress {
                        job,
                        transfer: further,
                        total,
                    },
                    _ => InstallStage::ReadChunk { job, transfer: further },
                }
            } else {
                abandoned(job, InstallNotice::WriteFailed)
            },
            (InstallStage::ReportProgress { job, transfer, total }, _) =>
                InstallStage::ReadChunk { job, transfer },
            (InstallStage::FlushArchive { job }, InstallEvent::ArchiveFlushed(flushed)) =>
                if flushed {
                    InstallStage::Extract { job }
                } else {
                    abandoned(job, InstallNotice::FlushFailed)
                },
            (InstallStage::Extract { job }, InstallEvent::Extracted(result)) => match result {
                Ok(success) => InstallStage::SyncState { success, temp_directory: job.temp_directory },
                Err(failure) => InstallStage::Notify {
                    notice: InstallNotice::NotInstalled { failure },
                    clean_up: Some(job.temp_directory),
                },
            },
            (InstallStage::SyncState { success, temp_directory }, _) =>
                InstallStage::BroadcastState { success, temp_directory },
            (InstallStage::BroadcastState { success, temp_directory }, _) => InstallStage::Notify {
                notice: InstallNotice::Installed { success },
                clean_up: Some(temp_directory),
            },
            (InstallStage::Notify { notice, clean_up }, _) => match clean_up {
                Some(temp_directory) => InstallStage::CleanUp { temp_directory, pending: None },
                None => InstallStage::Finished,
            },
            (InstallStage::CleanUp { pending, .. }, _) => match pending {
                Some(notice) => refused(notice),
                None => InstallStage::Finished,
            },
            _ => self,
        }
    }

    /// What is reported in this stage, other than how far the download is.
    pub open spec fn report(self) -> Option<(OperationState, u8)> {
        match self {
            InstallStage::ReportStart { .. } => Some((OperationState::Downloading, 0u8)),
            _ => None,
        }
    }

    /// What is reported of the download in this stage.
    pub open spec fn share(self) -> Option<(OperationState, u64, u64)> {
        match self {
            InstallStage::ReportProgress { transfer, total, .. } => Some(
                (OperationState::Downloading, transfer.downloaded, total),
            ),
            _ => None,
        }
    }

    /// What is reported in this stage: the state of the operation, and its progress in
    /// percent.
    pub fn reported(&self) -> (r: Option<(OperationState, u8)>)
        ensures
            r == if self is ReportStart {
                Some((OperationState::Downloading, 0u8))
            } else {
                None
            },
            r == self.report(),
    {
        match self {
            InstallStage::ReportStart { .. } => Some((OperationState::Downloading, 0)),
            _ => None,
        }
    }

    /// What is reported in this stage while the download goes on: the state of the
    /// operation, how many bytes have been written, and how many there are.
    pub fn reported_share(&self) -> (r: Option<(OperationState, u64, u64)>)
        ensures
            r == match self {
                InstallStage::ReportProgress { job, transfer, total } => Some(
                    (OperationState::Downloading, transfer.downloaded, *total),
                ),
                _ => None,
            },
            r == self.share(),
    {
        match self {
            InstallStage::ReportProgress { job: _, transfer, total } => Some(
                (OperationState::Downloading, transfer.downloaded, *total),
            ),
            _ => None,
        }
    }

    /// Is the event an outcome of this stage?
    pub fn expects(&self, event: &InstallEvent) -> (r: bool)
        ensures
            r == self.awaits(*event),
    {
        match (self, event) {
            (InstallStage::LookUp { .. }, InstallEvent::LookedUp(_)) => true,
            (InstallStage::ReportStart { .. }, InstallEvent::Reported) => true,
            (InstallStage::PrepareTemp { .. }, InstallEvent::TempPrepared(_)) => true,
            (InstallStage::CreateArchive { .. }, InstallEvent::ArchiveCreated(_)) => true,
            (InstallStage::SendRequest { .. }, InstallEvent::Responded(_)) => true,
            (InstallStage::ReadChunk { .. }, InstallEvent::ChunkRead(_)) => true,
            (InstallStage::CheckCancelled { .. }, InstallEvent::CancelChecked(_)) => true,
            (
                InstallStage::WriteChunk { job: _, transfer, length },
                InstallEvent::ChunkWritten(written),
            ) => !*written || *length <= u64::MAX - transfer.downloaded,
            (InstallStage::ReportProgress { .. }, InstallEvent::Reported) => true,
            (InstallStage::FlushArchive { .. }, InstallEvent::ArchiveFlushed(_)) => true,
            (InstallStage::Extract { .. }, InstallEvent::Extracted(_)) => true,
            (InstallStage::SyncState { .. }, InstallEvent::StateSynced) => true,
            (InstallStage::BroadcastState { .. }, InstallEvent::StateBroadcast) => true,
            (InstallStage::Notify { .. }, InstallEvent::Notified) => true,
            (InstallStage::CleanUp { .. }, InstallEvent::CleanedUp) => true,
            _ => false,
        }
    }

    /// Takes the outcome of this stage.
    pub fn advance(self, event: InstallEvent) -> (r: InstallStage)
        requires
            self.awaits(event),
        ensures
            r == self.after(event),
    {
        match (self, event) {
            (InstallStage::LookUp { release_id: _, target, staging_root }, InstallEvent::LookedUp(found)) =>
                match found {
                    None => refuse(InstallNotice::ReleaseUnavailable),
                    Some(catalog_release) => match archive::look_for_compressed_archive(
                        &catalog_release.release,
                    ) {
                        None => refuse(InstallNotice::NoArchive),
                        Some(download) => InstallStage::ReportStart {
                            plan: InstallPlan { catalog_release, target, download },
                            staging_root,
                        },
                    },
                },
            (InstallStage::ReportStart { plan, staging_root }, _) => InstallStage::PrepareTemp {
                plan,
                staging_root,
            },
            (InstallStage::PrepareTemp { plan, .. }, InstallEvent::TempPrepared(prepared)) =>
                match prepared {
                    Some(temp_directory) => InstallStage::CreateArchive {
                        job: InstallJob { plan, temp_directory },
                    },
                    None => refuse(InstallNotice::TempDirectoryFailed),
                },
            (InstallStage::CreateArchive { job }, InstallEvent::ArchiveCreated(outcome)) =>
                match outcome {
                    Ok(_) => InstallStage::SendRequest { job },
                    Err(error) => abandon(job, InstallNotice::ArchiveFileFailed { error }),
                },
            (InstallStage::SendRequest { job }, InstallEvent::Responded(response)) =>
                match response {
                    DownloadResponse::Unreachable => abandon(job, InstallNotice::RequestFailed),
                    DownloadResponse::Answered { status, content_length } => if 200 <= status
                        && status < 300 {
                        InstallStage::ReadChunk {
                            job,
                            transfer: Transfer { downloaded: 0, total: content_length },
                        }
                    } else {
                        abandon(job, InstallNotice::DownloadFailed)
                    },
                },
            (InstallStage::ReadChunk { job, transfer }, InstallEvent::ChunkRead(chunk)) =>
                match chunk {
                    None => InstallStage::FlushArchive { job },
                    Some(chunk) => InstallStage::CheckCancelled { job, transfer, chunk },
                },
            (
                InstallStage::CheckCancelled { job, transfer, chunk },
                InstallEvent::CancelChecked(cancelling),
            ) => if cancelling {
                abandon(job, InstallNotice::Cancelled)
            } else {
                match chunk {
                    Chunk::Data { length } => InstallStage::WriteChunk { job, transfer, length },
                    Chunk::Broken => abandon(job, InstallNotice::Interrupted),
                }
            },
            (
                InstallStage::WriteChunk { job, transfer, length },
                InstallEvent::ChunkWritten(written),
            ) => if written {
                let further = Transfer {
                    downloaded: transfer.downloaded + length,
                    total: transfer.total,
                };
                match transfer.total {
                    Some(total) => if total > 0 {
                        InstallStage::ReportProgress { job, transfer: further, total }
                    } else {
                        InstallStage::ReadChunk { job, transfer: further }
                    },
                    None => InstallStage::ReadChunk { job, transfer: further },
                }
            } else {
                abandon(job, InstallNotice::WriteFailed)
            },
            (InstallStage::ReportProgress { job, transfer, total: _ }, _) =>
                InstallStage::ReadChunk { job, transfer },
            (InstallStage::FlushArchive { job }, InstallEvent::ArchiveFlushed(flushed)) =>
                if flushed {
                    InstallStage::Extract { job }
                } else {
                    abandon(job, InstallNotice::FlushFailed)
                },
            (InstallStage::Extract { job }, InstallEvent::Extracted(result)) => match result {
                Ok(success) => InstallStage::SyncState { success, temp_directory: job.temp_directory },
                Err(failure) => InstallStage::Notify {
                    notice: InstallNotice::NotInstalled { failure },
                    clean_up: Some(job.temp_directory),
                },
            },
            (InstallStage::SyncState { success, temp_directory }, _) =>
                InstallStage::BroadcastState { success, temp_directory },
            (InstallStage::BroadcastState { success, temp_directory }, _) => InstallStage::Notify {
                notice: InstallNotice::Installed { success },
                clean_up: Some(temp_directory),
            },
            (InstallStage::Notify { notice: _, clean_up }, _) => match clean_up {
                Some(temp_directory) => InstallStage::CleanUp { temp_directory, pending: None },
                None => InstallStage::Finished,
            },
            (InstallStage::CleanUp { pending, .. }, _) => match pending {
                Some(notice) => refuse(notice),
                None => InstallStage::Finished,
            },
            (stage, _) => stage,
        }
    }
}

impl WineCask {
    /// Is `stage` the first stage of the installation of a release?
    pub open spec fn is_installation_of(
        self,
        stage: InstallStage,
        release_id: String,
        target: InstallTarget,
    ) -> bool {
        stage matches InstallStage::LookUp { release_id: id, target: goal, staging_root } && id
            == release_id && goal == target && staging_root@ == self.staging_path()
    }

    /// Starts to install a release from the catalog.
    pub fn install_catalog_release(&self, release_id: String, target: InstallTarget) -> (r:
        InstallStage)
        ensures
            r matches InstallStage::LookUp { release_id: id, target: goal, staging_root } && id
                == release_id && goal == target && staging_root@ == self.staging_path(),
            self.is_installation_of(r, release_id, target),
    {
        InstallStage::LookUp { release_id, target, staging_root: self.staging_directory() }
    }
}

} // verus!
