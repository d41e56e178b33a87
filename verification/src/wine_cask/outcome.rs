//! How an installation ends, and what the user is told about it.
use crate::text;
use vstd::prelude::*;
use vstd::string::*;

verus! {

broadcast use vstd::string::group_string_axioms;

/// An installation that succeeded.
#[derive(Debug)]
pub enum InstallSuccess {
    /// The release has a directory of its own.
    Completed { tag_name: String },
    /// The release is mounted into a virtual tool.
    Mounted { tag_name: String, user_label: String },
}

/// Why an archive was not unpacked.
#[derive(Debug)]
pub enum UnpackFailure {
    Open { error: String },
    UnsupportedCompression,
    ReadEntries { error: String },
    ReadEntry { error: String },
    ResolvePath { error: String },
    UnsafePath { path: String },
    UnpackEntry { error: String },
}

/// Why a downloaded release was not installed.
#[derive(Debug)]
pub enum InstallFailure {
    Cancelled,
    ExtractionTask { error: String },
    Unpack { failure: UnpackFailure },
    ReadDirectory { error: String },
    NoToolFound,
    MissingParent,
    UnsupportedFlavor,
    Layout { error: String },
    UnresolvedName,
    AlreadyExists { path: String },
    Move { error: String },
    SlotGone,
    ReplaceContents { error: String },
    MoveContents { error: String },
    RecordPayload { error: String },
}

impl InstallSuccess {
    /// What the user is told.
    pub open spec fn text(self) -> Seq<char> {
        match self {
            InstallSuccess::Completed { tag_name } => "Installation completed: "@ + tag_name@,
            InstallSuccess::Mounted { tag_name, user_label } => "Mounted "@ + tag_name@
                + " into "@ + user_label@,
        }
    }

    /// What the user is told.
    pub fn message(&self) -> (r: String)
        ensures
            r@ == self.text(),
    {
        match self {
            InstallSuccess::Completed { tag_name } => text::labelled(
                "Installation completed: ",
                tag_name.as_str(),
            ),
            InstallSuccess::Mounted { tag_name, user_label } => {
                let mut r = text::labelled("Mounted ", tag_name.as_str());
                r.append(" into ");
                r.append(user_label.as_str());
                r
            },
        }
    }
}

impl UnpackFailure {
    /// What the user is told.
    pub open spec fn text(self) -> Seq<char> {
        match self {
            UnpackFailure::Open { error } => "Failed to open temporary archive: "@ + error@,
            UnpackFailure::UnsupportedCompression => "Unsupported archive compression type"@,
            UnpackFailure::ReadEntries { error } => "Failed to read tar entries: "@ + error@,
            UnpackFailure::ReadEntry { error } => "Failed to process tar entry: "@ + error@,
            UnpackFailure::ResolvePath { error } => "Failed to resolve tar entry path: "@ + error@,
            UnpackFailure::UnsafePath { path } => "Unsafe archive entry path detected: "@ + path@,
            UnpackFailure::UnpackEntry { error } => "Failed to unpack archive entry: "@ + error@,
        }
    }

    /// What the user is told.
    pub fn message(&self) -> (r: String)
        ensures
            r@ == self.text(),
    {
        match self {
            UnpackFailure::Open { error } => text::labelled(
                "Failed to open temporary archive: ",
                error.as_str(),
            ),
            UnpackFailure::UnsupportedCompression =>
                "Unsupported archive compression type".to_string(),
            UnpackFailure::ReadEntries { error } => text::labelled(
                "Failed to read tar entries: ",
                error.as_str(),
            ),
            UnpackFailure::ReadEntry { error } => text::labelled(
                "Failed to process tar entry: ",
                error.as_str(),
            ),
            UnpackFailure::ResolvePath { error } => text::labelled(
                "Failed to resolve tar entry path: ",
                error.as_str(),
            ),
            UnpackFailure::UnsafePath { path } => text::labelled(
                "Unsafe archive entry path detected: ",
                path.as_str(),
            ),
            UnpackFailure::UnpackEntry { error } => text::labelled(
                "Failed to unpack archive entry: ",
                error.as_str(),
            ),
        }
    }
}

impl InstallFailure {
    /// What the user is told.
    pub open spec fn text(self) -> Seq<char> {
        match self {
            InstallFailure::Cancelled => "Installation cancelled"@,
            InstallFailure::ExtractionTask { error } => "Extraction task failed: "@ + error@,
            InstallFailure::Unpack { failure } => "Installation failed: "@ + failure.text(),
            InstallFailure::ReadDirectory { error } => "Failed to read extraction directory: "@
                + error@,
            InstallFailure::NoToolFound =>
                "Failed to find the extracted compatibility tool contents"@,
            InstallFailure::MissingParent => "Missing temporary extraction parent directory"@,
            InstallFailure::UnsupportedFlavor => "Unsupported compatibility tool flavor"@,
            InstallFailure::Layout { error } => "Failed to prepare compatibility tool layout: "@
                + error@,
            InstallFailure::UnresolvedName =>
                "Failed to resolve extracted compatibility tool name"@,
            InstallFailure::AlreadyExists { path } =>
                "Compatibility tool directory already exists: "@ + path@,
            InstallFailure::Move { error } =>
                "Failed to move compatibility tool into Steam compatibilitytools.d: "@ + error@,
            InstallFailure::SlotGone => "Virtual compatibility tool no longer exists"@,
            InstallFailure::ReplaceContents { error } =>
                "Failed to replace virtual tool contents: "@ + error@,
            InstallFailure::MoveContents { error } =>
                "Failed to move virtual tool contents into place: "@ + error@,
            InstallFailure::RecordPayload { error } => error@,
        }
    }

    /// What the user is told.
    pub fn message(&self) -> (r: String)
        ensures
            r@ == self.text(),
    {
        match self {
            InstallFailure::Cancelled => "Installation cancelled".to_string(),
            InstallFailure::ExtractionTask { error } => text::labelled(
                "Extraction task failed: ",
                error.as_str(),
            ),
            InstallFailure::Unpack { failure } => {
                let detail = failure.message();
                text::labelled("Installation failed: ", detail.as_str())
            },
            InstallFailure::ReadDirectory { error } => text::labelled(
                "Failed to read extraction directory: ",
                error.as_str(),
            ),
            InstallFailure::NoToolFound =>
                "Failed to find the extracted compatibility tool contents".to_string(),
            InstallFailure::MissingParent =>
                "Missing temporary extraction parent directory".to_string(),
            InstallFailure::UnsupportedFlavor =>
                "Unsupported compatibility tool flavor".to_string(),
            InstallFailure::Layout { error } => text::labelled(
                "Failed to prepare compatibility tool layout: ",
                error.as_str(),
            ),
            InstallFailure::UnresolvedName =>
                "Failed to resolve extracted compatibility tool name".to_string(),
            InstallFailure::AlreadyExists { path } => text::labelled(
                "Compatibility tool directory already exists: ",
                path.as_str(),
            ),
            InstallFailure::Move { error } => text::labelled(
                "Failed to move compatibility tool into Steam compatibilitytools.d: ",
                error.as_str(),
            ),
            InstallFailure::SlotGone =>
                "Virtual compatibility tool no longer exists".to_string(),
            InstallFailure::ReplaceContents { error } => text::labelled(
                "Failed to replace virtual tool contents: ",
                error.as_str(),
            ),
            InstallFailure::MoveContents { error } => text::labelled(
                "Failed to move virtual tool contents into place: ",
                error.as_str(),
            ),
            InstallFailure::RecordPayload { error } => error.clone(),
        }
    }
}

/// The user is told what was installed, and where it was mounted, by their whole names.
pub proof fn law_success_says_it_all(tag_name: String, user_label: String)
    ensures
        (InstallSuccess::Completed { tag_name }).text() == "Installation completed: "@ + tag_name@,
        (InstallSuccess::Mounted { tag_name, user_label }).text() == "Mounted "@ + tag_name@
            + " into "@ + user_label@,
{
}

/// The user is told why an archive was not unpacked, with the whole error, or the whole path
/// that is not safe.
pub proof fn law_unpack_failure_says_it_all(said: String)
    ensures
        (UnpackFailure::Open { error: said }).text() == "Failed to open temporary archive: "@
            + said@,
        UnpackFailure::UnsupportedCompression.text() == "Unsupported archive compression type"@,
        (UnpackFailure::ReadEntries { error: said }).text() == "Failed to read tar entries: "@
            + said@,
        (UnpackFailure::ReadEntry { error: said }).text() == "Failed to process tar entry: "@
            + said@,
        (UnpackFailure::ResolvePath { error: said }).text()
            == "Failed to resolve tar entry path: "@ + said@,
        (UnpackFailure::UnsafePath { path: said }).text()
            == "Unsafe archive entry path detected: "@ + said@,
        (UnpackFailure::UnpackEntry { error: said }).text()
            == "Failed to unpack archive entry: "@ + said@,
{
}

/// The user is told why a release was not installed, with the whole error, path or inner
/// failure.
pub proof fn law_install_failure_says_it_all(said: String, inner: UnpackFailure)
    ensures
        InstallFailure::Cancelled.text() == "Installation cancelled"@,
        (InstallFailure::ExtractionTask { error: said }).text() == "Extraction task failed: "@
            + said@,
        (InstallFailure::Unpack { failure: inner }).text() == "Installation failed: "@
            + inner.text(),
        (InstallFailure::ReadDirectory { error: said }).text()
            == "Failed to read extraction directory: "@ + said@,
        InstallFailure::NoToolFound.text()
            == "Failed to find the extracted compatibility tool contents"@,
        InstallFailure::MissingParent.text() == "Missing temporary extraction parent directory"@,
        InstallFailure::UnsupportedFlavor.text() == "Unsupported compatibility tool flavor"@,
        (InstallFailure::Layout { error: said }).text()
            == "Failed to prepare compatibility tool layout: "@ + said@,
        InstallFailure::UnresolvedName.text()
            == "Failed to resolve extracted compatibility tool name"@,
        (InstallFailure::AlreadyExists { path: said }).text()
            == "Compatibility tool directory already exists: "@ + said@,
        (InstallFailure::Move { error: said }).text()
            == "Failed to move compatibility tool into Steam compatibilitytools.d: "@ + said@,
        InstallFailure::SlotGone.text() == "Virtual compatibility tool no longer exists"@,
        (InstallFailure::ReplaceContents { error: said }).text()
            == "Failed to replace virtual tool contents: "@ + said@,
        (InstallFailure::MoveContents { error: said }).text()
            == "Failed to move virtual tool contents into place: "@ + said@,
        (InstallFailure::RecordPayload { error: said }).text() == said@,
{
}

} // verus!
