//! Virtual tools: named slots that releases are mounted into, and the manifest
//! that records them.
use crate::paths;
use crate::text;
use crate::wine_cask;
use crate::wine_cask::app;
use crate::wine_cask::app::WineCask;
use vstd::prelude::*;
use vstd::string::*;

verus! {

broadcast use vstd::string::group_string_axioms;

/// The most characters that the name of a virtual tool may have.
pub const MAX_VIRTUAL_TOOL_LABEL_CHARS: usize = 64;

/// The record of all virtual tools.
pub struct VirtualToolManifest {
    /// The number that the next virtual tool gets.
    pub next_virtual_tool_number: u64,
    pub tools: Vec<VirtualToolConfig>,
}

/// One virtual tool.
pub struct VirtualToolConfig {
    pub id: String,
    /// The name that the user gave the tool.
    pub user_label: String,
    /// The name that Steam knows the tool by.
    pub steam_internal_name: String,
    /// The tool's directory among the compatibility tools.
    pub directory_name: String,
    /// The release that is mounted into the tool.
    pub current_payload_release_id: Option<String>,
}

/// One virtual tool, in specifications.
#[verifier::ext_equal]
pub struct ToolView {
    pub id: Seq<char>,
    pub user_label: Seq<char>,
    pub steam_internal_name: Seq<char>,
    pub directory_name: Seq<char>,
    pub payload: Option<Seq<char>>,
}

/// The record of all virtual tools, in specifications.
#[verifier::ext_equal]
pub struct ManifestView {
    pub next: nat,
    pub tools: Seq<ToolView>,
}

impl View for VirtualToolConfig {
    type V = ToolView;

    open spec fn view(&self) -> ToolView {
        ToolView {
            id: self.id@,
            user_label: self.user_label@,
            steam_internal_name: self.steam_internal_name@,
            directory_name: self.directory_name@,
            payload: text::optional_text(self.current_payload_release_id),
        }
    }
}

/// The views of a list of tools.
pub open spec fn tool_views(tools: Seq<VirtualToolConfig>) -> Seq<ToolView> {
    Seq::new(tools.len(), |i: int| tools[i]@)
}

impl View for VirtualToolManifest {
    type V = ManifestView;

    open spec fn view(&self) -> ManifestView {
        ManifestView {
            next: self.next_virtual_tool_number as nat,
            tools: tool_views(self.tools@),
        }
    }
}

impl Clone for VirtualToolConfig {
    fn clone(&self) -> (r: Self)
        ensures
            r == *self,
    {
        VirtualToolConfig {
            id: self.id.clone(),
            user_label: self.user_label.clone(),
            steam_internal_name: self.steam_internal_name.clone(),
            directory_name: self.directory_name.clone(),
            current_payload_release_id: match &self.current_payload_release_id {
                Some(release_id) => Some(release_id.clone()),
                None => None,
            },
        }
    }
}

impl Clone for VirtualToolManifest {
    fn clone(&self) -> (r: Self)
        ensures
            r.next_virtual_tool_number == self.next_virtual_tool_number,
            r.tools@ == self.tools@,
            r@ == self@,
    {
        let mut tools: Vec<VirtualToolConfig> = Vec::new();
        let mut i: usize = 0;
        while i < self.tools.len()
            invariant
                i <= self.tools.len(),
                tools@ == self.tools@.take(i as int),
            decreases self.tools.len() - i,
        {
            tools.push(self.tools[i].clone());
            i = i + 1;
        }
        assert(tools@ == self.tools@);
        VirtualToolManifest { next_virtual_tool_number: self.next_virtual_tool_number, tools }
    }
}

impl Default for VirtualToolManifest {
    fn default() -> (r: Self)
        ensures
            r.next_virtual_tool_number == 0,
            r.tools@.len() == 0,
    {
        VirtualToolManifest { next_virtual_tool_number: 0, tools: Vec::new() }
    }
}

/// The id of the virtual tool with the number `n`.
pub open spec fn tool_id(n: nat) -> Seq<char> {
    "virtual-"@ + text::decimal(n)
}

/// The name that Steam knows the virtual tool with the number `n` by; its directory
/// is called the same.
pub open spec fn internal_name(n: nat) -> Seq<char> {
    "WineCellarVirtual"@ + text::decimal(n)
}

/// The number that a manifest gives the next tool: numbers start at one.
pub open spec fn next_number(m: ManifestView) -> nat {
    if m.next == 0 {
        1
    } else {
        m.next
    }
}

/// Where the first tool with the given id stands.
pub open spec fn slot_position(tools: Seq<ToolView>, id: Seq<char>) -> Option<int>
    decreases tools.len(),
{
    if tools.len() == 0 {
        None
    } else {
        match slot_position(tools.drop_last(), id) {
            Some(i) => Some(i),
            None => if tools.last().id == id {
                Some(tools.len() - 1)
            } else {
                None
            },
        }
    }
}

/// The label that a user's text stands for, or why it is no label: white space around
/// it is dropped; what is left is not empty, not too long and without control
/// characters.
pub open spec fn label_of(user_label: Seq<char>) -> Result<Seq<char>, Seq<char>> {
    let label = text::trimmed(user_label);
    if label.len() == 0 {
        Err("Virtual tool name cannot be empty"@)
    } else if label.len() > MAX_VIRTUAL_TOOL_LABEL_CHARS {
        Err(
            "Virtual tool name must be "@ + text::decimal(MAX_VIRTUAL_TOOL_LABEL_CHARS as nat)
                + " characters or fewer"@,
        )
    } else if exists|i: int| 0 <= i < label.len() && text::control_character(#[trigger] label[i]) {
        Err("Virtual tool name cannot contain control characters"@)
    } else {
        Ok(label)
    }
}

/// The slot that is created under the number `n`.
pub open spec fn new_slot(n: nat, label: Seq<char>) -> ToolView {
    ToolView {
        id: tool_id(n),
        user_label: label,
        steam_internal_name: internal_name(n),
        directory_name: internal_name(n),
        payload: None,
    }
}

/// The manifest with one more slot.
pub open spec fn with_slot(m: ManifestView, label: Seq<char>) -> ManifestView {
    ManifestView {
        next: next_number(m) + 1,
        tools: m.tools.push(new_slot(next_number(m), label)),
    }
}

/// The manifest with the tool at `i` renamed.
pub open spec fn with_label(m: ManifestView, i: int, label: Seq<char>) -> ManifestView {
    ManifestView {
        next: m.next,
        tools: m.tools.update(i, ToolView { user_label: label, ..m.tools[i] }),
    }
}

/// The manifest with another release mounted into the tool at `i`.
pub open spec fn with_payload(m: ManifestView, i: int, payload: Option<Seq<char>>) -> ManifestView {
    ManifestView {
        next: m.next,
        tools: m.tools.update(i, ToolView { payload, ..m.tools[i] }),
    }
}

/// The manifest without the tool at `i`.
pub open spec fn without_slot(m: ManifestView, i: int) -> ManifestView {
    ManifestView { next: m.next, tools: m.tools.remove(i) }
}

/// What reading the manifest file gave.
pub enum ManifestRead {
    /// There is no manifest file.
    Missing,
    /// The file could not be read.
    Unreadable,
    /// The file does not hold a manifest.
    Malformed,
    /// The file holds this manifest.
    Parsed(VirtualToolManifest),
}

/// The manifest that a read stands for. Without a usable file it is empty; a manifest
/// that has no next number continues after the number of its tools.
pub open spec fn manifest_of(read: ManifestRead) -> ManifestView {
    match read {
        ManifestRead::Parsed(manifest) => if manifest@.next == 0 {
            ManifestView { next: manifest@.tools.len() + 1, tools: manifest@.tools }
        } else {
            manifest@
        },
        _ => ManifestView { next: 1, tools: Seq::empty() },
    }
}

/// A slot that is about to be created.
pub struct NewSlot {
    pub label: String,
    /// The directory to create.
    pub tool_directory: Vec<u8>,
    /// The file that describes the tool to Steam.
    pub vdf_file: Vec<u8>,
    /// What that file is to hold.
    pub vdf: String,
    /// How the manifest with the slot is saved.
    pub save: SaveStage,
}

/// A slot that has been renamed in the manifest.
pub struct RenamedSlot {
    pub label: String,
    /// The directory of the slot.
    pub tool_directory: Vec<u8>,
    /// The file that describes the tool to Steam.
    pub vdf_file: Vec<u8>,
    /// What that file is to hold from now on.
    pub vdf: String,
    /// How the manifest with the new label is saved.
    pub save: SaveStage,
}

/// A slot that has been removed from the manifest.
pub struct RemovedSlot {
    pub label: String,
    /// How the manifest without the slot is saved.
    pub save: SaveStage,
}

/// What is being done to create a slot.
#[derive(Clone, Copy, Debug, PartialEq, Eq, Structural)]
pub enum SlotStage {
    /// Create `NewSlot::tool_directory`.
    CreateDirectory,
    /// Write `NewSlot::vdf` to `NewSlot::vdf_file`.
    WriteVdf,
    /// Save the manifest, from `NewSlot::save` on.
    SaveManifest,
}

/// Where the creation of a slot stands.
#[derive(Debug)]
pub enum SlotProgress {
    /// This is to be done next.
    Continue(SlotStage),
    /// The slot exists.
    Created,
    /// The slot could not be created; with `roll_back` its directory is to be removed.
    Failed { roll_back: bool, error: String },
}

/// What is being done to rename a slot.
#[derive(Clone, Copy, Debug, PartialEq, Eq, Structural)]
pub enum RenameStage {
    /// Save the manifest, from `RenamedSlot::save` on.
    SaveManifest,
    /// Create `RenamedSlot::tool_directory` if it is missing, and write `RenamedSlot::vdf` to
    /// `RenamedSlot::vdf_file`.
    RewriteVdf,
}

/// Where renaming a slot stands.
#[derive(Debug)]
pub enum RenameProgress {
    /// This is to be done next.
    Continue(RenameStage),
    /// The slot has its new label.
    Renamed,
    /// The slot was not renamed.
    Failed { error: String },
}

/// What is to be done next to save the manifest.
pub enum SaveStage {
    /// Create `directory` if it is missing.
    PrepareDirectory {
        manifest: VirtualToolManifest,
        directory: Vec<u8>,
        temp_file: Vec<u8>,
        manifest_file: Vec<u8>,
    },
    /// Turn `manifest` into text.
    Serialize { manifest: VirtualToolManifest, temp_file: Vec<u8>, manifest_file: Vec<u8> },
    /// Create `temp_file`, empty.
    CreateTempFile { text: String, temp_file: Vec<u8>, manifest_file: Vec<u8> },
    /// Write `text` to `temp_file`.
    WriteTempFile { text: String, temp_file: Vec<u8>, manifest_file: Vec<u8> },
    /// Make sure that the text is on disk.
    FlushTempFile { temp_file: Vec<u8>, manifest_file: Vec<u8> },
    /// Rename `temp_file` to `manifest_file`.
    ReplaceManifest { temp_file: Vec<u8>, manifest_file: Vec<u8> },
    /// Nothing: the manifest is saved, or was not.
    Finished { result: Result<(), SaveFailure> },
}

/// What came of a stage of saving the manifest.
#[derive(Debug)]
pub enum SaveEvent {
    DirectoryPrepared(Result<(), String>),
    /// The text that the manifest was turned into.
    Serialized(Result<String, String>),
    TempFileCreated(Result<(), String>),
    TempFileWritten(Result<(), String>),
    TempFileFlushed(Result<(), String>),
    ManifestReplaced(Result<(), String>),
}

/// Why the manifest was not saved.
#[derive(Debug)]
pub enum SaveFailure {
    NoParent,
    PrepareDirectory { error: String },
    Serialize { error: String },
    CreateTempFile { error: String },
    WriteTempFile { error: String },
    FlushTempFile { error: String },
    ReplaceManifest { error: String },
}

impl SlotStage {
    /// The stage after this one.
    pub open spec fn following(self) -> Option<SlotStage> {
        match self {
            SlotStage::CreateDirectory => Some(SlotStage::WriteVdf),
            SlotStage::WriteVdf => Some(SlotStage::SaveManifest),
            SlotStage::SaveManifest => None,
        }
    }

    /// What the user is told when this stage fails with `error`.
    pub open spec fn failure(self, error: Seq<char>) -> Seq<char> {
        match self {
            SlotStage::CreateDirectory => "Failed to create virtual tool directory: "@ + error,
            SlotStage::WriteVdf => "Failed to write virtual tool VDF: "@ + error,
            SlotStage::SaveManifest => error,
        }
    }

    /// Is the directory removed again when this stage fails?
    pub open spec fn rolls_back(self) -> bool {
        self != SlotStage::CreateDirectory
    }

    /// Takes the outcome of this stage. Once the directory exists, a failure removes
    /// it again.
    pub fn finish(self, outcome: Result<(), String>) -> (r: SlotProgress)
        ensures
            match outcome {
                Ok(_) => match self.following() {
                    Some(stage) => r == SlotProgress::Continue(stage),
                    None => r is Created,
                },
                Err(err) => r matches SlotProgress::Failed { roll_back, error } && roll_back == (
                self != SlotStage::CreateDirectory) && error@ == self.failure(err@),
            },
            r matches SlotProgress::Failed { roll_back, .. } ==> roll_back == self.rolls_back(),
    {
        match outcome {
            Ok(_) => match self {
                SlotStage::CreateDirectory => SlotProgress::Continue(SlotStage::WriteVdf),
                SlotStage::WriteVdf => SlotProgress::Continue(SlotStage::SaveManifest),
                SlotStage::SaveManifest => SlotProgress::Created,
            },
            Err(err) => match self {
                SlotStage::CreateDirectory => SlotProgress::Failed {
                    roll_back: false,
                    error: text::labelled(
                        "Failed to create virtual tool directory: ",
                        err.as_str(),
                    ),
                },
                SlotStage::WriteVdf => SlotProgress::Failed {
                    roll_back: true,
                    error: text::labelled("Failed to write virtual tool VDF: ", err.as_str()),
                },
                SlotStage::SaveManifest => SlotProgress::Failed { roll_back: true, error: err },
            },
        }
    }
}

impl RenameStage {
    /// Where renaming stands after an outcome of this stage.
    pub open spec fn progress(self, outcome: Result<(), String>) -> RenameProgress {
        match (self, outcome) {
            (RenameStage::SaveManifest, Ok(_)) => RenameProgress::Continue(RenameStage::RewriteVdf),
            (RenameStage::SaveManifest, Err(error)) => RenameProgress::Failed { error },
            (RenameStage::RewriteVdf, _) => RenameProgress::Renamed,
        }
    }

    /// Takes the outcome of this stage. That the description could not be rewritten does
    /// not undo the new label.
    pub fn finish(self, outcome: Result<(), String>) -> (r: RenameProgress)
        ensures
            match (self, outcome) {
                (RenameStage::SaveManifest, Ok(_)) => r == RenameProgress::Continue(
                    RenameStage::RewriteVdf,
                ),
                (RenameStage::SaveManifest, Err(error)) => r == (RenameProgress::Failed { error }),
                (RenameStage::RewriteVdf, _) => r is Renamed,
            },
            r == self.progress(outcome),
    {
        match (self, outcome) {
            (RenameStage::SaveManifest, Ok(_)) => RenameProgress::Continue(RenameStage::RewriteVdf),
            (RenameStage::SaveManifest, Err(error)) => RenameProgress::Failed { error },
            (RenameStage::RewriteVdf, _) => RenameProgress::Renamed,
        }
    }
}

impl SaveFailure {
    /// What the user is told.
    pub open spec fn text(self) -> Seq<char> {
        match self {
            SaveFailure::NoParent => "Failed to resolve virtual tool manifest parent"@,
            SaveFailure::PrepareDirectory { error } =>
                "Failed to prepare virtual tool manifest directory: "@ + error@,
            SaveFailure::Serialize { error } => "Failed to serialize virtual tool manifest: "@
                + error@,
            SaveFailure::CreateTempFile { error } =>
                "Failed to create virtual tool manifest temp file: "@ + error@,
            SaveFailure::WriteTempFile { error } =>
                "Failed to write virtual tool manifest temp file: "@ + error@,
            SaveFailure::FlushTempFile { error } =>
                "Failed to flush virtual tool manifest temp file: "@ + error@,
            SaveFailure::ReplaceManifest { error } => "Failed to persist virtual tool manifest: "@
                + error@,
        }
    }

    /// What the user is told.
    pub fn message(&self) -> (r: String)
        ensures
            r@ == self.text(),
    {
        match self {
            SaveFailure::NoParent => "Failed to resolve virtual tool manifest parent".to_string(),
            SaveFailure::PrepareDirectory { error } => text::labelled(
                "Failed to prepare virtual tool manifest directory: ",
                error.as_str(),
            ),
            SaveFailure::Serialize { error } => text::labelled(
                "Failed to serialize virtual tool manifest: ",
                error.as_str(),
            ),
            SaveFailure::CreateTempFile { error } => text::labelled(
                "Failed to create virtual tool manifest temp file: ",
                error.as_str(),
            ),
            SaveFailure::WriteTempFile { error } => text::labelled(
                "Failed to write virtual tool manifest temp file: ",
                error.as_str(),
            ),
            SaveFailure::FlushTempFile { error } => text::labelled(
                "Failed to flush virtual tool manifest temp file: ",
                error.as_str(),
            ),
            SaveFailure::ReplaceManifest { error } => text::labelled(
                "Failed to persist virtual tool manifest: ",
                error.as_str(),
            ),
        }
    }
}

/// The end of a save that failed.
pub open spec fn not_saved(failure: SaveFailure) -> SaveStage {
    SaveStage::Finished { result: Err(failure) }
}

/// Ends a save that failed.
fn give_up(failure: SaveFailure) -> (r: SaveStage)
    ensures
        r == not_saved(failure),
{
    SaveStage::Finished { result: Err(failure) }
}

impl SaveStage {
    /// Is the event an outcome of this stage?
    pub open spec fn awaits(self, event: SaveEvent) -> bool {
        match self {
            SaveStage::PrepareDirectory { .. } => event is DirectoryPrepared,
            SaveStage::Serialize { .. } => event is Serialized,
            SaveStage::CreateTempFile { .. } => event is TempFileCreated,
            SaveStage::WriteTempFile { .. } => event is TempFileWritten,
            SaveStage::FlushTempFile { .. } => event is TempFileFlushed,
            SaveStage::ReplaceManifest { .. } => event is ManifestReplaced,
            SaveStage::Finished { .. } => false,
        }
    }

    /// The stage that an event leads to: the stages follow one another until one fails.
    pub open spec fn after(self, event: SaveEvent) -> SaveStage {
        match (self, event) {
            (
                SaveStage::PrepareDirectory { manifest, directory, temp_file, manifest_file },
                SaveEvent::DirectoryPrepared(outcome),
            ) => match outcome {
                Ok(_) => SaveStage::Serialize { manifest, temp_file, manifest_file },
                Err(error) => not_saved(SaveFailure::PrepareDirectory { error }),
            },
            (
                SaveStage::Serialize { manifest, temp_file, manifest_file },
                SaveEvent::Serialized(outcome),
            ) => match outcome {
                Ok(text) => SaveStage::CreateTempFile { text, temp_file, manifest_file },
                Err(error) => not_saved(SaveFailure::Serialize { error }),
            },
            (
                SaveStage::CreateTempFile { text, temp_file, manifest_file },
                SaveEvent::TempFileCreated(outcome),
            ) => match outcome {
                Ok(_) => SaveStage::WriteTempFile { text, temp_file, manifest_file },
                Err(error) => not_saved(SaveFailure::CreateTempFile { error }),
            },
            (
                SaveStage::WriteTempFile { text, temp_file, manifest_file },
                SaveEvent::TempFileWritten(outcome),
            ) => match outcome {
                Ok(_) => SaveStage::FlushTempFile { temp_file, manifest_file },
                Err(error) => not_saved(SaveFailure::WriteTempFile { error }),
            },
            (
                SaveStage::FlushTempFile { temp_file, manifest_file },
                SaveEvent::TempFileFlushed(outcome),
            ) => match outcome {
                Ok(_) => SaveStage::ReplaceManifest { temp_file, manifest_file },
                Err(error) => not_saved(SaveFailure::FlushTempFile { error }),
            },
            (SaveStage::ReplaceManifest { .. }, SaveEvent::ManifestReplaced(outcome)) =>
                match outcome {
                    Ok(_) => SaveStage::Finished { result: Ok(()) },
                    Err(error) => not_saved(SaveFailure::ReplaceManifest { error }),
                },
            _ => self,
        }
    }

    /// Is the event an outcome of this stage?
    pub fn expects(&self, event: &SaveEvent) -> (r: bool)
        ensures
            r == self.awaits(*event),
    {
        match (self, event) {
            (SaveStage::PrepareDirectory { .. }, SaveEvent::DirectoryPrepared(_)) => true,
            (SaveStage::Serialize { .. }, SaveEvent::Serialized(_)) => true,
            (SaveStage::CreateTempFile { .. }, SaveEvent::TempFileCreated(_)) => true,
            (SaveStage::WriteTempFile { .. }, SaveEvent::TempFileWritten(_)) => true,
            (SaveStage::FlushTempFile { .. }, SaveEvent::TempFileFlushed(_)) => true,
            (SaveStage::ReplaceManifest { .. }, SaveEvent::ManifestReplaced(_)) => true,
            _ => false,
        }
    }

    /// Takes the outcome of this stage.
    pub fn advance(self, event: SaveEvent) -> (r: SaveStage)
        requires
            self.awaits(event),
        ensures
            r == self.after(event),
    {
        match (self, event) {
            (
                SaveStage::PrepareDirectory { manifest, directory: _, temp_file, manifest_file },
                SaveEvent::DirectoryPrepared(outcome),
            ) => match outcome {
                Ok(_) => SaveStage::Serialize { manifest, temp_file, manifest_file },
                Err(error) => give_up(SaveFailure::PrepareDirectory { error }),
            },
            (
                SaveStage::Serialize { manifest: _, temp_file, manifest_file },
                SaveEvent::Serialized(outcome),
            ) => match outcome {
                Ok(text) => SaveStage::CreateTempFile { text, temp_file, manifest_file },
                Err(error) => give_up(SaveFailure::Serialize { error }),
            },
            (
                SaveStage::CreateTempFile { text, temp_file, manifest_file },
                SaveEvent::TempFileCreated(outcome),
            ) => match outcome {
                Ok(_) => SaveStage::WriteTempFile { text, temp_file, manifest_file },
                Err(error) => give_up(SaveFailure::CreateTempFile { error }),
            },
            (
                SaveStage::WriteTempFile { text: _, temp_file, manifest_file },
                SaveEvent::TempFileWritten(outcome),
            ) => match outcome {
                Ok(_) => SaveStage::FlushTempFile { temp_file, manifest_file },
                Err(error) => give_up(SaveFailure::WriteTempFile { error }),
            },
            (
                SaveStage::FlushTempFile { temp_file, manifest_file },
                SaveEvent::TempFileFlushed(outcome),
            ) => match outcome {
                Ok(_) => SaveStage::ReplaceManifest { temp_file, manifest_file },
                Err(error) => give_up(SaveFailure::FlushTempFile { error }),
            },
            (SaveStage::ReplaceManifest { .. }, SaveEvent::ManifestReplaced(outcome)) =>
                match outcome {
                    Ok(_) => SaveStage::Finished { result: Ok(()) },
                    Err(error) => give_up(SaveFailure::ReplaceManifest { error }),
                },
            (stage, _) => stage,
        }
    }
}

impl VirtualToolManifest {
    /// Takes the next number and names a tool after it: its id, the name that Steam
    /// knows it by, and its directory.
    pub fn next_tool_identity(&mut self) -> (r: (String, String, String))
        requires
            old(self).next_virtual_tool_number < u64::MAX,
        ensures
            final(self)@.next == next_number(old(self)@) + 1,
            final(self).next_virtual_tool_number == if old(self).next_virtual_tool_number == 0 {
                2
            } else {
                old(self).next_virtual_tool_number + 1
            },
            final(self).tools == old(self).tools,
            r.0@ == tool_id(next_number(old(self)@)),
            r.1@ == internal_name(next_number(old(self)@)),
            r.2@ == internal_name(next_number(old(self)@)),
    {
        let number: u64 = if self.next_virtual_tool_number < 1 {
            1
        } else {
            self.next_virtual_tool_number
        };
        self.next_virtual_tool_number = number + 1;
        let numeral = text::decimal_text(number);
        let id = text::labelled("virtual-", numeral.as_str());
        let steam_internal_name = text::labelled("WineCellarVirtual", numeral.as_str());
        (id, steam_internal_name.clone(), steam_internal_name)
    }

    /// Where the first tool with the given id stands.
    pub fn position(&self, virtual_tool_id: &str) -> (r: Option<usize>)
        ensures
            match r {
                Some(i) => slot_position(self@.tools, virtual_tool_id@) == Some(i as int),
                None => slot_position(self@.tools, virtual_tool_id@) is None,
            },
            match r {
                Some(i) => is_first_with(self.tools@, virtual_tool_id@, i as int),
                None => forall|j: int|
                    0 <= j < self.tools@.len() ==> (#[trigger] self.tools@[j]).id@
                        != virtual_tool_id@,
            },
    {
        let wanted = virtual_tool_id.to_string();
        let ghost views = self@.tools;
        let mut i: usize = 0;
        assert(views.take(0) == Seq::<ToolView>::empty());
        while i < self.tools.len()
            invariant
                i <= self.tools.len(),
                wanted@ == virtual_tool_id@,
                views == self@.tools,
                slot_position(views.take(i as int), virtual_tool_id@) is None,
            decreases self.tools.len() - i,
        {
            assert(views.take(i + 1).drop_last() == views.take(i as int));
            assert(views.take(i + 1).last() == self.tools[i as int]@);
            if self.tools[i].id == wanted {
                proof {
                    lemma_slot_position_prefix(views, virtual_tool_id@, i + 1);
                    lemma_first_with(*self, virtual_tool_id@, i as int);
                }
                return Some(i);
            }
            i = i + 1;
        }
        assert(views.take(i as int) == views);
        proof {
            law_slot_position_is_first(views, virtual_tool_id@);
            assert forall|j: int| 0 <= j < self.tools@.len() implies (
            #[trigger] self.tools@[j]).id@ != virtual_tool_id@ by {
                assert(views[j].id == self.tools@[j].id@);
            }
        }
        None
    }
}

proof fn lemma_slot_position_prefix(tools: Seq<ToolView>, id: Seq<char>, n: int)
    requires
        0 <= n <= tools.len(),
        slot_position(tools.take(n), id) is Some,
    ensures
        slot_position(tools, id) == slot_position(tools.take(n), id),
    decreases tools.len(),
{
    if n == tools.len() {
        assert(tools.take(n) == tools);
    } else {
        assert(tools.drop_last().take(n) == tools.take(n));
        lemma_slot_position_prefix(tools.drop_last(), id, n);
    }
}

/// The position that is found is that of the first tool with the id; none is
/// found exactly when no tool has the id.
pub proof fn law_slot_position_is_first(tools: Seq<ToolView>, id: Seq<char>)
    ensures
        match slot_position(tools, id) {
            Some(i) => {
                &&& 0 <= i < tools.len()
                &&& tools[i].id == id
                &&& forall|j: int| 0 <= j < i ==> #[trigger] tools[j].id != id
            },
            None => forall|j: int| 0 <= j < tools.len() ==> #[trigger] tools[j].id != id,
        },
    decreases tools.len(),
{
    if tools.len() > 0 {
        let before = tools.drop_last();
        law_slot_position_is_first(before, id);
        assert forall|j: int| 0 <= j < before.len() implies #[trigger] tools[j] == before[j] by {}
    }
}

/// Is the tool at `i` the first one with the given id?
pub open spec fn is_first_with(tools: Seq<VirtualToolConfig>, id: Seq<char>, i: int) -> bool {
    &&& 0 <= i < tools.len()
    &&& tools[i].id@ == id
    &&& forall|j: int| 0 <= j < i ==> (#[trigger] tools[j]).id@ != id
}

proof fn lemma_first_with(manifest: VirtualToolManifest, id: Seq<char>, i: int)
    requires
        slot_position(manifest@.tools, id) == Some(i),
    ensures
        is_first_with(manifest.tools@, id, i),
{
    law_slot_position_is_first(manifest@.tools, id);
    assert(manifest@.tools[i].id == manifest.tools@[i].id@);
    assert forall|j: int| 0 <= j < i implies (#[trigger] manifest.tools@[j]).id@ != id by {
        assert(manifest@.tools[j].id == manifest.tools@[j].id@);
    }
}

/// The label that a user's text stands for.
pub fn normalize_virtual_tool_label(user_label: &str) -> (r: Result<String, String>)
    ensures
        text::text_result(r) == label_of(user_label@),
{
    let trimmed_label = text::trim(user_label);
    let all = text::characters(trimmed_label.as_str());
    if all.len() == 0 {
        return Err("Virtual tool name cannot be empty".to_string());
    }
    if all.len() > MAX_VIRTUAL_TOOL_LABEL_CHARS {
        let mut message = text::labelled(
            "Virtual tool name must be ",
            text::decimal_text(MAX_VIRTUAL_TOOL_LABEL_CHARS as u64).as_str(),
        );
        message.append(" characters or fewer");
        return Err(message);
    }
    let mut i: usize = 0;
    while i < all.len()
        invariant
            i <= all.len(),
            0 < all.len() <= MAX_VIRTUAL_TOOL_LABEL_CHARS,
            all@ == trimmed_label@,
            trimmed_label@ == text::trimmed(user_label@),
            forall|k: int| 0 <= k < i ==> !text::control_character(#[trigger] all[k]),
        decreases all.len() - i,
    {
        if text::is_control_character(all[i]) {
            assert(text::control_character(trimmed_label@[i as int]));
            return Err("Virtual tool name cannot contain control characters".to_string());
        }
        i = i + 1;
    }
    Ok(trimmed_label)
}

impl WineCask {
    /// The manifest that a read of the manifest file stands for.
    pub fn load_virtual_tool_manifest(&self, read: ManifestRead) -> (r: VirtualToolManifest)
        requires
            read matches ManifestRead::Parsed(manifest) ==> (manifest.next_virtual_tool_number == 0
                ==> manifest.tools@.len() < u64::MAX),
        ensures
            r@ == manifest_of(read),
            read matches ManifestRead::Parsed(manifest) ==> (manifest.next_virtual_tool_number != 0
                ==> r == manifest),
            match read {
                ManifestRead::Parsed(manifest) => r.tools == manifest.tools,
                _ => r.tools@.len() == 0 && r.next_virtual_tool_number == 1,
            },
    {
        match read {
            ManifestRead::Parsed(manifest) => {
                let mut manifest = manifest;
                if manifest.next_virtual_tool_number == 0 {
                    manifest.next_virtual_tool_number = manifest.tools.len() as u64 + 1;
                }
                manifest
            },
            _ => {
                let r = VirtualToolManifest { next_virtual_tool_number: 1, tools: Vec::new() };
                assert(r@ =~= manifest_of(read));
                r
            },
        }
    }

    /// Starts to save `manifest`. It is written to a file beside the manifest file first.
    pub fn save_virtual_tool_manifest(&self, manifest: &VirtualToolManifest) -> (r: SaveStage)
        ensures
            self.is_save_of(r, manifest@),
    {
        match paths::parent_path(self.virtual_tool_manifest_path.as_slice()) {
            Some(directory) => {
                let mut manifest_file: Vec<u8> = Vec::new();
                manifest_file.extend_from_slice(self.virtual_tool_manifest_path.as_slice());
                assert(manifest_file@ == self.virtual_tool_manifest_path@);
                let temp_file = paths::path_with_extension(
                    manifest_file.as_slice(),
                    "json.tmp".as_bytes(),
                );
                SaveStage::PrepareDirectory {
                    manifest: manifest.clone(),
                    directory,
                    temp_file,
                    manifest_file,
                }
            },
            None => give_up(SaveFailure::NoParent),
        }
    }

    /// Is `stage` the first stage of saving a manifest? Without a directory for the manifest
    /// file that is the last stage, too.
    pub open spec fn is_save_of(self, stage: SaveStage, saved: ManifestView) -> bool {
        match paths::parent(self.virtual_tool_manifest_path@) {
            Some(parent) => {
                &&& stage matches SaveStage::PrepareDirectory {
                    manifest,
                    directory,
                    temp_file,
                    manifest_file,
                }
                &&& manifest@ == saved
                &&& directory@ == parent
                &&& temp_file@ == self.temp_manifest_path()
                &&& manifest_file@ == self.virtual_tool_manifest_path@
            },
            None => stage == not_saved(SaveFailure::NoParent),
        }
    }

    /// The file that the manifest is written to before it replaces the manifest file.
    pub open spec fn temp_manifest_path(self) -> Seq<u8> {
        paths::extended(self.virtual_tool_manifest_path@, app::name_bytes("json.tmp"@))
    }

    /// Is `tool` described by `vdf`, in the file `vdf_file` of its directory
    /// `tool_directory`?
    pub open spec fn is_described(
        self,
        tool: ToolView,
        tool_directory: Seq<u8>,
        vdf_file: Seq<u8>,
        vdf: Seq<char>,
    ) -> bool {
        &&& tool_directory == self.tool_path(tool.directory_name)
        &&& vdf_file == app::vdf_path(tool_directory)
        &&& vdf == wine_cask::vdf_text(tool.steam_internal_name, tool.user_label)
    }

    /// Records a new slot in `manifest` and says what is to be created for it,
    /// starting with `SlotStage::CreateDirectory`.
    pub fn create_virtual_tool_slot(
        &self,
        manifest: &mut VirtualToolManifest,
        user_label: &str,
    ) -> (r: Result<NewSlot, String>)
        requires
            label_of(user_label@) is Ok ==> old(manifest).next_virtual_tool_number < u64::MAX,
        ensures
            match label_of(user_label@) {
                Ok(label) => {
                    &&& r matches Ok(slot)
                    &&& slot.label@ == label
                    &&& slot.tool_directory@ == self.tool_path(
                        internal_name(next_number(old(manifest)@)),
                    )
                    &&& slot.vdf_file@ == app::vdf_path(slot.tool_directory@)
                    &&& slot.vdf@ == wine_cask::vdf_text(
                        internal_name(next_number(old(manifest)@)),
                        label,
                    )
                    &&& final(manifest)@ == with_slot(old(manifest)@, label)
                    &&& self.is_save_of(slot.save, final(manifest)@)
                },
                Err(error) => {
                    &&& r matches Err(message)
                    &&& message@ == error
                    &&& *final(manifest) == *old(manifest)
                },
            },
            r matches Ok(slot) ==> {
                let tools = final(manifest).tools@;
                let created = tools.last();
                let number = final(manifest).next_virtual_tool_number - 1;
                &&& tools == old(manifest).tools@.push(created)
                &&& number == old(manifest).next_virtual_tool_number || (number == 1
                    && old(manifest).next_virtual_tool_number == 0)
                &&& created.id@ == "virtual-"@ + text::decimal(number as nat)
                &&& created.user_label@ == slot.label@
                &&& text::is_inside(user_label@, slot.label@)
                &&& created.steam_internal_name@ == "WineCellarVirtual"@ + text::decimal(
                    number as nat,
                )
                &&& created.directory_name@ == created.steam_internal_name@
                &&& created.current_payload_release_id is None
                &&& self.is_described(
                    created@,
                    slot.tool_directory@,
                    slot.vdf_file@,
                    slot.vdf@,
                )
            },
    {
        let label = match normalize_virtual_tool_label(user_label) {
            Ok(label) => label,
            Err(error) => {
                return Err(error);
            },
        };
        proof {
            text::law_trimmed_is_the_inside(user_label@, label@);
        }
        let (id, steam_internal_name, directory_name) = manifest.next_tool_identity();
        let tool_directory = self.tool_directory(directory_name.as_str());
        let vdf = wine_cask::generate_compatibility_tool_vdf(
            steam_internal_name.as_str(),
            label.as_str(),
        );
        manifest.tools.push(
            VirtualToolConfig {
                id,
                user_label: label.clone(),
                steam_internal_name,
                directory_name,
                current_payload_release_id: None,
            },
        );
        assert(manifest@ =~= with_slot(old(manifest)@, label@));
        assert(manifest.tools@ =~= old(manifest).tools@.push(manifest.tools@.last()));
        let vdf_file = app::vdf_file(tool_directory.as_slice());
        let save = self.save_virtual_tool_manifest(&*manifest);
        Ok(NewSlot { label, tool_directory, vdf_file, vdf, save })
    }

    /// Renames the slot with the given id in `manifest` and says what is to be rewritten for
    /// it, starting with `RenameStage::SaveManifest`.
    pub fn rename_virtual_tool_slot(
        &self,
        manifest: &mut VirtualToolManifest,
        virtual_tool_id: &str,
        user_label: &str,
    ) -> (r: Result<RenamedSlot, String>)
        ensures
            match (label_of(user_label@), slot_position(old(manifest)@.tools, virtual_tool_id@)) {
                (Ok(label), Some(i)) => {
                    &&& r matches Ok(slot)
                    &&& slot.label@ == label
                    &&& slot.tool_directory@ == self.tool_path(
                        old(manifest)@.tools[i].directory_name,
                    )
                    &&& slot.vdf_file@ == app::vdf_path(slot.tool_directory@)
                    &&& slot.vdf@ == wine_cask::vdf_text(
                        old(manifest)@.tools[i].steam_internal_name,
                        label,
                    )
                    &&& final(manifest)@ == with_label(old(manifest)@, i, label)
                    &&& self.is_save_of(slot.save, final(manifest)@)
                },
                (Ok(_), None) => {
                    &&& r matches Err(message)
                    &&& message@ == "Virtual tool not found"@
                    &&& *final(manifest) == *old(manifest)
                },
                (Err(error), _) => {
                    &&& r matches Err(message)
                    &&& message@ == error
                    &&& *final(manifest) == *old(manifest)
                },
            },
            r matches Ok(slot) ==> exists|i: int|
                {
                    let before = old(manifest).tools@;
                    let renamed = final(manifest).tools@[i];
                    &&& #[trigger] is_first_with(old(manifest).tools@, virtual_tool_id@, i)
                    &&& final(manifest).tools@ == before.update(i, renamed)
                    &&& renamed.user_label@ == slot.label@
                    &&& text::is_inside(user_label@, slot.label@)
                    &&& renamed == (VirtualToolConfig {
                        user_label: renamed.user_label,
                        ..before[i]
                    })
                    &&& self.is_described(
                        renamed@,
                        slot.tool_directory@,
                        slot.vdf_file@,
                        slot.vdf@,
                    )
                },
            final(manifest).next_virtual_tool_number == old(manifest).next_virtual_tool_number,
    {
        let label = match normalize_virtual_tool_label(user_label) {
            Ok(label) => label,
            Err(error) => {
                return Err(error);
            },
        };
        let position: usize = match manifest.position(virtual_tool_id) {
            Some(position) => position,
            None => {
                return Err("Virtual tool not found".to_string());
            },
        };
        proof {
            law_slot_position_is_first(manifest@.tools, virtual_tool_id@);
        }
        let tool_directory = self.tool_directory(manifest.tools[position].directory_name.as_str());
        let vdf = wine_cask::generate_compatibility_tool_vdf(
            manifest.tools[position].steam_internal_name.as_str(),
            label.as_str(),
        );
        manifest.tools[position].user_label = label.clone();
        assert(manifest@ =~= with_label(old(manifest)@, position as int, label@));
        proof {
            text::law_trimmed_is_the_inside(user_label@, label@);
            lemma_first_with(*old(manifest), virtual_tool_id@, position as int);
            assert(manifest.tools@ =~= old(manifest).tools@.update(
                position as int,
                manifest.tools@[position as int],
            ));
        }
        let vdf_file = app::vdf_file(tool_directory.as_slice());
        let save = self.save_virtual_tool_manifest(&*manifest);
        Ok(RenamedSlot { label, tool_directory, vdf_file, vdf, save })
    }

    /// Records in `manifest` which release is mounted into the slot with the given id, and
    /// starts to save it.
    pub fn update_virtual_tool_payload(
        &self,
        manifest: &mut VirtualToolManifest,
        virtual_tool_id: &str,
        release_id: Option<String>,
    ) -> (r: Result<SaveStage, String>)
        ensures
            match slot_position(old(manifest)@.tools, virtual_tool_id@) {
                Some(i) => {
                    &&& r matches Ok(save)
                    &&& final(manifest)@ == with_payload(
                        old(manifest)@,
                        i,
                        text::optional_text(release_id),
                    )
                    &&& self.is_save_of(save, final(manifest)@)
                },
                None => {
                    &&& r matches Err(message)
                    &&& message@ == "Virtual tool not found"@
                    &&& *final(manifest) == *old(manifest)
                },
            },
            r is Ok ==> exists|i: int|
                {
                    let before = old(manifest).tools@;
                    &&& #[trigger] is_first_with(old(manifest).tools@, virtual_tool_id@, i)
                    &&& final(manifest).tools@ == before.update(
                        i,
                        (VirtualToolConfig { current_payload_release_id: release_id, ..before[i] }),
                    )
                },
            final(manifest).next_virtual_tool_number == old(manifest).next_virtual_tool_number,
    {
        let position: usize = match manifest.position(virtual_tool_id) {
            Some(position) => position,
            None => {
                return Err("Virtual tool not found".to_string());
            },
        };
        proof {
            law_slot_position_is_first(manifest@.tools, virtual_tool_id@);
        }
        let ghost payload = text::optional_text(release_id);
        manifest.tools[position].current_payload_release_id = release_id;
        assert(manifest@ =~= with_payload(old(manifest)@, position as int, payload));
        proof {
            lemma_first_with(*old(manifest), virtual_tool_id@, position as int);
            assert(manifest.tools@ =~= old(manifest).tools@.update(
                position as int,
                VirtualToolConfig {
                    current_payload_release_id: release_id,
                    ..old(manifest).tools@[position as int]
                },
            ));
        }
        Ok(self.save_virtual_tool_manifest(&*manifest))
    }

    /// Removes the slot with the given id from `manifest` and starts to save it.
    pub fn remove_virtual_tool_slot(
        &self,
        manifest: &mut VirtualToolManifest,
        virtual_tool_id: &str,
    ) -> (r: Result<RemovedSlot, String>)
        ensures
            match slot_position(old(manifest)@.tools, virtual_tool_id@) {
                Some(i) => {
                    &&& r matches Ok(slot)
                    &&& slot.label@ == old(manifest)@.tools[i].user_label
                    &&& final(manifest)@ == without_slot(old(manifest)@, i)
                    &&& self.is_save_of(slot.save, final(manifest)@)
                },
                None => {
                    &&& r matches Err(message)
                    &&& message@ == "Virtual tool not found"@
                    &&& *final(manifest) == *old(manifest)
                },
            },
            r matches Ok(slot) ==> exists|i: int|
                {
                    let before = old(manifest).tools@;
                    &&& #[trigger] is_first_with(old(manifest).tools@, virtual_tool_id@, i)
                    &&& before == final(manifest).tools@.insert(i, before[i])
                    &&& slot.label == before[i].user_label
                },
            final(manifest).next_virtual_tool_number == old(manifest).next_virtual_tool_number,
    {
        let position: usize = match manifest.position(virtual_tool_id) {
            Some(position) => position,
            None => {
                return Err("Virtual tool not found".to_string());
            },
        };
        proof {
            law_slot_position_is_first(manifest@.tools, virtual_tool_id@);
        }
        let removed_tool = manifest.tools.remove(position);
        assert(manifest@ =~= without_slot(old(manifest)@, position as int));
        proof {
            lemma_first_with(*old(manifest), virtual_tool_id@, position as int);
            assert(old(manifest).tools@ =~= manifest.tools@.insert(
                position as int,
                old(manifest).tools@[position as int],
            ));
        }
        let save = self.save_virtual_tool_manifest(&*manifest);
        Ok(RemovedSlot { label: removed_tool.user_label, save })
    }
}

} // verus!
