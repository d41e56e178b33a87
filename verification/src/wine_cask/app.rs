//! What the operations share: the tool directory, the commands of the queue and
//! the progress that is reported.
use crate::paths;
use vstd::prelude::*;
use vstd::string::*;

verus! {

/// Where an installed release goes.
#[derive(Clone, Debug)]
pub enum InstallTarget {
    /// A directory of its own.
    Direct,
    /// The directory of a virtual tool.
    VirtualTool { virtual_tool_id: String },
}

/// What a running operation does.
#[derive(Clone, Copy, Debug, PartialEq, Eq, Structural)]
pub enum OperationState {
    Running,
    Downloading,
    Extracting,
}

/// A queued command.
#[derive(Debug)]
pub enum Command {
    InstallCatalogRelease { release_id: String, target: InstallTarget },
    UninstallInstalledTool { installed_tool_id: String },
    CreateVirtualTool { user_label: String },
    RenameVirtualTool { virtual_tool_id: String, user_label: String },
    RemoveVirtualTool { virtual_tool_id: String },
    RefreshCatalog,
    CancelOperation,
}

/// The manager of the compatibility tools in one directory.
pub struct WineCask {
    /// The directory that Steam looks for compatibility tools in.
    pub compatibility_tools_directory: Vec<u8>,
    /// The file that records the virtual tools.
    pub virtual_tool_manifest_path: Vec<u8>,
}

/// The bytes of a name.
pub open spec fn name_bytes(name: Seq<char>) -> Seq<u8> {
    vstd::utf8::encode_utf8(name)
}

impl WineCask {
    /// The directory of the tool that is called `directory_name`.
    pub open spec fn tool_path(self, directory_name: Seq<char>) -> Seq<u8> {
        paths::joined(self.compatibility_tools_directory@, name_bytes(directory_name))
    }

    /// The directory that installations are staged in.
    pub open spec fn staging_path(self) -> Seq<u8> {
        self.tool_path(".wine-cellar-staging"@)
    }

    /// The directory of the tool that is called `directory_name`.
    pub fn tool_directory(&self, directory_name: &str) -> (r: Vec<u8>)
        ensures
            r@ == self.tool_path(directory_name@),
    {
        paths::join_path(
            self.compatibility_tools_directory.as_slice(),
            directory_name.as_bytes(),
        )
    }

    /// The directory that installations are staged in.
    pub fn staging_directory(&self) -> (r: Vec<u8>)
        ensures
            r@ == self.staging_path(),
    {
        self.tool_directory(".wine-cellar-staging")
    }
}

/// The directory that an installation works in.
pub open spec fn temp_path(staging_root: Seq<u8>) -> Seq<u8> {
    paths::joined(staging_root, name_bytes("temp"@))
}

/// The file in a tool's directory that describes the tool to Steam.
pub open spec fn vdf_path(tool_directory: Seq<u8>) -> Seq<u8> {
    paths::joined(tool_directory, name_bytes("compatibilitytool.vdf"@))
}

/// The file in a tool's directory that describes the tool to Steam.
pub fn vdf_file(tool_directory: &[u8]) -> (r: Vec<u8>)
    ensures
        r@ == vdf_path(tool_directory@),
{
    paths::join_path(tool_directory, "compatibilitytool.vdf".as_bytes())
}

/// Is `name` the name of one file or directory, other than `.` and `..`?
pub open spec fn is_plain_name(name: Seq<char>) -> bool {
    let bytes = name_bytes(name);
    &&& bytes.len() > 0
    &&& forall|i: int| 0 <= i < bytes.len() ==> bytes[i] != paths::SEPARATOR
    &&& bytes != seq![paths::DOT]
    &&& bytes != seq![paths::DOT, paths::DOT]
}

/// A plain name that is resolved in a directory adds that one name to its components.
pub proof fn law_plain_name_is_added(directory: Seq<u8>, name: Seq<char>)
    requires
        is_plain_name(name),
    ensures
        paths::components(paths::joined(directory, name_bytes(name))) == paths::components(
            directory,
        ).push(paths::ComponentView::Normal(name_bytes(name))),
        paths::lies_within(paths::joined(directory, name_bytes(name)), directory),
{
    paths::law_joined_name_is_added(directory, name_bytes(name));
}

/// An ASCII text without a slash, other than `.` and `..`, is a plain name.
pub proof fn law_ascii_name_is_plain(name: Seq<char>)
    requires
        name.len() > 0,
        vstd::utf8::is_ascii_chars(name),
        forall|i: int| 0 <= i < name.len() ==> name[i] != '/',
        name != seq!['.'],
        name != seq!['.', '.'],
    ensures
        is_plain_name(name),
{
    let bytes = name_bytes(name);
    vstd::utf8::is_ascii_chars_encode_utf8(name);
    assert forall|i: int| 0 <= i < bytes.len() implies bytes[i] != paths::SEPARATOR && (bytes[i]
        == paths::DOT ==> name[i] == '.') by {
        assert(bytes[i] == name[i] as u8);
        assert('\0' <= name[i] <= '\u{7f}');
    }
    if bytes == seq![paths::DOT] {
        assert(bytes[0] == paths::DOT);
        assert(name =~= seq!['.']);
    }
    if bytes == seq![paths::DOT, paths::DOT] {
        assert(bytes[0] == paths::DOT && bytes[1] == paths::DOT);
        assert(name =~= seq!['.', '.']);
    }
}

/// An installation works two directories below the compatibility tools, so that it
/// touches none of them.
pub proof fn law_temp_directory_is_below_tools(cask: WineCask)
    ensures
        paths::components(temp_path(cask.staging_path())) == paths::components(
            cask.compatibility_tools_directory@,
        ).push(paths::ComponentView::Normal(name_bytes(".wine-cellar-staging"@))).push(
            paths::ComponentView::Normal(name_bytes("temp"@)),
        ),
        paths::lies_within(temp_path(cask.staging_path()), cask.compatibility_tools_directory@),
{
    reveal_strlit(".wine-cellar-staging");
    reveal_strlit("temp");
    let staging = cask.staging_path();
    assert(".wine-cellar-staging"@.len() > 2);
    assert("temp"@[0] == 't');
    law_ascii_name_is_plain(".wine-cellar-staging"@);
    law_ascii_name_is_plain("temp"@);
    law_plain_name_is_added(cask.compatibility_tools_directory@, ".wine-cellar-staging"@);
    law_plain_name_is_added(staging, "temp"@);
    paths::law_lies_within_transitive(
        temp_path(staging),
        staging,
        cask.compatibility_tools_directory@,
    );
}

/// A tool's directory, its description and the directories of an installation are each one
/// name further than the directory that they are in.
pub proof fn law_each_place_is_one_name_further(cask: WineCask, name: Seq<char>, directory: Seq<u8>)
    requires
        is_plain_name(name),
    ensures
        paths::components(cask.tool_path(name)) == paths::components(
            cask.compatibility_tools_directory@,
        ).push(paths::ComponentView::Normal(vstd::utf8::encode_utf8(name))),
        paths::components(cask.staging_path()) == paths::components(
            cask.compatibility_tools_directory@,
        ).push(paths::ComponentView::Normal(vstd::utf8::encode_utf8(".wine-cellar-staging"@))),
        paths::components(temp_path(directory)) == paths::components(directory).push(
            paths::ComponentView::Normal(vstd::utf8::encode_utf8("temp"@)),
        ),
        paths::components(vdf_path(directory)) == paths::components(directory).push(
            paths::ComponentView::Normal(vstd::utf8::encode_utf8("compatibilitytool.vdf"@)),
        ),
{
    reveal_strlit(".wine-cellar-staging");
    reveal_strlit("temp");
    reveal_strlit("compatibilitytool.vdf");
    assert(".wine-cellar-staging"@.len() > 2);
    assert("temp"@[0] == 't');
    assert("compatibilitytool.vdf"@.len() > 2);
    law_ascii_name_is_plain(".wine-cellar-staging"@);
    law_ascii_name_is_plain("temp"@);
    law_ascii_name_is_plain("compatibilitytool.vdf"@);
    law_plain_name_is_added(cask.compatibility_tools_directory@, name);
    law_plain_name_is_added(cask.compatibility_tools_directory@, ".wine-cellar-staging"@);
    law_plain_name_is_added(directory, "temp"@);
    law_plain_name_is_added(directory, "compatibilitytool.vdf"@);
}

/// A tool's directory follows the directory of the compatibility tools by its name alone,
/// whatever the name is: no part of either is left out.
pub proof fn law_tool_path_is_resolved_among_the_tools(cask: WineCask, name: Seq<char>)
    ensures
        cask.tool_path(name) == paths::joined(
            cask.compatibility_tools_directory@,
            vstd::utf8::encode_utf8(name),
        ),
{
}

} // verus!
