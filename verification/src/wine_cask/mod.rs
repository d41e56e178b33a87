//! The operations on compatibility tools.
use crate::text;
use vstd::prelude::*;
use vstd::string::*;

pub mod app;
pub mod archive;
pub mod direct;
pub mod extract;
pub mod flavors;
pub mod install;
pub mod install_laws;
pub mod mount;
pub mod outcome;
pub mod queue;
pub mod removal;
pub mod removal_laws;
pub mod save_laws;
pub mod slot_removal;
pub mod uninstall;
pub mod unpack;
pub mod virtual_tool_laws;
pub mod virtual_tools;

verus! {

/// The text of the file that describes a compatibility tool to Steam.
pub open spec fn vdf_text(internal_name: Seq<char>, display_name: Seq<char>) -> Seq<char> {
    "\"compatibilitytools\"\n            {\n              \"compat_tools\"\n              {\n                \""@
        + internal_name
        + "\"\n                {\n                  \"install_path\" \".\"\n                  \"display_name\" \""@
        + display_name
        + "\"\n                  \"from_oslist\"  \"windows\"\n                  \"to_oslist\"    \"linux\"\n                }\n              }\n            }\n"@
}

/// The text of the file that describes a compatibility tool to Steam, which knows
/// the tool by `internal_name` and shows it as `display_name`.
pub fn generate_compatibility_tool_vdf(internal_name: &str, display_name: &str) -> (r: String)
    ensures
        r@ == vdf_text(internal_name@, display_name@),
{
    let mut r =
        "\"compatibilitytools\"\n            {\n              \"compat_tools\"\n              {\n                \"".to_string();
    r.append(internal_name);
    r.append(
        "\"\n                {\n                  \"install_path\" \".\"\n                  \"display_name\" \"",
    );
    r.append(display_name);
    r.append(
        "\"\n                  \"from_oslist\"  \"windows\"\n                  \"to_oslist\"    \"linux\"\n                }\n              }\n            }\n",
    );
    r
}

/// A line of text after `indent` blanks.
pub open spec fn line(indent: nat, content: Seq<char>) -> Seq<char> {
    (Seq::new(indent, |i: int| ' ') + content).push('\n')
}

/// `content` in quotation marks.
pub open spec fn quoted(content: Seq<char>) -> Seq<char> {
    seq!['"'] + content + seq!['"']
}

/// The description of a tool is a block of lines: the tool is known by its whole internal
/// name, it is installed where the file is, it is shown under its whole display name, and it
/// lets programs for Windows run on Linux.
pub proof fn law_description_line_by_line(internal_name: Seq<char>, display_name: Seq<char>)
    ensures
        vdf_text(internal_name, display_name) == line(0, quoted("compatibilitytools"@)) + line(
            12,
            "{"@,
        ) + line(14, quoted("compat_tools"@)) + line(14, "{"@) + line(16, quoted(internal_name))
            + line(16, "{"@) + line(18, quoted("install_path"@) + " "@ + quoted("."@)) + line(
            18,
            quoted("display_name"@) + " "@ + quoted(display_name),
        ) + line(18, quoted("from_oslist"@) + "  "@ + quoted("windows"@)) + line(
            18,
            quoted("to_oslist"@) + "    "@ + quoted("linux"@),
        ) + line(16, "}"@) + line(14, "}"@) + line(12, "}"@),
{
    lemma_description_head();
    lemma_description_middle();
    lemma_description_tail();
    let blanks = Seq::new(16, |i: int| ' ');
    let more_blanks = Seq::new(18, |i: int| ' ');
    reveal_strlit("{");
    assert(line(16, quoted(internal_name)) =~= blanks + seq!['"'] + internal_name + seq!['"', '\n']);
    assert(line(18, quoted("display_name"@) + " "@ + quoted(display_name)) =~= more_blanks
        + quoted("display_name"@) + " "@ + seq!['"'] + display_name + seq!['"', '\n']);
    assert(vdf_text(internal_name, display_name) =~= line(0, quoted("compatibilitytools"@)) + line(
        12,
        "{"@,
    ) + line(14, quoted("compat_tools"@)) + line(14, "{"@) + line(16, quoted(internal_name)) + line(
        16,
        "{"@,
    ) + line(18, quoted("install_path"@) + " "@ + quoted("."@)) + line(
        18,
        quoted("display_name"@) + " "@ + quoted(display_name),
    ) + line(18, quoted("from_oslist"@) + "  "@ + quoted("windows"@)) + line(
        18,
        quoted("to_oslist"@) + "    "@ + quoted("linux"@),
    ) + line(16, "}"@) + line(14, "}"@) + line(12, "}"@));
}

proof fn lemma_description_head()
    ensures
        "\"compatibilitytools\"\n            {\n              \"compat_tools\"\n              {\n                \""@
            == line(0, quoted("compatibilitytools"@)) + line(12, "{"@) + line(
            14,
            quoted("compat_tools"@),
        ) + line(14, "{"@) + Seq::new(16, |i: int| ' ') + seq!['"'],
{
    reveal_strlit("\"compatibilitytools\"\n            {\n              \"compat_tools\"\n              {\n                \"");
    reveal_strlit("compatibilitytools");
    reveal_strlit("compat_tools");
    reveal_strlit("{");
    assert("\"compatibilitytools\"\n            {\n              \"compat_tools\"\n              {\n                \""@
        =~= line(0, quoted("compatibilitytools"@)) + line(12, "{"@) + line(
        14,
        quoted("compat_tools"@),
    ) + line(14, "{"@) + Seq::new(16, |i: int| ' ') + seq!['"']);
}

proof fn lemma_description_middle()
    ensures
        "\"\n                {\n                  \"install_path\" \".\"\n                  \"display_name\" \""@
            == seq!['"', '\n'] + line(16, "{"@) + line(
            18,
            quoted("install_path"@) + " "@ + quoted("."@),
        ) + Seq::new(18, |i: int| ' ') + quoted("display_name"@) + " "@ + seq!['"'],
{
    reveal_strlit("\"\n                {\n                  \"install_path\" \".\"\n                  \"display_name\" \"");
    reveal_strlit("install_path");
    reveal_strlit("display_name");
    reveal_strlit("{");
    reveal_strlit(" ");
    reveal_strlit(".");
    assert("\"\n                {\n                  \"install_path\" \".\"\n                  \"display_name\" \""@
        =~= seq!['"', '\n'] + line(16, "{"@) + line(
        18,
        quoted("install_path"@) + " "@ + quoted("."@),
    ) + Seq::new(18, |i: int| ' ') + quoted("display_name"@) + " "@ + seq!['"']);
}

proof fn lemma_description_tail()
    ensures
        "\"\n                  \"from_oslist\"  \"windows\"\n                  \"to_oslist\"    \"linux\"\n                }\n              }\n            }\n"@
            == seq!['"', '\n'] + line(18, quoted("from_oslist"@) + "  "@ + quoted("windows"@)) + line(
            18,
            quoted("to_oslist"@) + "    "@ + quoted("linux"@),
        ) + line(16, "}"@) + line(14, "}"@) + line(12, "}"@),
{
    reveal_strlit("\"\n                  \"from_oslist\"  \"windows\"\n                  \"to_oslist\"    \"linux\"\n                }\n              }\n            }\n");
    reveal_strlit("from_oslist");
    reveal_strlit("windows");
    reveal_strlit("to_oslist");
    reveal_strlit("linux");
    reveal_strlit("}");
    reveal_strlit("  ");
    reveal_strlit("    ");
    assert("\"\n                  \"from_oslist\"  \"windows\"\n                  \"to_oslist\"    \"linux\"\n                }\n              }\n            }\n"@
        =~= seq!['"', '\n'] + line(18, quoted("from_oslist"@) + "  "@ + quoted("windows"@)) + line(
        18,
        quoted("to_oslist"@) + "    "@ + quoted("linux"@),
    ) + line(16, "}"@) + line(14, "}"@) + line(12, "}"@));
}

/// The description of a tool has its internal name and its display name on lines of their
/// own.
pub proof fn law_description_is_in_parts(internal_name: Seq<char>, display_name: Seq<char>)
    ensures
        text::has_part(
            vdf_text(internal_name, display_name),
            line(16, quoted(internal_name)),
        ),
        text::has_part(
            vdf_text(internal_name, display_name),
            line(18, quoted("display_name"@) + " "@ + quoted(display_name)),
        ),
{
    law_description_line_by_line(internal_name, display_name);
    let whole = vdf_text(internal_name, display_name);
    let known = line(16, quoted(internal_name));
    let shown = line(18, quoted("display_name"@) + " "@ + quoted(display_name));
    let head = line(0, quoted("compatibilitytools"@)) + line(12, "{"@) + line(
        14,
        quoted("compat_tools"@),
    ) + line(14, "{"@);
    let middle = line(16, "{"@) + line(18, quoted("install_path"@) + " "@ + quoted("."@));
    let tail = line(18, quoted("from_oslist"@) + "  "@ + quoted("windows"@)) + line(
        18,
        quoted("to_oslist"@) + "    "@ + quoted("linux"@),
    ) + line(16, "}"@) + line(14, "}"@) + line(12, "}"@);
    assert(whole =~= head + known + (middle + shown + tail));
    assert(whole =~= (head + known + middle) + shown + tail);
}

} // verus!
