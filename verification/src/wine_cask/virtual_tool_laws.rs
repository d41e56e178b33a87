//! What holds of virtual tools and their manifest across operations.
use crate::paths;
use crate::text;
use crate::wine_cask;
use crate::wine_cask::app;
use crate::wine_cask::app::WineCask;
use crate::wine_cask::virtual_tools;
use crate::wine_cask::virtual_tools::{
    ManifestRead, ManifestView, RenameProgress, RenameStage, SlotStage, ToolView,
    VirtualToolManifest,
};
use vstd::prelude::*;

verus! {

/// Is `tool` named after the number `n`?
pub open spec fn is_numbered(tool: ToolView, n: nat) -> bool {
    &&& tool.id == virtual_tools::tool_id(n)
    &&& tool.steam_internal_name == virtual_tools::internal_name(n)
    &&& tool.directory_name == virtual_tools::internal_name(n)
}

/// Is `tool` named after a number below `next`?
pub open spec fn is_numbered_below(tool: ToolView, next: nat) -> bool {
    exists|n: nat| 1 <= n < next && #[trigger] is_numbered(tool, n)
}

/// Every tool is named after a number that was given out, and no two tools share
/// an id.
pub open spec fn well_formed(m: ManifestView) -> bool {
    &&& m.next >= 1
    &&& forall|i: int| 0 <= i < m.tools.len() ==> is_numbered_below(#[trigger] m.tools[i], m.next)
    &&& forall|i: int, j: int|
        0 <= i < j < m.tools.len() ==> (#[trigger] m.tools[i]).id != (#[trigger] m.tools[j]).id
}

proof fn lemma_prefixed_injective(prefix: Seq<char>, a: Seq<char>, b: Seq<char>)
    requires
        prefix + a == prefix + b,
    ensures
        a == b,
{
    assert(a =~= (prefix + a).skip(prefix.len() as int));
    assert(b =~= (prefix + b).skip(prefix.len() as int));
}

/// Tools with different numbers have different ids and different directories.
pub proof fn law_identities_distinct(a: nat, b: nat)
    requires
        a != b,
    ensures
        virtual_tools::tool_id(a) != virtual_tools::tool_id(b),
        virtual_tools::internal_name(a) != virtual_tools::internal_name(b),
{
    if text::decimal(a) == text::decimal(b) {
        text::law_decimal_injective(a, b);
    }
    if virtual_tools::tool_id(a) == virtual_tools::tool_id(b) {
        lemma_prefixed_injective("virtual-"@, text::decimal(a), text::decimal(b));
    }
    if virtual_tools::internal_name(a) == virtual_tools::internal_name(b) {
        lemma_prefixed_injective("WineCellarVirtual"@, text::decimal(a), text::decimal(b));
    }
}

/// A manifest that was saved with a next number is loaded back as it was: the same number,
/// and the same tools in the same order.
pub proof fn law_saved_manifest_is_loaded_unchanged(manifest: VirtualToolManifest)
    requires
        manifest.next_virtual_tool_number != 0,
    ensures
        virtual_tools::manifest_of(ManifestRead::Parsed(manifest)) == manifest@,
{
}

/// The manifest that stands for a missing or unusable file is well-formed, and so is
/// one that was saved well-formed.
pub proof fn law_loaded_manifest_well_formed(read: ManifestRead)
    requires
        read matches ManifestRead::Parsed(manifest) ==> well_formed(manifest@),
    ensures
        well_formed(virtual_tools::manifest_of(read)),
{
}

/// A manifest that was saved without a next number is well-formed once it is loaded, exactly
/// if no two of its tools share an id and none has a number above their count.
pub proof fn law_unnumbered_manifest_well_formed(manifest: VirtualToolManifest)
    requires
        manifest@.next == 0,
    ensures
        ({
            let tools = manifest@.tools;
            well_formed(virtual_tools::manifest_of(ManifestRead::Parsed(manifest))) <==> {
                &&& forall|i: int|
                    0 <= i < tools.len() ==> is_numbered_below(
                        #[trigger] tools[i],
                        tools.len() + 1,
                    )
                &&& forall|i: int, j: int|
                    0 <= i < j < tools.len() ==> (#[trigger] tools[i]).id != (
                    #[trigger] tools[j]).id
            }
        }),
{
}

/// A new slot has an id and a directory that no other tool has, its manifest is
/// well-formed, and the slot is found under its id.
pub proof fn law_new_slot_is_fresh(m: ManifestView, label: Seq<char>)
    requires
        well_formed(m),
    ensures
        ({
            let n = virtual_tools::next_number(m);
            let after = virtual_tools::with_slot(m, label);
            &&& forall|i: int|
                0 <= i < m.tools.len() ==> (#[trigger] m.tools[i]).id != virtual_tools::tool_id(n)
            &&& forall|i: int|
                0 <= i < m.tools.len() ==> (#[trigger] m.tools[i]).directory_name
                    != virtual_tools::internal_name(n)
            &&& well_formed(after)
            &&& virtual_tools::slot_position(after.tools, virtual_tools::tool_id(n)) == Some(
                m.tools.len() as int,
            )
        }),
{
    let n = virtual_tools::next_number(m);
    let after = virtual_tools::with_slot(m, label);
    assert forall|i: int| 0 <= i < m.tools.len() implies (#[trigger] m.tools[i]).id
        != virtual_tools::tool_id(n) && m.tools[i].directory_name != virtual_tools::internal_name(
        n,
    ) && is_numbered_below(m.tools[i], after.next) by {
        assert(is_numbered_below(m.tools[i], m.next));
        let k = choose|k: nat| 1 <= k < m.next && #[trigger] is_numbered(m.tools[i], k);
        law_identities_distinct(k, n);
        assert(is_numbered(m.tools[i], k));
    }
    assert(is_numbered(virtual_tools::new_slot(n, label), n));
    assert(after.tools.drop_last() =~= m.tools);
    virtual_tools::law_slot_position_is_first(m.tools, virtual_tools::tool_id(n));
}

/// A renamed tool is still found under its id, with its new label and nothing else
/// changed, and a well-formed manifest stays so.
pub proof fn law_renamed_slot_keeps_its_place(m: ManifestView, id: Seq<char>, label: Seq<char>)
    requires
        virtual_tools::slot_position(m.tools, id) is Some,
    ensures
        ({
            let i = virtual_tools::slot_position(m.tools, id)->0;
            let after = virtual_tools::with_label(m, i, label);
            &&& well_formed(m) ==> well_formed(after)
            &&& virtual_tools::slot_position(after.tools, id) == Some(i)
            &&& after.tools[i] == (ToolView { user_label: label, ..m.tools[i] })
            &&& forall|j: int|
                0 <= j < m.tools.len() && j != i ==> #[trigger] after.tools[j] == m.tools[j]
        }),
{
    let i = virtual_tools::slot_position(m.tools, id)->0;
    let after = virtual_tools::with_label(m, i, label);
    virtual_tools::law_slot_position_is_first(m.tools, id);
    lemma_same_ids(m, after, id);
}

/// A tool that another release is mounted into is still found under its id, with that
/// release and nothing else changed, and a well-formed manifest stays so.
pub proof fn law_mounted_slot_keeps_its_place(
    m: ManifestView,
    id: Seq<char>,
    payload: Option<Seq<char>>,
)
    requires
        virtual_tools::slot_position(m.tools, id) is Some,
    ensures
        ({
            let i = virtual_tools::slot_position(m.tools, id)->0;
            let after = virtual_tools::with_payload(m, i, payload);
            &&& well_formed(m) ==> well_formed(after)
            &&& virtual_tools::slot_position(after.tools, id) == Some(i)
            &&& after.tools[i] == (ToolView { payload, ..m.tools[i] })
            &&& forall|j: int|
                0 <= j < m.tools.len() && j != i ==> #[trigger] after.tools[j] == m.tools[j]
        }),
{
    let i = virtual_tools::slot_position(m.tools, id)->0;
    let after = virtual_tools::with_payload(m, i, payload);
    virtual_tools::law_slot_position_is_first(m.tools, id);
    lemma_same_ids(m, after, id);
}

proof fn lemma_same_ids(m: ManifestView, after: ManifestView, id: Seq<char>)
    requires
        virtual_tools::slot_position(m.tools, id) is Some,
        after.next == m.next,
        after.tools.len() == m.tools.len(),
        forall|j: int|
            0 <= j < m.tools.len() ==> {
                &&& (#[trigger] after.tools[j]).id == m.tools[j].id
                &&& after.tools[j].steam_internal_name == m.tools[j].steam_internal_name
                &&& after.tools[j].directory_name == m.tools[j].directory_name
            },
    ensures
        well_formed(m) ==> well_formed(after),
        0 <= virtual_tools::slot_position(m.tools, id)->0 < m.tools.len(),
        virtual_tools::slot_position(after.tools, id) == virtual_tools::slot_position(m.tools, id),
{
    virtual_tools::law_slot_position_is_first(m.tools, id);
    virtual_tools::law_slot_position_is_first(after.tools, id);
    if well_formed(m) {
        assert forall|j: int| 0 <= j < after.tools.len() implies is_numbered_below(
            #[trigger] after.tools[j],
            after.next,
        ) by {
            assert(is_numbered_below(m.tools[j], m.next));
            let k = choose|k: nat| 1 <= k < m.next && #[trigger] is_numbered(m.tools[j], k);
            assert(is_numbered(after.tools[j], k));
        }
        assert forall|i: int, j: int| 0 <= i < j < after.tools.len() implies (
        #[trigger] after.tools[i]).id != (#[trigger] after.tools[j]).id by {
            assert(m.tools[i].id != m.tools[j].id);
        }
    }
    let i = virtual_tools::slot_position(m.tools, id)->0;
    assert(after.tools[i].id == id);
    if let Some(k) = virtual_tools::slot_position(after.tools, id) {
        assert(m.tools[k].id == id);
        assert(after.tools[k].id == id);
    }
}

/// Removing a tool keeps every other tool in its order, and the tool is no longer found
/// exactly when it was the only one with its id: a second removal then finds nothing.
pub proof fn law_removed_slot_is_gone(m: ManifestView, id: Seq<char>)
    requires
        virtual_tools::slot_position(m.tools, id) is Some,
    ensures
        ({
            let i = virtual_tools::slot_position(m.tools, id)->0;
            let after = virtual_tools::without_slot(m, i);
            &&& after.next == m.next
            &&& after.tools == m.tools.take(i) + m.tools.skip(i + 1)
            &&& virtual_tools::slot_position(after.tools, id) is None <==> (forall|j: int|
                0 <= j < m.tools.len() && j != i ==> (#[trigger] m.tools[j]).id != id)
        }),
{
    virtual_tools::law_slot_position_is_first(m.tools, id);
    let i = virtual_tools::slot_position(m.tools, id)->0;
    let after = virtual_tools::without_slot(m, i);
    assert(after.tools =~= m.tools.take(i) + m.tools.skip(i + 1));
    virtual_tools::law_slot_position_is_first(after.tools, id);
    if virtual_tools::slot_position(after.tools, id) is None {
        assert forall|j: int| 0 <= j < m.tools.len() && j != i implies (
        #[trigger] m.tools[j]).id != id by {
            let k = if j < i {
                j
            } else {
                j - 1
            };
            assert(after.tools[k] == m.tools[j]);
        }
    }
    if let Some(k) = virtual_tools::slot_position(after.tools, id) {
        let j = if k < i {
            k
        } else {
            k + 1
        };
        assert(after.tools[k] == m.tools[j]);
    }
}

/// Removing a tool keeps a manifest well-formed, and the next new tool does not get the
/// removed tool's id.
pub proof fn law_removed_id_is_not_used_again(m: ManifestView, id: Seq<char>, label: Seq<char>)
    requires
        well_formed(m),
        virtual_tools::slot_position(m.tools, id) is Some,
    ensures
        ({
            let i = virtual_tools::slot_position(m.tools, id)->0;
            let after = virtual_tools::without_slot(m, i);
            &&& well_formed(after)
            &&& virtual_tools::slot_position(after.tools, id) is None
            &&& virtual_tools::with_slot(after, label).tools.last().id != id
        }),
{
    virtual_tools::law_slot_position_is_first(m.tools, id);
    law_removed_slot_is_gone(m, id);
    let i = virtual_tools::slot_position(m.tools, id)->0;
    let after = virtual_tools::without_slot(m, i);
    assert forall|j: int| 0 <= j < m.tools.len() && j != i implies (#[trigger] m.tools[j]).id
        != id by {
        assert(m.tools[i].id == id);
    }
    assert forall|j: int| 0 <= j < after.tools.len() implies is_numbered_below(
        #[trigger] after.tools[j],
        after.next,
    ) by {
        let k = if j < i {
            j
        } else {
            j + 1
        };
        assert(after.tools[j] == m.tools[k]);
        assert(is_numbered_below(m.tools[k], m.next));
    }
    assert forall|a: int, b: int| 0 <= a < b < after.tools.len() implies (
    #[trigger] after.tools[a]).id != (#[trigger] after.tools[b]).id by {
        let x = if a < i {
            a
        } else {
            a + 1
        };
        let y = if b < i {
            b
        } else {
            b + 1
        };
        assert(after.tools[a] == m.tools[x] && after.tools[b] == m.tools[y]);
    }
    assert(is_numbered_below(m.tools[i], m.next));
    let n = choose|n: nat| 1 <= n < m.next && #[trigger] is_numbered(m.tools[i], n);
    law_identities_distinct(n, virtual_tools::next_number(after));
}

/// Removing a slot that was just created gives back the tools that were there before it, if
/// no tool had its id.
pub proof fn law_created_slot_can_be_removed(m: ManifestView, label: Seq<char>)
    requires
        virtual_tools::slot_position(
            m.tools,
            virtual_tools::tool_id(virtual_tools::next_number(m)),
        ) is None,
    ensures
        ({
            let id = virtual_tools::tool_id(virtual_tools::next_number(m));
            let created = virtual_tools::with_slot(m, label);
            &&& virtual_tools::slot_position(created.tools, id) == Some(m.tools.len() as int)
            &&& virtual_tools::without_slot(created, m.tools.len() as int).tools == m.tools
        }),
{
    let created = virtual_tools::with_slot(m, label);
    assert(created.tools.drop_last() =~= m.tools);
    assert(created.tools.remove(m.tools.len() as int) =~= m.tools);
}

/// Of two labels that a slot is given one after the other the last one counts, and a slot
/// that gets its old label back is as it was.
pub proof fn law_last_label_counts(m: ManifestView, i: int, first: Seq<char>, last: Seq<char>)
    requires
        0 <= i < m.tools.len(),
    ensures
        virtual_tools::with_label(virtual_tools::with_label(m, i, first), i, last)
            == virtual_tools::with_label(m, i, last),
        virtual_tools::with_label(m, i, m.tools[i].user_label) == m,
{
    assert(virtual_tools::with_label(virtual_tools::with_label(m, i, first), i, last)
        =~= virtual_tools::with_label(m, i, last));
    assert(virtual_tools::with_label(m, i, m.tools[i].user_label) =~= m);
}

/// A label that was accepted is accepted again, unchanged.
pub proof fn law_label_is_stable(user_label: Seq<char>)
    requires
        virtual_tools::label_of(user_label) is Ok,
    ensures
        virtual_tools::label_of(virtual_tools::label_of(user_label)->Ok_0)
            == virtual_tools::label_of(user_label),
{
    text::law_trimmed_idempotent(user_label);
}

proof fn lemma_decimal_digits(n: nat)
    ensures
        forall|i: int|
            0 <= i < text::decimal(n).len() ==> '0' <= #[trigger] text::decimal(n)[i] <= '9',
    decreases n,
{
    if n < 10 {
        assert(text::decimal(n) == seq![text::digit(n)]);
    } else {
        lemma_decimal_digits(n / 10);
        assert forall|i: int| 0 <= i < text::decimal(n).len() implies '0' <= #[trigger] text::decimal(
            n,
        )[i] <= '9' by {
            if i < text::decimal(n / 10).len() {
                assert(text::decimal(n)[i] == text::decimal(n / 10)[i]);
            } else {
                assert(text::decimal(n)[i] == text::digit(n % 10));
            }
        }
    }
}

/// The directory of a virtual tool lies directly below the compatibility tools: its
/// path is that of their directory with one name added.
pub proof fn law_slot_directory_is_below_tools(cask: WineCask, n: nat)
    ensures
        paths::components(cask.tool_path(virtual_tools::internal_name(n))) == paths::components(
            cask.compatibility_tools_directory@,
        ).push(paths::ComponentView::Normal(app::name_bytes(virtual_tools::internal_name(n)))),
        paths::lies_within(
            cask.tool_path(virtual_tools::internal_name(n)),
            cask.compatibility_tools_directory@,
        ),
{
    let name = virtual_tools::internal_name(n);
    reveal_strlit("WineCellarVirtual");
    lemma_decimal_digits(n);
    assert(name[0] == 'W');
    app::law_ascii_name_is_plain(name);
    app::law_plain_name_is_added(cask.compatibility_tools_directory@, name);
}

/// How creating a slot ends, when each stage has the given outcome: its result, and
/// whether its directory is removed again.
pub open spec fn creation_outcome(
    stage: SlotStage,
    outcomes: spec_fn(SlotStage) -> Result<(), Seq<char>>,
) -> (Result<(), Seq<char>>, bool)
    decreases slot_stages_left(stage),
{
    match outcomes(stage) {
        Err(error) => (Err(stage.failure(error)), stage.rolls_back()),
        Ok(_) => match stage.following() {
            Some(next) => creation_outcome(next, outcomes),
            None => (Ok(()), false),
        },
    }
}

/// How many stages of creating a slot come after `stage`.
pub open spec fn slot_stages_left(stage: SlotStage) -> nat {
    match stage {
        SlotStage::CreateDirectory => 2,
        SlotStage::WriteVdf => 1,
        SlotStage::SaveManifest => 0,
    }
}

/// A slot is created exactly when every stage succeeds, and a failure leaves no
/// directory behind: one that was created is removed again.
pub proof fn law_failed_slot_leaves_no_directory(
    outcomes: spec_fn(SlotStage) -> Result<(), Seq<char>>,
)
    ensures
        ({
            let (result, rolled_back) = creation_outcome(SlotStage::CreateDirectory, outcomes);
            &&& result is Ok <==> outcomes(SlotStage::CreateDirectory) is Ok && outcomes(
                SlotStage::WriteVdf,
            ) is Ok && outcomes(SlotStage::SaveManifest) is Ok
            &&& rolled_back <==> result is Err && outcomes(SlotStage::CreateDirectory) is Ok
        }),
{
    reveal_with_fuel(creation_outcome, 4);
}

/// A slot that is created is the last tool of the manifest: it has exactly the label that
/// was accepted, which is the user's text without the white space around it; no release is
/// mounted into it; it is named after the number that the manifest gives out next, and its
/// directory is called as Steam knows it. All earlier tools are as they were, and the number
/// is given out once.
pub proof fn law_created_slot_is_as_asked_for(m: ManifestView, user_label: Seq<char>)
    requires
        virtual_tools::label_of(user_label) is Ok,
    ensures
        ({
            let label = virtual_tools::label_of(user_label)->Ok_0;
            let after = virtual_tools::with_slot(m, label);
            let created = after.tools.last();
            let number = if m.next == 0 {
                1nat
            } else {
                m.next
            };
            &&& after.tools.len() == m.tools.len() + 1
            &&& forall|i: int| 0 <= i < m.tools.len() ==> #[trigger] after.tools[i] == m.tools[i]
            &&& after.next == number + 1
            &&& created.user_label == label
            &&& text::is_inside(user_label, created.user_label)
            &&& created.payload is None
            &&& created.id == "virtual-"@ + text::decimal(number)
            &&& created.steam_internal_name == "WineCellarVirtual"@ + text::decimal(number)
            &&& created.directory_name == created.steam_internal_name
        }),
{
    text::law_trimmed_is_the_inside(user_label, text::trimmed(user_label));
}

/// A user's text is accepted as a label exactly when, without the white space around it, it
/// has one to 64 characters and none of them is a control character; the label is then that
/// inside of the text, whole. Any other text is refused for the first of the three reasons
/// that holds.
pub proof fn law_labels_that_are_accepted(user_label: Seq<char>, inside: Seq<char>)
    requires
        text::is_inside(user_label, inside),
    ensures
        ({
            let result = virtual_tools::label_of(user_label);
            let controlled = exists|i: int|
                0 <= i < inside.len() && text::control_character(#[trigger] inside[i]);
            &&& inside.len() == 0 ==> result == Err::<Seq<char>, Seq<char>>(
                "Virtual tool name cannot be empty"@,
            )
            &&& inside.len() > 64 ==> result == Err::<Seq<char>, Seq<char>>(
                "Virtual tool name must be 64 characters or fewer"@,
            )
            &&& 0 < inside.len() <= 64 && controlled ==> result == Err::<Seq<char>, Seq<char>>(
                "Virtual tool name cannot contain control characters"@,
            )
            &&& 0 < inside.len() <= 64 && !controlled ==> result == Ok::<Seq<char>, Seq<char>>(
                inside,
            )
        }),
{
    text::law_trimmed_is_the_inside(user_label, inside);
    reveal_strlit("Virtual tool name must be ");
    reveal_strlit(" characters or fewer");
    reveal_strlit("Virtual tool name must be 64 characters or fewer");
    reveal_with_fuel(text::decimal, 2);
    assert(text::decimal(64) =~= seq!['6', '4']);
    assert("Virtual tool name must be "@ + text::decimal(64) + " characters or fewer"@
        =~= "Virtual tool name must be 64 characters or fewer"@);
}

/// Without a usable manifest file there are no tools, and numbers start at one. A manifest
/// that was read keeps its tools, and its next number unless it has none: that is then one
/// more than the number of its tools.
pub proof fn law_manifest_that_a_read_stands_for(manifest: VirtualToolManifest)
    ensures
        virtual_tools::manifest_of(ManifestRead::Missing).tools.len() == 0,
        virtual_tools::manifest_of(ManifestRead::Missing).next == 1,
        virtual_tools::manifest_of(ManifestRead::Unreadable).tools.len() == 0,
        virtual_tools::manifest_of(ManifestRead::Unreadable).next == 1,
        virtual_tools::manifest_of(ManifestRead::Malformed).tools.len() == 0,
        virtual_tools::manifest_of(ManifestRead::Malformed).next == 1,
        virtual_tools::manifest_of(ManifestRead::Parsed(manifest)).tools == manifest@.tools,
        virtual_tools::manifest_of(ManifestRead::Parsed(manifest)).next == if manifest@.next == 0 {
            manifest@.tools.len() + 1
        } else {
            manifest@.next
        },
{
}

/// In specifications a manifest has the tools, in the order and with the fields that it has.
pub proof fn law_manifest_is_seen_as_it_is(manifest: VirtualToolManifest, i: int)
    requires
        0 <= i < manifest.tools@.len(),
    ensures
        manifest@.next == manifest.next_virtual_tool_number,
        manifest@.tools.len() == manifest.tools@.len(),
        manifest@.tools[i].id == manifest.tools@[i].id@,
        manifest@.tools[i].user_label == manifest.tools@[i].user_label@,
        manifest@.tools[i].steam_internal_name == manifest.tools@[i].steam_internal_name@,
        manifest@.tools[i].directory_name == manifest.tools@[i].directory_name@,
        manifest@.tools[i].payload == match manifest.tools@[i].current_payload_release_id {
            Some(release_id) => Some(release_id@),
            None => None,
        },
{
}

/// Of two releases that are mounted into a slot one after the other the last one counts, and
/// mounting what was mounted before changes nothing.
pub proof fn law_last_payload_counts(
    m: ManifestView,
    i: int,
    first: Option<Seq<char>>,
    last: Option<Seq<char>>,
)
    requires
        0 <= i < m.tools.len(),
    ensures
        virtual_tools::with_payload(virtual_tools::with_payload(m, i, first), i, last)
            == virtual_tools::with_payload(m, i, last),
        virtual_tools::with_payload(m, i, m.tools[i].payload) == m,
        virtual_tools::with_payload(m, i, last).tools[i].payload == last,
{
    assert(virtual_tools::with_payload(virtual_tools::with_payload(m, i, first), i, last)
        =~= virtual_tools::with_payload(m, i, last));
    assert(virtual_tools::with_payload(m, i, m.tools[i].payload) =~= m);
}

/// What is done to one tool of a manifest does not depend on the others, and a label and a
/// release that a slot is given do not get into each other's way.
pub proof fn law_label_and_payload_are_independent(
    m: ManifestView,
    i: int,
    label: Seq<char>,
    payload: Option<Seq<char>>,
)
    requires
        0 <= i < m.tools.len(),
    ensures
        virtual_tools::with_payload(virtual_tools::with_label(m, i, label), i, payload)
            == virtual_tools::with_label(virtual_tools::with_payload(m, i, payload), i, label),
        virtual_tools::with_payload(
            virtual_tools::with_label(m, i, label),
            i,
            payload,
        ).tools[i] == (ToolView { user_label: label, payload, ..m.tools[i] }),
{
    assert(virtual_tools::with_payload(virtual_tools::with_label(m, i, label), i, payload)
        =~= virtual_tools::with_label(virtual_tools::with_payload(m, i, payload), i, label));
}

/// The directory of a slot comes first, its description next and the manifest last; what the
/// user is told names the work that failed and the whole error, and the error of a save is
/// told as it is.
pub proof fn law_slot_stages_come_in_order(error: Seq<char>)
    ensures
        SlotStage::CreateDirectory.following() == Some(SlotStage::WriteVdf),
        SlotStage::WriteVdf.following() == Some(SlotStage::SaveManifest),
        SlotStage::SaveManifest.following() is None,
        SlotStage::CreateDirectory.failure(error) == "Failed to create virtual tool directory: "@
            + error,
        SlotStage::WriteVdf.failure(error) == "Failed to write virtual tool VDF: "@ + error,
        SlotStage::SaveManifest.failure(error) == error,
{
}

/// A tool is described by a file directly in its directory, which is directly below the
/// compatibility tools; the description has the whole name that Steam knows the tool by, and
/// the whole label that it is shown under, each on a line of its own.
pub proof fn law_description_is_that_of_the_tool(
    cask: WineCask,
    tool: ToolView,
    tool_directory: Seq<u8>,
    vdf_file: Seq<u8>,
    vdf: Seq<char>,
)
    requires
        cask.is_described(tool, tool_directory, vdf_file, vdf),
        app::is_plain_name(tool.directory_name),
    ensures
        ({
            let place = paths::components(cask.compatibility_tools_directory@).push(
                paths::ComponentView::Normal(app::name_bytes(tool.directory_name)),
            );
            &&& paths::components(tool_directory) == place
            &&& paths::components(vdf_file) == place.push(
                paths::ComponentView::Normal(app::name_bytes("compatibilitytool.vdf"@)),
            )
            &&& text::has_part(
                vdf,
                wine_cask::line(16, wine_cask::quoted(tool.steam_internal_name)),
            )
            &&& text::has_part(
                vdf,
                wine_cask::line(
                    18,
                    wine_cask::quoted("display_name"@) + " "@ + wine_cask::quoted(
                        tool.user_label,
                    ),
                ),
            )
        }),
{
    app::law_each_place_is_one_name_further(cask, tool.directory_name, tool_directory);
    wine_cask::law_description_is_in_parts(tool.steam_internal_name, tool.user_label);
}

/// Renaming goes on to the description once the manifest is saved, and fails with the whole
/// error if it is not; that the description was not rewritten does not matter. A slot that
/// could not be created is rolled back unless its directory was what could not be created.
pub proof fn law_rename_stages_come_in_order(error: String)
    ensures
        RenameStage::SaveManifest.progress(Ok(())) == RenameProgress::Continue(
            RenameStage::RewriteVdf,
        ),
        RenameStage::SaveManifest.progress(Err(error)) == (RenameProgress::Failed { error }),
        RenameStage::RewriteVdf.progress(Ok(())) is Renamed,
        RenameStage::RewriteVdf.progress(Err(error)) is Renamed,
        !SlotStage::CreateDirectory.rolls_back(),
        SlotStage::WriteVdf.rolls_back(),
        SlotStage::SaveManifest.rolls_back(),
{
}

} // verus!
