//! Installing an extracted release into a directory of its own.
use crate::paths;
use crate::text;
use crate::wine_cask;
use crate::wine_cask::app;
use crate::wine_cask::app::WineCask;
use crate::wine_cask::flavors::{CatalogRelease, CompatibilityToolFlavor};
use crate::wine_cask::outcome::{InstallFailure, InstallSuccess};
use vstd::prelude::*;
use vstd::string::*;

verus! {

broadcast use vstd::string::group_string_axioms;

/// What is to be done next to install an extracted release directly.
#[derive(Debug)]
pub enum DirectStage {
    /// Write `text`, the description of the tool, to `file`.
    WriteVdf { file: Vec<u8>, text: String },
    /// Rename the extracted directory.
    RenameLayout { from: Vec<u8>, to: Vec<u8> },
    /// Look whether something is at `target`, before `source` is moved there.
    CheckTarget { source: Vec<u8>, target: Vec<u8> },
    /// Move the directory to the compatibility tools.
    Move { from: Vec<u8>, to: Vec<u8> },
    /// Nothing: the installation has ended.
    Finished { result: Result<InstallSuccess, InstallFailure> },
}

/// What came of a stage.
#[derive(Debug)]
pub enum DirectEvent {
    VdfWritten,
    LayoutRenamed(Result<(), String>),
    /// What is in the way, as it is shown.
    TargetChecked(Option<String>),
    Moved(Result<(), String>),
}

/// What is to be done next, in specifications.
pub enum DirectView {
    WriteVdf { file: Seq<u8>, text: Seq<char> },
    RenameLayout { from: Seq<u8>, to: Seq<u8> },
    CheckTarget { source: Seq<u8>, target: Seq<u8> },
    Move { from: Seq<u8>, to: Seq<u8> },
    Finished { result: Result<InstallSuccess, InstallFailure> },
}

impl View for DirectStage {
    type V = DirectView;

    open spec fn view(&self) -> DirectView {
        match self {
            DirectStage::WriteVdf { file, text } => DirectView::WriteVdf {
                file: file@,
                text: text@,
            },
            DirectStage::RenameLayout { from, to } => DirectView::RenameLayout {
                from: from@,
                to: to@,
            },
            DirectStage::CheckTarget { source, target } => DirectView::CheckTarget {
                source: source@,
                target: target@,
            },
            DirectStage::Move { from, to } => DirectView::Move { from: from@, to: to@ },
            DirectStage::Finished { result } => DirectView::Finished { result: *result },
        }
    }
}

/// Does a release of this flavor keep the directory that its archive holds?
pub open spec fn keeps_directory(flavor: CompatibilityToolFlavor) -> bool {
    flavor == CompatibilityToolFlavor::ProtonGE || flavor == CompatibilityToolFlavor::ProtonCachyOS
}

/// The directory that a release which does not keep its own is installed in.
pub open spec fn folder_name(release: CatalogRelease) -> Seq<char> {
    release.flavor_name@ + release.release.tag_name@
}

/// The description of a release which does not keep its own.
pub open spec fn description(release: CatalogRelease) -> Seq<char> {
    wine_cask::vdf_text(
        folder_name(release),
        release.flavor_name@ + " "@ + release.release.tag_name@,
    )
}

/// The directory that a release which does not keep its own gets beside the extracted one.
pub open spec fn layout_path(directory: Seq<u8>, release: CatalogRelease) -> Seq<u8> {
    paths::joined(directory, app::name_bytes(folder_name(release)))
}

/// The end of an installation that failed.
pub open spec fn failed(failure: InstallFailure) -> DirectView {
    DirectView::Finished { result: Err(failure) }
}

/// The stage in which it is known what is installed: it goes to the compatibility tools
/// under its own name.
pub open spec fn ready(cask: WineCask, source: Seq<u8>) -> DirectView {
    match paths::file_name(source) {
        Some(name) => DirectView::CheckTarget {
            source,
            target: paths::joined(cask.compatibility_tools_directory@, name),
        },
        None => failed(InstallFailure::UnresolvedName),
    }
}

/// The first stage of the installation of `release`, which was extracted to `extracted`.
pub open spec fn started(
    cask: WineCask,
    extracted: Seq<u8>,
    release: CatalogRelease,
) -> DirectView {
    if paths::parent(extracted) is None {
        failed(InstallFailure::MissingParent)
    } else if keeps_directory(release.flavor) {
        ready(cask, extracted)
    } else if release.flavor == CompatibilityToolFlavor::Unknown {
        failed(InstallFailure::UnsupportedFlavor)
    } else {
        DirectView::WriteVdf { file: app::vdf_path(extracted), text: description(release) }
    }
}

impl DirectView {
    /// Is the event an outcome of this stage?
    pub open spec fn awaits(self, event: DirectEvent) -> bool {
        match self {
            DirectView::WriteVdf { .. } => event is VdfWritten,
            DirectView::RenameLayout { .. } => event is LayoutRenamed,
            DirectView::CheckTarget { .. } => event is TargetChecked,
            DirectView::Move { .. } => event is Moved,
            DirectView::Finished { .. } => false,
        }
    }

    /// The stage that an event leads to. A directory that has the right name already is not
    /// renamed.
    pub open spec fn after(
        self,
        cask: WineCask,
        extracted: Seq<u8>,
        release: CatalogRelease,
        event: DirectEvent,
    ) -> DirectView {
        match (self, event) {
            (DirectView::WriteVdf { .. }, _) => match paths::parent(extracted) {
                Some(directory) => {
                    let layout = layout_path(directory, release);
                    if paths::same_place(layout, extracted) {
                        ready(cask, layout)
                    } else {
                        DirectView::RenameLayout { from: extracted, to: layout }
                    }
                },
                None => failed(InstallFailure::MissingParent),
            },
            (DirectView::RenameLayout { from, to }, DirectEvent::LayoutRenamed(outcome)) =>
                match outcome {
                    Ok(_) => ready(cask, to),
                    Err(error) => failed(InstallFailure::Layout { error }),
                },
            (DirectView::CheckTarget { source, target }, DirectEvent::TargetChecked(existing)) =>
                match existing {
                    Some(path) => failed(InstallFailure::AlreadyExists { path }),
                    None => DirectView::Move { from: source, to: target },
                },
            (DirectView::Move { from, to }, DirectEvent::Moved(outcome)) => match outcome {
                Ok(_) => DirectView::Finished {
                    result: Ok(InstallSuccess::Completed { tag_name: release.release.tag_name }),
                },
                Err(error) => failed(InstallFailure::Move { error }),
            },
            _ => self,
        }
    }
}

/// The directory that a release which does not keep its own is installed in.
pub fn direct_folder_name(release: &CatalogRelease) -> (r: String)
    ensures
        r@ == folder_name(*release),
{
    text::labelled(release.flavor_name.as_str(), release.release.tag_name.as_str())
}

/// The description of a release which does not keep its own.
pub fn direct_vdf(release: &CatalogRelease) -> (r: String)
    ensures
        r@ == description(*release),
{
    let internal_name = direct_folder_name(release);
    let mut display_name = text::labelled(release.flavor_name.as_str(), " ");
    display_name.append(release.release.tag_name.as_str());
    wine_cask::generate_compatibility_tool_vdf(internal_name.as_str(), display_name.as_str())
}

/// Ends an installation that failed.
fn fail(failure: InstallFailure) -> (r: DirectStage)
    ensures
        r@ == failed(failure),
{
    DirectStage::Finished { result: Err(failure) }
}

/// Finds out where `source` goes.
fn prepare(cask: &WineCask, source: Vec<u8>) -> (r: DirectStage)
    ensures
        r@ == ready(*cask, source@),
{
    match paths::path_file_name(source.as_slice()) {
        Some(name) => {
            let target = paths::join_path(
                cask.compatibility_tools_directory.as_slice(),
                name.as_slice(),
            );
            DirectStage::CheckTarget { source, target }
        },
        None => fail(InstallFailure::UnresolvedName),
    }
}

impl DirectStage {
    /// Is the event an outcome of this stage?
    pub fn expects(&self, event: &DirectEvent) -> (r: bool)
        ensures
            r == self@.awaits(*event),
    {
        match (self, event) {
            (DirectStage::WriteVdf { .. }, DirectEvent::VdfWritten) => true,
            (DirectStage::RenameLayout { .. }, DirectEvent::LayoutRenamed(_)) => true,
            (DirectStage::CheckTarget { .. }, DirectEvent::TargetChecked(_)) => true,
            (DirectStage::Move { .. }, DirectEvent::Moved(_)) => true,
            _ => false,
        }
    }

    /// Takes the outcome of this stage in the installation of `release`, which was extracted
    /// to `extracted_directory`.
    pub fn advance(
        self,
        cask: &WineCask,
        extracted_directory: &[u8],
        release: &CatalogRelease,
        event: DirectEvent,
    ) -> (r: DirectStage)
        requires
            self@.awaits(event),
        ensures
            r@ == self@.after(*cask, extracted_directory@, *release, event),
    {
        match (self, event) {
            (DirectStage::WriteVdf { .. }, _) => match paths::parent_path(extracted_directory) {
                Some(directory) => {
                    let name = direct_folder_name(release);
                    let layout = paths::join_path(directory.as_slice(), name.as_str().as_bytes());
                    if paths::is_same_place(layout.as_slice(), extracted_directory) {
                        prepare(cask, layout)
                    } else {
                        let mut from: Vec<u8> = Vec::new();
                        from.extend_from_slice(extracted_directory);
                        assert(from@ == extracted_directory@);
                        DirectStage::RenameLayout { from, to: layout }
                    }
                },
                None => fail(InstallFailure::MissingParent),
            },
            (DirectStage::RenameLayout { from: _, to }, DirectEvent::LayoutRenamed(outcome)) =>
                match outcome {
                    Ok(_) => prepare(cask, to),
                    Err(error) => fail(InstallFailure::Layout { error }),
                },
            (DirectStage::CheckTarget { source, target }, DirectEvent::TargetChecked(existing)) =>
                match existing {
                    Some(path) => fail(InstallFailure::AlreadyExists { path }),
                    None => DirectStage::Move { from: source, to: target },
                },
            (DirectStage::Move { .. }, DirectEvent::Moved(outcome)) => match outcome {
                Ok(_) => DirectStage::Finished {
                    result: Ok(
                        InstallSuccess::Completed { tag_name: release.release.tag_name.clone() },
                    ),
                },
                Err(error) => fail(InstallFailure::Move { error }),
            },
            (stage, _) => stage,
        }
    }
}

impl WineCask {
    /// Starts to install `release`, which was extracted to `extracted_directory`, into a
    /// directory of its own.
    pub fn install_direct_tool(
        &self,
        extracted_directory: &[u8],
        release: &CatalogRelease,
    ) -> (r: DirectStage)
        ensures
            r@ == started(*self, extracted_directory@, *release),
    {
        if paths::parent_path(extracted_directory).is_none() {
            return fail(InstallFailure::MissingParent);
        }
        match release.flavor {
            CompatibilityToolFlavor::ProtonGE | CompatibilityToolFlavor::ProtonCachyOS => {
                let mut source: Vec<u8> = Vec::new();
                source.extend_from_slice(extracted_directory);
                assert(source@ == extracted_directory@);
                prepare(self, source)
            },
            CompatibilityToolFlavor::SteamTinkerLaunch
            | CompatibilityToolFlavor::Luxtorpeda
            | CompatibilityToolFlavor::Boxtron => DirectStage::WriteVdf {
                file: app::vdf_file(extracted_directory),
                text: direct_vdf(release),
            },
            CompatibilityToolFlavor::Unknown => fail(InstallFailure::UnsupportedFlavor),
        }
    }
}

/// Can the events follow one another from `stage` on?
pub open spec fn can_follow(
    stage: DirectView,
    cask: WineCask,
    extracted: Seq<u8>,
    release: CatalogRelease,
    events: Seq<DirectEvent>,
) -> bool
    decreases events.len(),
{
    events.len() == 0 || (stage.awaits(events[0]) && can_follow(
        stage.after(cask, extracted, release, events[0]),
        cask,
        extracted,
        release,
        events.drop_first(),
    ))
}

/// The stage that a sequence of events leads to.
pub open spec fn after_events(
    stage: DirectView,
    cask: WineCask,
    extracted: Seq<u8>,
    release: CatalogRelease,
    events: Seq<DirectEvent>,
) -> DirectView
    decreases events.len(),
{
    if events.len() == 0 {
        stage
    } else {
        after_events(
            stage.after(cask, extracted, release, events[0]),
            cask,
            extracted,
            release,
            events.drop_first(),
        )
    }
}

/// A directory is moved to the compatibility tools only after it was found that nothing
/// of its name is there: an installed tool is never replaced.
pub proof fn law_installed_tool_is_not_replaced(
    cask: WineCask,
    extracted: Seq<u8>,
    release: CatalogRelease,
    events: Seq<DirectEvent>,
    i: int,
)
    requires
        can_follow(started(cask, extracted, release), cask, extracted, release, events),
        0 <= i < events.len(),
        events[i] is Moved,
    ensures
        i > 0,
        events[i - 1] == DirectEvent::TargetChecked(None),
{
    lemma_move_after_check(started(cask, extracted, release), cask, extracted, release, events, i);
}

proof fn lemma_move_after_check(
    stage: DirectView,
    cask: WineCask,
    extracted: Seq<u8>,
    release: CatalogRelease,
    events: Seq<DirectEvent>,
    i: int,
)
    requires
        can_follow(stage, cask, extracted, release, events),
        0 <= i < events.len(),
        events[i] is Moved,
        !(stage is Move),
    ensures
        i > 0,
        events[i - 1] == DirectEvent::TargetChecked(None),
    decreases events.len(),
{
    assert(stage.awaits(events[0]));
    if i > 0 {
        let next = stage.after(cask, extracted, release, events[0]);
        let rest = events.drop_first();
        assert(can_follow(next, cask, extracted, release, rest));
        assert(next.awaits(rest[0]));
        assert(rest[i - 1] == events[i]);
        if next is Move {
            if i > 1 {
                let ended = next.after(cask, extracted, release, rest[0]);
                assert(can_follow(ended, cask, extracted, release, rest.drop_first()));
                assert(ended.awaits(rest.drop_first()[0]));
            }
        } else {
            lemma_move_after_check(next, cask, extracted, release, rest, i - 1);
            assert(rest[i - 2] == events[i - 1]);
        }
    }
}

/// Does the stage place a directory under its own name directly below the compatibility
/// tools, if it places one?
pub open spec fn is_placed_below_tools(stage: DirectView, cask: WineCask) -> bool {
    match stage {
        DirectView::CheckTarget { source, target } => is_placed(source, target, cask),
        DirectView::Move { from, to } => is_placed(from, to, cask),
        _ => true,
    }
}

/// Is `target` the place of `source` below the compatibility tools?
pub open spec fn is_placed(source: Seq<u8>, target: Seq<u8>, cask: WineCask) -> bool {
    &&& paths::file_name(source) is Some
    &&& paths::components(target) == paths::components(cask.compatibility_tools_directory@).push(
        paths::ComponentView::Normal(paths::file_name(source)->0),
    )
}

/// What is installed goes directly below the compatibility tools, whatever the archive and
/// the release are called: the path it is moved to is theirs with one name added, and that
/// name is its own.
pub proof fn law_tool_is_placed_below_tools(
    cask: WineCask,
    extracted: Seq<u8>,
    release: CatalogRelease,
    events: Seq<DirectEvent>,
)
    requires
        can_follow(started(cask, extracted, release), cask, extracted, release, events),
    ensures
        is_placed_below_tools(
            after_events(
                started(cask, extracted, release),
                cask,
                extracted,
                release,
                events,
            ),
            cask,
        ),
{
    lemma_ready_is_placed(cask, extracted);
    lemma_stays_placed(started(cask, extracted, release), cask, extracted, release, events);
}

/// A release which does not keep its own directory goes to the one that is called after
/// its flavor and its tag, where these make one plain name.
pub proof fn law_renamed_tool_is_called_after_its_release(
    cask: WineCask,
    directory: Seq<u8>,
    release: CatalogRelease,
)
    requires
        app::is_plain_name(folder_name(release)),
    ensures
        ready(cask, layout_path(directory, release)) == (DirectView::CheckTarget {
            source: layout_path(directory, release),
            target: cask.tool_path(folder_name(release)),
        }),
{
    app::law_plain_name_is_added(directory, folder_name(release));
}

proof fn lemma_ready_is_placed(cask: WineCask, source: Seq<u8>)
    ensures
        is_placed_below_tools(ready(cask, source), cask),
{
    if paths::file_name(source) is Some {
        paths::law_file_name_is_one_name(source);
        paths::law_joined_name_is_added(
            cask.compatibility_tools_directory@,
            paths::file_name(source)->0,
        );
    }
}

proof fn lemma_stays_placed(
    stage: DirectView,
    cask: WineCask,
    extracted: Seq<u8>,
    release: CatalogRelease,
    events: Seq<DirectEvent>,
)
    requires
        can_follow(stage, cask, extracted, release, events),
        is_placed_below_tools(stage, cask),
    ensures
        is_placed_below_tools(after_events(stage, cask, extracted, release, events), cask),
    decreases events.len(),
{
    if events.len() > 0 {
        if let Some(directory) = paths::parent(extracted) {
            lemma_ready_is_placed(cask, layout_path(directory, release));
        }
        if let DirectView::RenameLayout { from, to } = stage {
            lemma_ready_is_placed(cask, to);
        }
        lemma_stays_placed(
            stage.after(cask, extracted, release, events[0]),
            cask,
            extracted,
            release,
            events.drop_first(),
        );
    }
}

/// A release of an unknown flavor is not installed: nothing is written, renamed or
/// moved for it.
pub proof fn law_unknown_flavor_is_refused(
    cask: WineCask,
    extracted: Seq<u8>,
    release: CatalogRelease,
)
    requires
        release.flavor == CompatibilityToolFlavor::Unknown,
    ensures
        started(cask, extracted, release) == failed(
            if paths::parent(extracted) is Some {
                InstallFailure::UnsupportedFlavor
            } else {
                InstallFailure::MissingParent
            },
        ),
{
}

proof fn lemma_last_event(
    start: DirectView,
    cask: WineCask,
    extracted: Seq<u8>,
    release: CatalogRelease,
    events: Seq<DirectEvent>,
)
    requires
        can_follow(start, cask, extracted, release, events),
        events.len() > 0,
    ensures
        can_follow(start, cask, extracted, release, events.drop_last()),
        after_events(start, cask, extracted, release, events.drop_last()).awaits(events.last()),
        after_events(start, cask, extracted, release, events) == after_events(
            start,
            cask,
            extracted,
            release,
            events.drop_last(),
        ).after(cask, extracted, release, events.last()),
    decreases events.len(),
{
    let next = start.after(cask, extracted, release, events[0]);
    let rest = events.drop_first();
    assert(can_follow(next, cask, extracted, release, rest));
    if events.len() == 1 {
        assert(after_events(next, cask, extracted, release, rest) == next);
        assert(after_events(start, cask, extracted, release, events.drop_last()) == start);
    } else {
        lemma_last_event(next, cask, extracted, release, rest);
        assert(rest.last() == events.last());
        assert(rest.drop_last() =~= events.drop_last().drop_first());
        assert(events.drop_last()[0] == events[0]);
    }
}

/// In specifications a stage has the paths and the text that it has.
pub proof fn law_stage_is_seen_as_it_is(stage: DirectStage)
    ensures
        match stage {
            DirectStage::WriteVdf { file, text } => stage@ == (DirectView::WriteVdf {
                file: file@,
                text: text@,
            }),
            DirectStage::RenameLayout { from, to } => stage@ == (DirectView::RenameLayout {
                from: from@,
                to: to@,
            }),
            DirectStage::CheckTarget { source, target } => stage@ == (DirectView::CheckTarget {
                source: source@,
                target: target@,
            }),
            DirectStage::Move { from, to } => stage@ == (DirectView::Move {
                from: from@,
                to: to@,
            }),
            DirectStage::Finished { result } => stage@ == (DirectView::Finished { result }),
        },
{
}

/// An installation takes every outcome of its stages, whatever it is, and no other.
pub proof fn law_every_outcome_is_taken(stage: DirectView, event: DirectEvent)
    ensures
        stage.awaits(event) <==> {
            ||| stage is WriteVdf && event is VdfWritten
            ||| stage is RenameLayout && event is LayoutRenamed
            ||| stage is CheckTarget && event is TargetChecked
            ||| stage is Move && event is Moved
        },
{
}

/// How an installation begins, by the flavor of the release: a Proton build is placed as it
/// was extracted, the other known tools are described under their flavor and tag first, and
/// anything else is refused, as is a directory without a parent or a name.
pub proof fn law_flavor_decides_how_it_begins(
    cask: WineCask,
    extracted: Seq<u8>,
    release: CatalogRelease,
)
    ensures
        ({
            let stage = started(cask, extracted, release);
            if paths::parent(extracted) is None {
                stage == (DirectView::Finished { result: Err(InstallFailure::MissingParent) })
            } else {
                match release.flavor {
                    CompatibilityToolFlavor::ProtonGE => is_placing(stage, cask, extracted),
                    CompatibilityToolFlavor::ProtonCachyOS => is_placing(stage, cask, extracted),
                    CompatibilityToolFlavor::SteamTinkerLaunch => is_describing(
                        stage,
                        extracted,
                        release,
                    ),
                    CompatibilityToolFlavor::Luxtorpeda => is_describing(stage, extracted, release),
                    CompatibilityToolFlavor::Boxtron => is_describing(stage, extracted, release),
                    CompatibilityToolFlavor::Unknown => stage == (DirectView::Finished {
                        result: Err(InstallFailure::UnsupportedFlavor),
                    }),
                }
            }
        }),
{
    lemma_ready_is_placed(cask, extracted);
}

/// Does the stage look whether `source` can be placed below the compatibility tools under
/// its own name, or fail because it has no name?
pub open spec fn is_placing(stage: DirectView, cask: WineCask, source: Seq<u8>) -> bool {
    match paths::file_name(source) {
        Some(name) => stage matches DirectView::CheckTarget { source: from, target } && from
            == source && paths::components(target) == paths::components(
            cask.compatibility_tools_directory@,
        ).push(paths::ComponentView::Normal(name)),
        None => stage == (DirectView::Finished { result: Err(InstallFailure::UnresolvedName) }),
    }
}

/// Does the stage describe the release, in the extracted directory, by its flavor and tag?
pub open spec fn is_describing(
    stage: DirectView,
    extracted: Seq<u8>,
    release: CatalogRelease,
) -> bool {
    stage == (DirectView::WriteVdf {
        file: app::vdf_path(extracted),
        text: wine_cask::vdf_text(
            release.flavor_name@ + release.release.tag_name@,
            release.flavor_name@ + " "@ + release.release.tag_name@,
        ),
    })
}

/// What the last outcome of an installation leads to: a failure ends it with that failure,
/// and anything else leads to the next piece of work, up to the success. A tool that was
/// described goes to the directory beside the extracted one that is called after its flavor
/// and tag, and what was looked at is what is moved.
pub proof fn law_installation_goes_on_or_ends(
    start: DirectView,
    cask: WineCask,
    extracted: Seq<u8>,
    release: CatalogRelease,
    events: Seq<DirectEvent>,
)
    requires
        can_follow(start, cask, extracted, release, events),
        events.len() > 0,
    ensures
        ({
            let before = after_events(start, cask, extracted, release, events.drop_last());
            let stage = after_events(start, cask, extracted, release, events);
            match events.last() {
                DirectEvent::VdfWritten => {
                    let beside = paths::joined(
                        paths::parent(extracted)->0,
                        app::name_bytes(release.flavor_name@ + release.release.tag_name@),
                    );
                    if paths::parent(extracted) is None {
                        stage == (DirectView::Finished {
                            result: Err(InstallFailure::MissingParent),
                        })
                    } else if paths::components(beside) == paths::components(extracted) {
                        is_placing(stage, cask, beside)
                    } else {
                        stage == (DirectView::RenameLayout { from: extracted, to: beside })
                    }
                },
                DirectEvent::LayoutRenamed(Ok(_)) => is_placing(
                    stage,
                    cask,
                    before->RenameLayout_to,
                ),
                DirectEvent::LayoutRenamed(Err(error)) => stage == (DirectView::Finished {
                    result: Err(InstallFailure::Layout { error }),
                }),
                DirectEvent::TargetChecked(Some(path)) => stage == (DirectView::Finished {
                    result: Err(InstallFailure::AlreadyExists { path }),
                }),
                DirectEvent::TargetChecked(None) => stage == (DirectView::Move {
                    from: before->CheckTarget_source,
                    to: before->CheckTarget_target,
                }),
                DirectEvent::Moved(Ok(_)) => stage == (DirectView::Finished {
                    result: Ok(InstallSuccess::Completed { tag_name: release.release.tag_name }),
                }),
                DirectEvent::Moved(Err(error)) => stage == (DirectView::Finished {
                    result: Err(InstallFailure::Move { error }),
                }),
            }
        }),
{
    let prior = events.drop_last();
    lemma_last_event(start, cask, extracted, release, events);
    let before = after_events(start, cask, extracted, release, prior);
    if let DirectView::RenameLayout { from, to } = before {
        lemma_ready_is_placed(cask, to);
    }
    if let Some(directory) = paths::parent(extracted) {
        lemma_ready_is_placed(cask, layout_path(directory, release));
    }
}

} // verus!
