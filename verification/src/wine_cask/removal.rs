//! Deleting a file or a directory with all that is in it, and preparing an empty
//! directory in its place.
use crate::paths;
use crate::wine_cask::app;
use vstd::prelude::*;
use vstd::string::*;

verus! {

/// A task that is put off.
#[derive(Debug)]
pub enum RemovalTask {
    /// Delete what is at this path.
    Delete(Vec<u8>),
    /// Remove this directory, which is empty by then.
    RemoveDirectory(Vec<u8>),
    /// Give up with this error.
    Fail(String),
}

/// What is to be done next to delete a file or a directory. The last of the
/// pending tasks comes first.
#[derive(Debug)]
pub enum RemovalStage {
    /// Look whether a directory is at `path`.
    Inspect { path: Vec<u8>, pending: Vec<RemovalTask> },
    /// List the directory at `path`.
    List { path: Vec<u8>, pending: Vec<RemovalTask> },
    /// Remove the file at `path`.
    RemoveFile { path: Vec<u8>, pending: Vec<RemovalTask> },
    /// Remove the empty directory at `path`.
    RemoveDirectory { path: Vec<u8>, pending: Vec<RemovalTask> },
    /// Nothing: the deletion has ended.
    Finished { result: Result<(), String> },
}

/// The entries of a directory, up to the first that could not be read.
#[derive(Debug)]
pub struct Listing {
    pub entries: Vec<Vec<u8>>,
    /// Why the next entry could not be read.
    pub error: Option<String>,
}

/// What came of a stage.
#[derive(Debug)]
pub enum RemovalEvent {
    /// Is it a directory?
    Inspected(bool),
    Listed(Result<Listing, String>),
    FileRemoved(Result<(), String>),
    DirectoryRemoved(Result<(), String>),
}

/// A task that is put off, in specifications.
pub enum TaskView {
    Delete(Seq<u8>),
    RemoveDirectory(Seq<u8>),
    Fail(Seq<char>),
}

/// What is to be done next, in specifications.
pub enum RemovalView {
    Inspect { path: Seq<u8>, pending: Seq<TaskView> },
    List { path: Seq<u8>, pending: Seq<TaskView> },
    RemoveFile { path: Seq<u8>, pending: Seq<TaskView> },
    RemoveDirectory { path: Seq<u8>, pending: Seq<TaskView> },
    Finished { result: Result<(), Seq<char>> },
}

/// What came of a stage, in specifications.
pub enum RemovalEventView {
    Inspected(bool),
    Listed { entries: Seq<Seq<u8>>, error: Option<Seq<char>> },
    NotListed { error: Seq<char> },
    FileRemoved(Result<(), Seq<char>>),
    DirectoryRemoved(Result<(), Seq<char>>),
}

/// What an outcome says.
pub open spec fn outcome_view(outcome: Result<(), String>) -> Result<(), Seq<char>> {
    match outcome {
        Ok(_) => Ok(()),
        Err(error) => Err(error@),
    }
}

impl View for RemovalTask {
    type V = TaskView;

    open spec fn view(&self) -> TaskView {
        match self {
            RemovalTask::Delete(path) => TaskView::Delete(path@),
            RemovalTask::RemoveDirectory(path) => TaskView::RemoveDirectory(path@),
            RemovalTask::Fail(error) => TaskView::Fail(error@),
        }
    }
}

/// The views of tasks.
pub open spec fn task_views(tasks: Seq<RemovalTask>) -> Seq<TaskView> {
    Seq::new(tasks.len(), |i: int| tasks[i]@)
}

/// The views of paths.
pub open spec fn path_views(list: Seq<Vec<u8>>) -> Seq<Seq<u8>> {
    Seq::new(list.len(), |i: int| list[i]@)
}

impl View for RemovalStage {
    type V = RemovalView;

    open spec fn view(&self) -> RemovalView {
        match self {
            RemovalStage::Inspect { path, pending } => RemovalView::Inspect {
                path: path@,
                pending: task_views(pending@),
            },
            RemovalStage::List { path, pending } => RemovalView::List {
                path: path@,
                pending: task_views(pending@),
            },
            RemovalStage::RemoveFile { path, pending } => RemovalView::RemoveFile {
                path: path@,
                pending: task_views(pending@),
            },
            RemovalStage::RemoveDirectory { path, pending } => RemovalView::RemoveDirectory {
                path: path@,
                pending: task_views(pending@),
            },
            RemovalStage::Finished { result } => RemovalView::Finished {
                result: outcome_view(*result),
            },
        }
    }
}

impl View for RemovalEvent {
    type V = RemovalEventView;

    open spec fn view(&self) -> RemovalEventView {
        match self {
            RemovalEvent::Inspected(is_directory) => RemovalEventView::Inspected(*is_directory),
            RemovalEvent::Listed(Ok(listing)) => RemovalEventView::Listed {
                entries: path_views(listing.entries@),
                error: crate::text::optional_text(listing.error),
            },
            RemovalEvent::Listed(Err(error)) => RemovalEventView::NotListed { error: error@ },
            RemovalEvent::FileRemoved(outcome) => RemovalEventView::FileRemoved(
                outcome_view(*outcome),
            ),
            RemovalEvent::DirectoryRemoved(outcome) => RemovalEventView::DirectoryRemoved(
                outcome_view(*outcome),
            ),
        }
    }
}

/// The stage that takes up the last pending task.
pub open spec fn resumed(pending: Seq<TaskView>) -> RemovalView {
    if pending.len() == 0 {
        RemovalView::Finished { result: Ok(()) }
    } else {
        let rest = pending.drop_last();
        match pending.last() {
            TaskView::Delete(path) => RemovalView::Inspect { path, pending: rest },
            TaskView::RemoveDirectory(path) => RemovalView::RemoveDirectory { path, pending: rest },
            TaskView::Fail(error) => RemovalView::Finished { result: Err(error) },
        }
    }
}

/// The tasks that delete paths in their order, as pending tasks: the first path comes last.
pub open spec fn deletions(entries: Seq<Seq<u8>>) -> Seq<TaskView> {
    Seq::new(entries.len(), |i: int| TaskView::Delete(entries[entries.len() - 1 - i]))
}

/// What is left to do for a directory once its entries are deleted.
pub open spec fn closing_task(path: Seq<u8>, error: Option<Seq<char>>) -> TaskView {
    match error {
        Some(error) => TaskView::Fail(error),
        None => TaskView::RemoveDirectory(path),
    }
}

impl RemovalView {
    /// Is the event an outcome of this stage?
    pub open spec fn awaits(self, event: RemovalEventView) -> bool {
        match self {
            RemovalView::Inspect { .. } => event is Inspected,
            RemovalView::List { .. } => event is Listed || event is NotListed,
            RemovalView::RemoveFile { .. } => event is FileRemoved,
            RemovalView::RemoveDirectory { .. } => event is DirectoryRemoved,
            RemovalView::Finished { .. } => false,
        }
    }

    /// The stage that an event leads to. A directory is removed after its entries; the
    /// first error ends the deletion.
    pub open spec fn after(self, event: RemovalEventView) -> RemovalView {
        match (self, event) {
            (
                RemovalView::Inspect { path, pending },
                RemovalEventView::Inspected(is_directory),
            ) => if is_directory {
                RemovalView::List { path, pending }
            } else {
                RemovalView::RemoveFile { path, pending }
            },
            (
                RemovalView::List { path, pending },
                RemovalEventView::Listed { entries, error },
            ) => resumed(pending.push(closing_task(path, error)) + deletions(entries)),
            (
                RemovalView::List { path, pending },
                RemovalEventView::NotListed { error },
            ) => RemovalView::Finished { result: Err(error) },
            (
                RemovalView::RemoveFile { path, pending },
                RemovalEventView::FileRemoved(outcome),
            ) => match outcome {
                Ok(_) => resumed(pending),
                Err(error) => RemovalView::Finished { result: Err(error) },
            },
            (
                RemovalView::RemoveDirectory { path, pending },
                RemovalEventView::DirectoryRemoved(outcome),
            ) => match outcome {
                Ok(_) => resumed(pending),
                Err(error) => RemovalView::Finished { result: Err(error) },
            },
            _ => self,
        }
    }
}

/// Takes up the last pending task.
fn resume(pending: Vec<RemovalTask>) -> (r: RemovalStage)
    ensures
        r@ == resumed(task_views(pending@)),
{
    let mut pending = pending;
    let ghost before = pending@;
    match pending.pop() {
        None => RemovalStage::Finished { result: Ok(()) },
        Some(task) => {
            proof {
                assert(task_views(before).drop_last() =~= task_views(pending@));
                assert(task_views(before).last() == task@);
            }
            match task {
                RemovalTask::Delete(path) => RemovalStage::Inspect { path, pending },
                RemovalTask::RemoveDirectory(path) => RemovalStage::RemoveDirectory {
                    path,
                    pending,
                },
                RemovalTask::Fail(error) => RemovalStage::Finished { result: Err(error) },
            }
        },
    }
}

/// Puts off the deletion of the entries, so that the first of them comes first.
fn put_off(pending: &mut Vec<RemovalTask>, entries: Vec<Vec<u8>>)
    ensures
        task_views(final(pending)@) == task_views(old(pending)@) + deletions(path_views(entries@)),
{
    let mut entries = entries;
    let ghost all = path_views(entries@);
    let ghost start = task_views(pending@);
    assert(task_views(pending@) =~= start + deletions(all).take(0));
    while entries.len() > 0
        invariant
            start == task_views(old(pending)@),
            entries.len() <= all.len(),
            path_views(entries@) == all.take(entries.len() as int),
            task_views(pending@) == start + deletions(all).take(all.len() - entries.len()),
        decreases entries.len(),
    {
        let ghost before = entries@;
        let ghost tasks = pending@;
        if let Some(path) = entries.pop() {
            proof {
                assert(path_views(before)[entries.len() as int] == path@);
                assert(path@ == all[entries.len() as int]);
                assert(path_views(entries@) =~= all.take(entries.len() as int)) by {
                    assert forall|i: int| 0 <= i < entries.len() implies entries[i]@ == all[
                        i
                    ] by {
                        assert(path_views(before)[i] == all.take(before.len() as int)[i]);
                    }
                }
            }
            let ghost name = path@;
            pending.push(RemovalTask::Delete(path));
            proof {
                let k = all.len() - entries.len();
                assert(task_views(pending@) =~= task_views(tasks).push(TaskView::Delete(name)));
                assert(deletions(all).take(k) =~= deletions(all).take(k - 1).push(
                    TaskView::Delete(name),
                ));
                assert(task_views(pending@) =~= start + deletions(all).take(k));
            }
        }
    }
    assert(deletions(all).take(all.len() as int) =~= deletions(all));
}

impl RemovalStage {
    /// Is the event an outcome of this stage?
    pub fn expects(&self, event: &RemovalEvent) -> (r: bool)
        ensures
            r == self@.awaits(event@),
    {
        match (self, event) {
            (RemovalStage::Inspect { .. }, RemovalEvent::Inspected(_)) => true,
            (RemovalStage::List { .. }, RemovalEvent::Listed(_)) => true,
            (RemovalStage::RemoveFile { .. }, RemovalEvent::FileRemoved(_)) => true,
            (RemovalStage::RemoveDirectory { .. }, RemovalEvent::DirectoryRemoved(_)) => true,
            _ => false,
        }
    }

    /// Takes the outcome of this stage.
    pub fn advance(self, event: RemovalEvent) -> (r: RemovalStage)
        requires
            self@.awaits(event@),
        ensures
            r@ == self@.after(event@),
    {
        match (self, event) {
            (RemovalStage::Inspect { path, pending }, RemovalEvent::Inspected(is_directory)) =>
                if is_directory {
                    RemovalStage::List { path, pending }
                } else {
                    RemovalStage::RemoveFile { path, pending }
                },
            (RemovalStage::List { path, pending }, RemovalEvent::Listed(outcome)) => match outcome {
                Ok(listing) => {
                    let mut pending = pending;
                    let ghost before = task_views(pending@);
                    let ghost closing = closing_task(
                        path@,
                        crate::text::optional_text(listing.error),
                    );
                    match listing.error {
                        Some(error) => {
                            pending.push(RemovalTask::Fail(error));
                        },
                        None => {
                            pending.push(RemovalTask::RemoveDirectory(path));
                        },
                    }
                    assert(task_views(pending@) =~= before.push(closing));
                    put_off(&mut pending, listing.entries);
                    resume(pending)
                },
                Err(error) => RemovalStage::Finished { result: Err(error) },
            },
            (RemovalStage::RemoveFile { path: _, pending }, RemovalEvent::FileRemoved(outcome)) =>
                match outcome {
                    Ok(_) => resume(pending),
                    Err(error) => RemovalStage::Finished { result: Err(error) },
                },
            (
                RemovalStage::RemoveDirectory { path: _, pending },
                RemovalEvent::DirectoryRemoved(outcome),
            ) => match outcome {
                Ok(_) => resume(pending),
                Err(error) => RemovalStage::Finished { result: Err(error) },
            },
            (stage, _) => stage,
        }
    }
}

/// Starts to delete what is at `path`.
pub fn recursive_delete_dir_entry(path: Vec<u8>) -> (r: RemovalStage)
    ensures
        r@ == (RemovalView::Inspect { path: path@, pending: Seq::empty() }),
{
    let r = RemovalStage::Inspect { path, pending: Vec::new() };
    assert(r@->Inspect_pending =~= Seq::<TaskView>::empty());
    r
}

/// What is to be done next to prepare an empty directory.
#[derive(Debug)]
pub enum PrepareStage {
    /// Look whether something is at its path.
    CheckExisting { temp_directory: Vec<u8> },
    /// Delete what is at its path.
    DeleteExisting { temp_directory: Vec<u8> },
    /// Create the directory, with the directories that it is in.
    Create { temp_directory: Vec<u8> },
    /// Nothing: this is the directory, if there is one.
    Finished { temp_directory: Option<Vec<u8>> },
}

impl PrepareStage {
    /// The stage that an outcome leads to: whether something is there, whether it was
    /// deleted, whether the directory was created. That something could not be deleted
    /// does not keep the directory from being created.
    pub open spec fn after(self, outcome: bool) -> PrepareStage {
        match self {
            PrepareStage::CheckExisting { temp_directory } => if outcome {
                PrepareStage::DeleteExisting { temp_directory }
            } else {
                PrepareStage::Create { temp_directory }
            },
            PrepareStage::DeleteExisting { temp_directory } => PrepareStage::Create {
                temp_directory,
            },
            PrepareStage::Create { temp_directory } => PrepareStage::Finished {
                temp_directory: if outcome {
                    Some(temp_directory)
                } else {
                    None
                },
            },
            PrepareStage::Finished { temp_directory } => PrepareStage::Finished { temp_directory },
        }
    }

    /// Takes the outcome of this stage.
    pub fn advance(self, outcome: bool) -> (r: PrepareStage)
        ensures
            r == self.after(outcome),
    {
        match self {
            PrepareStage::CheckExisting { temp_directory } => if outcome {
                PrepareStage::DeleteExisting { temp_directory }
            } else {
                PrepareStage::Create { temp_directory }
            },
            PrepareStage::DeleteExisting { temp_directory } => PrepareStage::Create {
                temp_directory,
            },
            PrepareStage::Create { temp_directory } => PrepareStage::Finished {
                temp_directory: if outcome {
                    Some(temp_directory)
                } else {
                    None
                },
            },
            PrepareStage::Finished { temp_directory } => PrepareStage::Finished { temp_directory },
        }
    }
}

/// Is `stage` the first stage of preparing a directory in `staging_root`?
pub open spec fn is_preparation_in(stage: PrepareStage, staging_root: Seq<u8>) -> bool {
    stage matches PrepareStage::CheckExisting { temp_directory } && temp_directory@
        == app::temp_path(staging_root)
}

/// Starts to prepare the directory that an installation works in.
pub fn prepare_temp_directory(staging_root: &[u8]) -> (r: PrepareStage)
    ensures
        r matches PrepareStage::CheckExisting { temp_directory } && temp_directory@
            == app::temp_path(staging_root@),
        is_preparation_in(r, staging_root@),
{
    PrepareStage::CheckExisting {
        temp_directory: paths::join_path(staging_root, "temp".as_bytes()),
    }
}

/// A directory is prepared exactly when it could be created, whatever was there before,
/// and it is the one that was asked for.
pub proof fn law_prepared_directory_was_created(
    temp_directory: Vec<u8>,
    existing: bool,
    deleted: bool,
    created: bool,
)
    ensures
        ({
            let checked = (PrepareStage::CheckExisting { temp_directory }).after(existing);
            let ready = if checked is DeleteExisting {
                checked.after(deleted)
            } else {
                checked
            };
            &&& checked is DeleteExisting <==> existing
            &&& existing ==> checked == (PrepareStage::DeleteExisting { temp_directory })
            &&& ready == (PrepareStage::Create { temp_directory })
            &&& ready.after(created) == (PrepareStage::Finished {
                temp_directory: if created {
                    Some(temp_directory)
                } else {
                    None
                },
            })
        }),
{
}

/// In specifications stages, pending tasks and outcomes have the paths and the errors that
/// they have.
pub proof fn law_removal_is_seen_as_it_is(
    path: Vec<u8>,
    pending: Vec<RemovalTask>,
    error: String,
    listing: Listing,
    i: int,
)
    ensures
        (RemovalStage::Inspect { path, pending })@ matches RemovalView::Inspect {
            path: shown,
            pending: tasks,
        } && shown == path@ && tasks.len() == pending@.len(),
        (RemovalStage::List { path, pending })@ matches RemovalView::List {
            path: shown,
            pending: tasks,
        } && shown == path@ && tasks.len() == pending@.len(),
        (RemovalStage::RemoveFile { path, pending })@ matches RemovalView::RemoveFile {
            path: shown,
            pending: tasks,
        } && shown == path@ && tasks.len() == pending@.len(),
        (RemovalStage::RemoveDirectory { path, pending })@ matches RemovalView::RemoveDirectory {
            path: shown,
            pending: tasks,
        } && shown == path@ && tasks.len() == pending@.len(),
        0 <= i < pending@.len() ==> task_views(pending@)[i] == pending@[i]@,
        (RemovalStage::Finished { result: Err(error) })@ == (RemovalView::Finished {
            result: Err(error@),
        }),
        (RemovalStage::Finished { result: Ok(()) })@ == (RemovalView::Finished { result: Ok(()) }),
        RemovalTask::Delete(path)@ == TaskView::Delete(path@),
        RemovalTask::RemoveDirectory(path)@ == TaskView::RemoveDirectory(path@),
        RemovalTask::Fail(error)@ == TaskView::Fail(error@),
        RemovalEvent::Inspected(true)@ == RemovalEventView::Inspected(true),
        RemovalEvent::Inspected(false)@ == RemovalEventView::Inspected(false),
        RemovalEvent::Listed(Ok(listing))@ matches RemovalEventView::Listed {
            entries,
            error: stopped,
        } && entries.len() == listing.entries@.len() && (0 <= i < entries.len() ==> entries[i]
            == listing.entries@[i]@) && (stopped is Some <==> listing.error is Some) && (
        listing.error matches Some(why) ==> stopped == Some(why@)),
        RemovalEvent::Listed(Err(error))@ == (RemovalEventView::NotListed { error: error@ }),
        RemovalEvent::FileRemoved(Err(error))@ == RemovalEventView::FileRemoved(Err(error@)),
        RemovalEvent::FileRemoved(Ok(()))@ == RemovalEventView::FileRemoved(Ok(())),
        RemovalEvent::DirectoryRemoved(Err(error))@ == RemovalEventView::DirectoryRemoved(
            Err(error@),
        ),
        RemovalEvent::DirectoryRemoved(Ok(()))@ == RemovalEventView::DirectoryRemoved(Ok(())),
{
}

/// Removal takes every outcome of its stages, whatever it is, and no other.
pub proof fn law_every_outcome_is_taken(stage: RemovalView, event: RemovalEventView)
    ensures
        stage.awaits(event) <==> {
            ||| stage is Inspect && event is Inspected
            ||| stage is List && (event is Listed || event is NotListed)
            ||| stage is RemoveFile && event is FileRemoved
            ||| stage is RemoveDirectory && event is DirectoryRemoved
        },
{
}

/// What an outcome leads to, for the path that a stage is about: a directory is listed, and
/// anything else is removed as a file; every failure ends the removal with its error. The
/// first entry of a listing is looked at next, and the directory itself is removed, or its
/// listing given up, after the last one. Once something is removed the last task that was put
/// off is taken up, and all that was put off before it stays so.
pub proof fn law_removal_goes_on_or_ends(
    path: Seq<u8>,
    pending: Seq<TaskView>,
    entries: Seq<Seq<u8>>,
    error: Seq<char>,
)
    ensures
        (RemovalView::Inspect { path, pending }).after(RemovalEventView::Inspected(true)) == (
        RemovalView::List { path, pending }),
        (RemovalView::Inspect { path, pending }).after(RemovalEventView::Inspected(false)) == (
        RemovalView::RemoveFile { path, pending }),
        (RemovalView::List { path, pending }).after(RemovalEventView::NotListed { error }) == (
        RemovalView::Finished { result: Err(error) }),
        (RemovalView::RemoveFile { path, pending }).after(
            RemovalEventView::FileRemoved(Err(error)),
        ) == (RemovalView::Finished { result: Err(error) }),
        (RemovalView::RemoveDirectory { path, pending }).after(
            RemovalEventView::DirectoryRemoved(Err(error)),
        ) == (RemovalView::Finished { result: Err(error) }),
        (RemovalView::List { path, pending }).after(
            RemovalEventView::Listed { entries: Seq::empty(), error: None },
        ) == (RemovalView::RemoveDirectory { path, pending }),
        (RemovalView::List { path, pending }).after(
            RemovalEventView::Listed { entries: Seq::empty(), error: Some(error) },
        ) == (RemovalView::Finished { result: Err(error) }),
        entries.len() > 0 ==> ((RemovalView::List { path, pending }).after(
            RemovalEventView::Listed { entries, error: None },
        ) matches RemovalView::Inspect { path: next, pending: left } && next == entries[0]
            && left.len() == pending.len() + entries.len() && left.take(pending.len() as int)
            == pending && left[pending.len() as int] == TaskView::RemoveDirectory(path) && (
        forall|k: int|
            1 <= k < entries.len() ==> #[trigger] left[left.len() - k] == TaskView::Delete(
                entries[k],
            ))),
        entries.len() > 0 ==> ((RemovalView::List { path, pending }).after(
            RemovalEventView::Listed { entries, error: Some(error) },
        ) matches RemovalView::Inspect { path: next, pending: left } && next == entries[0]
            && left.len() == pending.len() + entries.len() && left.take(pending.len() as int)
            == pending && left[pending.len() as int] == TaskView::Fail(error) && (forall|k: int|
            1 <= k < entries.len() ==> #[trigger] left[left.len() - k] == TaskView::Delete(
                entries[k],
            ))),
        (RemovalView::RemoveFile { path, pending }).after(
            RemovalEventView::FileRemoved(Ok(())),
        ) == (RemovalView::RemoveDirectory { path, pending }).after(
            RemovalEventView::DirectoryRemoved(Ok(())),
        ),
        pending.len() == 0 ==> (RemovalView::RemoveFile { path, pending }).after(
            RemovalEventView::FileRemoved(Ok(())),
        ) == (RemovalView::Finished { result: Ok(()) }),
        pending.len() > 0 ==> {
            let next = (RemovalView::RemoveFile { path, pending }).after(
                RemovalEventView::FileRemoved(Ok(())),
            );
            match pending.last() {
                TaskView::Delete(other) => next == (RemovalView::Inspect {
                    path: other,
                    pending: pending.drop_last(),
                }),
                TaskView::RemoveDirectory(other) => next == (RemovalView::RemoveDirectory {
                    path: other,
                    pending: pending.drop_last(),
                }),
                TaskView::Fail(why) => next == (RemovalView::Finished { result: Err(why) }),
            }
        },
{
    let none = Seq::<Seq<u8>>::empty();
    let closed = pending.push(closing_task(path, None));
    let stopped = pending.push(closing_task(path, Some(error)));
    assert(closed + deletions(none) =~= closed);
    assert(stopped + deletions(none) =~= stopped);
    assert(closed.drop_last() =~= pending);
    if entries.len() > 0 {
        assert((closed + deletions(entries)).drop_last().take(pending.len() as int) =~= pending);
        assert((stopped + deletions(entries)).drop_last().take(pending.len() as int) =~= pending);
    }
}

/// The directory that is prepared is called `temp` and stands directly in the staging
/// directory, whatever was there before.
pub proof fn law_prepared_directory_is_staged(
    start: PrepareStage,
    staging_root: Seq<u8>,
    existing: bool,
    deleted: bool,
)
    requires
        is_preparation_in(start, staging_root),
    ensures
        ({
            let checked = start.after(existing);
            let ready = if existing {
                checked.after(deleted)
            } else {
                checked
            };
            ready.after(true) matches PrepareStage::Finished { temp_directory: Some(directory) }
                && paths::components(directory@) == paths::components(staging_root).push(
                paths::ComponentView::Normal(app::name_bytes("temp"@)),
            )
        }),
{
    reveal_strlit("temp");
    assert("temp"@[0] == 't');
    app::law_ascii_name_is_plain("temp"@);
    app::law_plain_name_is_added(staging_root, "temp"@);
}

} // verus!
