//! What holds of every deletion, from its start to its end.
use crate::wine_cask::removal;
use crate::wine_cask::removal::{RemovalEventView, RemovalView, TaskView};
use vstd::multiset::Multiset;
use vstd::prelude::*;

verus! {

/// A file or a directory with all that is in it.
pub enum Tree {
    File { path: Seq<u8> },
    Directory { path: Seq<u8>, entries: Seq<Tree> },
}

/// The path of a tree.
pub open spec fn path_of(tree: Tree) -> Seq<u8> {
    match tree {
        Tree::File { path } => path,
        Tree::Directory { path, entries } => path,
    }
}

/// The paths of trees.
pub open spec fn paths_of(trees: Seq<Tree>) -> Seq<Seq<u8>> {
    Seq::new(trees.len(), |i: int| path_of(trees[i]))
}

/// The paths in a tree in the order in which they can be removed: a directory comes
/// after all that is in it.
pub open spec fn removal_order(tree: Tree) -> Seq<Seq<u8>>
    decreases tree,
{
    match tree {
        Tree::File { path } => seq![path],
        Tree::Directory { path, entries } => removal_order_of_all(entries).push(path),
    }
}

/// The paths in trees in the order in which they can be removed, tree after tree.
pub open spec fn removal_order_of_all(trees: Seq<Tree>) -> Seq<Seq<u8>>
    decreases trees,
{
    if trees.len() == 0 {
        Seq::empty()
    } else {
        removal_order(trees[0]) + removal_order_of_all(trees.subrange(1, trees.len() as int))
    }
}

/// What comes of the stages when a tree is deleted and nothing fails.
pub open spec fn smooth_events(tree: Tree) -> Seq<RemovalEventView>
    decreases tree,
{
    match tree {
        Tree::File { path } => seq![
            RemovalEventView::Inspected(false),
            RemovalEventView::FileRemoved(Ok(())),
        ],
        Tree::Directory { path, entries } => (seq![
            RemovalEventView::Inspected(true),
            RemovalEventView::Listed { entries: paths_of(entries), error: None },
        ] + smooth_events_of_all(entries)).push(RemovalEventView::DirectoryRemoved(Ok(()))),
    }
}

/// What comes of the stages when trees are deleted one after the other and nothing fails.
pub open spec fn smooth_events_of_all(trees: Seq<Tree>) -> Seq<RemovalEventView>
    decreases trees,
{
    if trees.len() == 0 {
        Seq::empty()
    } else {
        smooth_events(trees[0]) + smooth_events_of_all(trees.subrange(1, trees.len() as int))
    }
}

/// The stage that a sequence of events leads to.
pub open spec fn after_events(stage: RemovalView, events: Seq<RemovalEventView>) -> RemovalView
    decreases events.len(),
{
    if events.len() == 0 {
        stage
    } else {
        after_events(stage.after(events[0]), events.drop_first())
    }
}

/// Can the events follow one another from `stage` on?
pub open spec fn can_follow(stage: RemovalView, events: Seq<RemovalEventView>) -> bool
    decreases events.len(),
{
    events.len() == 0 || (stage.awaits(events[0]) && can_follow(
        stage.after(events[0]),
        events.drop_first(),
    ))
}

/// The path that a stage removes.
pub open spec fn removed_by(stage: RemovalView) -> Seq<Seq<u8>> {
    match stage {
        RemovalView::RemoveFile { path, pending } => seq![path],
        RemovalView::RemoveDirectory { path, pending } => seq![path],
        _ => Seq::empty(),
    }
}

/// The paths that are removed while the events happen, in their order.
pub open spec fn removed(stage: RemovalView, events: Seq<RemovalEventView>) -> Seq<Seq<u8>>
    decreases events.len(),
{
    if events.len() == 0 {
        Seq::empty()
    } else {
        removed_by(stage) + removed(stage.after(events[0]), events.drop_first())
    }
}

proof fn lemma_run_concat(
    stage: RemovalView,
    a: Seq<RemovalEventView>,
    b: Seq<RemovalEventView>,
)
    ensures
        after_events(stage, a + b) == after_events(after_events(stage, a), b),
        removed(stage, a + b) == removed(stage, a) + removed(after_events(stage, a), b),
        can_follow(stage, a + b) == (can_follow(stage, a) && can_follow(
            after_events(stage, a),
            b,
        )),
    decreases a.len(),
{
    if a.len() == 0 {
        assert(a + b =~= b);
        assert(removed(stage, a) + removed(stage, b) =~= removed(stage, b));
    } else {
        assert((a + b)[0] == a[0]);
        assert((a + b).drop_first() =~= a.drop_first() + b);
        lemma_run_concat(stage.after(a[0]), a.drop_first(), b);
        assert(removed(stage, a + b) =~= removed(stage, a) + removed(after_events(stage, a), b));
    }
}

proof fn lemma_tree_is_removed(tree: Tree, pending: Seq<TaskView>)
    ensures
        ({
            let start = removal::resumed(pending.push(TaskView::Delete(path_of(tree))));
            let events = smooth_events(tree);
            &&& can_follow(start, events)
            &&& after_events(start, events) == removal::resumed(pending)
            &&& removed(start, events) == removal_order(tree)
        }),
    decreases tree,
{
    let tasks = pending.push(TaskView::Delete(path_of(tree)));
    let start = removal::resumed(tasks);
    let events = smooth_events(tree);
    assert(tasks.drop_last() =~= pending);
    match tree {
        Tree::File { path } => {
            let second = RemovalView::RemoveFile { path, pending };
            assert(start.after(events[0]) == second);
            let rest = events.drop_first();
            assert(rest[0] == RemovalEventView::FileRemoved(Ok(())));
            assert(rest.drop_first() =~= Seq::<RemovalEventView>::empty());
            assert(after_events(second, rest) == after_events(second.after(rest[0]), rest.drop_first()));
            assert(after_events(second.after(rest[0]), rest.drop_first()) == removal::resumed(pending));
            assert(can_follow(second.after(rest[0]), rest.drop_first()));
            assert(can_follow(second, rest));
            assert(removed(second.after(rest[0]), rest.drop_first()) =~= Seq::<Seq<u8>>::empty());
            assert(removed(second, rest) =~= seq![path]);
            assert(removed(start, events) =~= seq![path]);
        },
        Tree::Directory { path, entries } => {
            let head = seq![
                RemovalEventView::Inspected(true),
                RemovalEventView::Listed { entries: paths_of(entries), error: None },
            ];
            let closing = TaskView::RemoveDirectory(path);
            let middle = smooth_events_of_all(entries);
            let last = seq![RemovalEventView::DirectoryRemoved(Ok(()))];
            assert(events =~= (head + middle) + last);
            let listed = removal::resumed(pending.push(closing) + removal::deletions(paths_of(entries)));
            let second = RemovalView::List { path, pending };
            assert(start.after(head[0]) == second);
            let rest = head.drop_first();
            assert(rest[0] == head[1]);
            assert(second.after(rest[0]) == listed);
            assert(rest.drop_first() =~= Seq::<RemovalEventView>::empty());
            assert(after_events(listed, rest.drop_first()) == listed);
            assert(after_events(second, rest) == listed);
            assert(after_events(start, head) == listed);
            assert(can_follow(listed, rest.drop_first()));
            assert(can_follow(second, rest));
            assert(can_follow(start, head));
            assert(removed(listed, rest.drop_first()) =~= Seq::<Seq<u8>>::empty());
            assert(removed(second, rest) =~= Seq::<Seq<u8>>::empty());
            assert(removed(start, head) =~= Seq::<Seq<u8>>::empty());
            lemma_trees_are_removed(entries, pending.push(closing));
            let emptied = RemovalView::RemoveDirectory { path, pending };
            assert(pending.push(closing).drop_last() =~= pending);
            assert(removal::resumed(pending.push(closing)) == emptied);
            assert(emptied.after(last[0]) == removal::resumed(pending));
            assert(last.drop_first() =~= Seq::<RemovalEventView>::empty());
            assert(after_events(emptied.after(last[0]), last.drop_first()) == removal::resumed(pending));
            assert(after_events(emptied, last) == removal::resumed(pending));
            assert(can_follow(emptied.after(last[0]), last.drop_first()));
            assert(can_follow(emptied, last));
            assert(removed(emptied.after(last[0]), last.drop_first()) =~= Seq::<Seq<u8>>::empty());
            assert(removed(emptied, last) =~= seq![path]);
            lemma_run_concat(start, head, middle);
            lemma_run_concat(start, head + middle, last);
            assert(removed(start, events) =~= removal_order(tree));
        },
    }
}

proof fn lemma_trees_are_removed(trees: Seq<Tree>, pending: Seq<TaskView>)
    ensures
        ({
            let start = removal::resumed(pending + removal::deletions(paths_of(trees)));
            let events = smooth_events_of_all(trees);
            &&& can_follow(start, events)
            &&& after_events(start, events) == removal::resumed(pending)
            &&& removed(start, events) == removal_order_of_all(trees)
        }),
    decreases trees,
{
    let tasks = pending + removal::deletions(paths_of(trees));
    if trees.len() == 0 {
        assert(tasks =~= pending);
    } else {
        let rest = trees.subrange(1, trees.len() as int);
        let later = pending + removal::deletions(paths_of(rest));
        assert(tasks =~= later.push(TaskView::Delete(path_of(trees[0]))));
        lemma_tree_is_removed(trees[0], later);
        lemma_trees_are_removed(rest, pending);
        lemma_run_concat(removal::resumed(tasks), smooth_events(trees[0]), smooth_events_of_all(rest));
    }
}

/// When nothing fails, deleting a tree removes each of its paths once, every directory
/// after all that is in it, and nothing else; and it reports success.
pub proof fn law_whole_tree_is_removed(tree: Tree)
    ensures
        ({
            let start = RemovalView::Inspect { path: path_of(tree), pending: Seq::empty() };
            let events = smooth_events(tree);
            &&& can_follow(start, events)
            &&& after_events(start, events) == (RemovalView::Finished {
                result: Ok::<(), Seq<char>>(()),
            })
            &&& removed(start, events) == removal_order(tree)
        }),
{
    let none = Seq::<TaskView>::empty();
    lemma_tree_is_removed(tree, none);
    assert(none.push(TaskView::Delete(path_of(tree))).drop_last() =~= none);
}

/// The path that a pending task is about.
pub open spec fn task_path(task: TaskView) -> Option<Seq<u8>> {
    match task {
        TaskView::Delete(path) => Some(path),
        TaskView::RemoveDirectory(path) => Some(path),
        TaskView::Fail(error) => None,
    }
}

/// Are all paths that the tasks are about among `allowed`?
pub open spec fn tasks_within(tasks: Seq<TaskView>, allowed: Set<Seq<u8>>) -> bool {
    forall|i: int|
        0 <= i < tasks.len() && task_path(#[trigger] tasks[i]) is Some ==> allowed.contains(
            task_path(tasks[i])->0,
        )
}

/// Are all paths that the stage is about among `allowed`?
pub open spec fn stage_within(stage: RemovalView, allowed: Set<Seq<u8>>) -> bool {
    match stage {
        RemovalView::Inspect { path, pending } => allowed.contains(path) && tasks_within(
            pending,
            allowed,
        ),
        RemovalView::List { path, pending } => allowed.contains(path) && tasks_within(
            pending,
            allowed,
        ),
        RemovalView::RemoveFile { path, pending } => allowed.contains(path) && tasks_within(
            pending,
            allowed,
        ),
        RemovalView::RemoveDirectory { path, pending } => allowed.contains(path) && tasks_within(
            pending,
            allowed,
        ),
        RemovalView::Finished { result } => true,
    }
}

/// Are all entries that the event lists among `allowed`?
pub open spec fn lists_within(event: RemovalEventView, allowed: Set<Seq<u8>>) -> bool {
    event matches RemovalEventView::Listed { entries, error } ==> forall|i: int|
        0 <= i < entries.len() ==> allowed.contains(#[trigger] entries[i])
}

proof fn lemma_resumed_within(pending: Seq<TaskView>, allowed: Set<Seq<u8>>)
    requires
        tasks_within(pending, allowed),
    ensures
        stage_within(removal::resumed(pending), allowed),
{
    if pending.len() > 0 {
        assert(pending.last() == pending[pending.len() - 1]);
        assert forall|i: int|
            0 <= i < pending.drop_last().len() && task_path(
                #[trigger] pending.drop_last()[i],
            ) is Some implies allowed.contains(task_path(pending.drop_last()[i])->0) by {
            assert(pending.drop_last()[i] == pending[i]);
        }
    }
}

proof fn lemma_step_within(
    stage: RemovalView,
    event: RemovalEventView,
    allowed: Set<Seq<u8>>,
)
    requires
        stage.awaits(event),
        stage_within(stage, allowed),
        lists_within(event, allowed),
    ensures
        stage_within(stage.after(event), allowed),
{
    match (stage, event) {
        (RemovalView::List { path, pending }, RemovalEventView::Listed { entries, error }) => {
            let tasks = pending.push(removal::closing_task(path, error)) + removal::deletions(entries);
            assert forall|i: int|
                0 <= i < tasks.len() && task_path(
                    #[trigger] tasks[i],
                ) is Some implies allowed.contains(task_path(tasks[i])->0) by {
                if i < pending.len() {
                    assert(tasks[i] == pending[i]);
                } else if i > pending.len() {
                    let k = entries.len() - 1 - (i - pending.len() - 1);
                    assert(tasks[i] == TaskView::Delete(entries[k]));
                }
            }
            lemma_resumed_within(tasks, allowed);
        },
        (RemovalView::RemoveFile { path, pending }, _) => {
            lemma_resumed_within(pending, allowed);
        },
        (RemovalView::RemoveDirectory { path, pending }, _) => {
            lemma_resumed_within(pending, allowed);
        },
        _ => {},
    }
}

/// Nothing is removed but what was to be deleted and what was listed on the way, whatever
/// fails: if all of these are among `allowed`, so is everything that is removed.
pub proof fn law_only_listed_paths_are_removed(
    stage: RemovalView,
    events: Seq<RemovalEventView>,
    allowed: Set<Seq<u8>>,
)
    requires
        can_follow(stage, events),
        stage_within(stage, allowed),
        forall|i: int| 0 <= i < events.len() ==> lists_within(#[trigger] events[i], allowed),
    ensures
        forall|i: int|
            0 <= i < removed(stage, events).len() ==> allowed.contains(
                #[trigger] removed(stage, events)[i],
            ),
    decreases events.len(),
{
    if events.len() > 0 {
        let next = stage.after(events[0]);
        let rest = events.drop_first();
        lemma_step_within(stage, events[0], allowed);
        assert forall|i: int| 0 <= i < rest.len() implies lists_within(
            #[trigger] rest[i],
            allowed,
        ) by {
            assert(rest[i] == events[i + 1]);
        }
        law_only_listed_paths_are_removed(next, rest, allowed);
        let first = removed_by(stage);
        let later = removed(next, rest);
        assert forall|i: int| 0 <= i < removed(stage, events).len() implies allowed.contains(
            #[trigger] removed(stage, events)[i],
        ) by {
            if i >= first.len() {
                assert(removed(stage, events)[i] == later[i - first.len()]);
            }
        }
    }
}

/// The paths that pending tasks are about.
pub open spec fn owed_by_tasks(tasks: Seq<TaskView>) -> Multiset<Seq<u8>>
    decreases tasks.len(),
{
    if tasks.len() == 0 {
        Multiset::empty()
    } else {
        let before = owed_by_tasks(tasks.drop_last());
        match task_path(tasks.last()) {
            Some(path) => before.insert(path),
            None => before,
        }
    }
}

/// The paths that a stage has still to remove.
pub open spec fn owed(stage: RemovalView) -> Multiset<Seq<u8>> {
    match stage {
        RemovalView::Inspect { path, pending } => owed_by_tasks(pending).insert(path),
        RemovalView::List { path, pending } => owed_by_tasks(pending).insert(path),
        RemovalView::RemoveFile { path, pending } => owed_by_tasks(pending).insert(path),
        RemovalView::RemoveDirectory { path, pending } => owed_by_tasks(pending).insert(path),
        RemovalView::Finished { result } => Multiset::empty(),
    }
}

/// Has a stage still to give up?
pub open spec fn will_fail(stage: RemovalView) -> bool {
    match stage {
        RemovalView::Inspect { path, pending } => has_failure(pending),
        RemovalView::List { path, pending } => has_failure(pending),
        RemovalView::RemoveFile { path, pending } => has_failure(pending),
        RemovalView::RemoveDirectory { path, pending } => has_failure(pending),
        RemovalView::Finished { result } => result is Err,
    }
}

/// Is one of the tasks to give up?
pub open spec fn has_failure(tasks: Seq<TaskView>) -> bool {
    exists|i: int| 0 <= i < tasks.len() && (#[trigger] tasks[i]) is Fail
}

/// The entries that an event lists.
pub open spec fn listed_by(event: RemovalEventView) -> Multiset<Seq<u8>> {
    match event {
        RemovalEventView::Listed { entries, error } => entries.to_multiset(),
        _ => Multiset::empty(),
    }
}

/// All entries that the events list.
pub open spec fn listed(events: Seq<RemovalEventView>) -> Multiset<Seq<u8>>
    decreases events.len(),
{
    if events.len() == 0 {
        Multiset::empty()
    } else {
        listed_by(events[0]).add(listed(events.drop_first()))
    }
}

proof fn lemma_owed_by_deletions(tasks: Seq<TaskView>, entries: Seq<Seq<u8>>)
    ensures
        owed_by_tasks(tasks + removal::deletions(entries)) == owed_by_tasks(tasks).add(
            entries.to_multiset(),
        ),
    decreases entries.len(),
{
    broadcast use vstd::seq_lib::group_to_multiset_ensures;

    let all = tasks + removal::deletions(entries);
    if entries.len() == 0 {
        assert(all =~= tasks);
        assert(entries.to_multiset() =~= Multiset::empty());
        assert(owed_by_tasks(all) =~= owed_by_tasks(tasks).add(entries.to_multiset()));
    } else {
        let rest = entries.drop_first();
        assert(all.drop_last() =~= tasks + removal::deletions(rest));
        assert(all.last() == TaskView::Delete(entries[0]));
        lemma_owed_by_deletions(tasks, rest);
        assert(entries =~= seq![entries[0]] + rest);
        vstd::seq_lib::lemma_multiset_commutative(seq![entries[0]], rest);
        assert(seq![entries[0]].to_multiset() =~= Multiset::singleton(entries[0])) by {
            assert(Seq::<Seq<u8>>::empty().push(entries[0]) =~= seq![entries[0]]);
        }
        assert(owed_by_tasks(all) =~= owed_by_tasks(tasks).add(entries.to_multiset()));
    }
}

proof fn lemma_resumed_owes(pending: Seq<TaskView>)
    ensures
        has_failure(pending) ==> will_fail(removal::resumed(pending)),
        !will_fail(removal::resumed(pending)) ==> owed(removal::resumed(pending)) == owed_by_tasks(pending),
{
    if has_failure(pending) {
        let i = choose|i: int| 0 <= i < pending.len() && (#[trigger] pending[i]) is Fail;
        if i < pending.len() - 1 {
            assert(pending.drop_last()[i] is Fail);
        }
    }
}

/// A stage that has still to give up does not end well.
proof fn lemma_failure_comes(stage: RemovalView, events: Seq<RemovalEventView>)
    requires
        can_follow(stage, events),
        will_fail(stage),
    ensures
        will_fail(after_events(stage, events)),
    decreases events.len(),
{
    if events.len() > 0 {
        let next = stage.after(events[0]);
        match (stage, events[0]) {
            (RemovalView::List { path, pending }, RemovalEventView::Listed { entries, error }) => {
                let tasks = pending.push(removal::closing_task(path, error)) + removal::deletions(entries);
                let i = choose|i: int| 0 <= i < pending.len() && (#[trigger] pending[i]) is Fail;
                assert(tasks[i] is Fail);
                lemma_resumed_owes(tasks);
            },
            (RemovalView::RemoveFile { path, pending }, _) => {
                lemma_resumed_owes(pending);
            },
            (RemovalView::RemoveDirectory { path, pending }, _) => {
                lemma_resumed_owes(pending);
            },
            _ => {},
        }
        lemma_failure_comes(next, events.drop_first());
    }
}

proof fn lemma_step_owes(stage: RemovalView, event: RemovalEventView)
    requires
        stage.awaits(event),
        !will_fail(stage.after(event)),
    ensures
        removed_by(stage).to_multiset().add(owed(stage.after(event))) == owed(stage).add(
            listed_by(event),
        ),
        event matches RemovalEventView::Listed { entries, error } ==> error is None,
{
    broadcast use vstd::seq_lib::group_to_multiset_ensures;

    let next = stage.after(event);
    assert(Seq::<Seq<u8>>::empty().to_multiset() =~= Multiset::empty());
    match (stage, event) {
        (RemovalView::List { path, pending }, RemovalEventView::Listed { entries, error }) => {
            let opened = pending.push(removal::closing_task(path, error));
            let tasks = opened + removal::deletions(entries);
            lemma_resumed_owes(tasks);
            if error is Some {
                assert(tasks[pending.len() as int] is Fail);
            }
            lemma_owed_by_deletions(opened, entries);
            assert(opened.drop_last() =~= pending);
        },
        (RemovalView::RemoveFile { path, pending }, _) => {
            lemma_resumed_owes(pending);
            assert(Seq::<Seq<u8>>::empty().push(path) =~= seq![path]);
        },
        (RemovalView::RemoveDirectory { path, pending }, _) => {
            lemma_resumed_owes(pending);
            assert(Seq::<Seq<u8>>::empty().push(path) =~= seq![path]);
        },
        _ => {},
    }
    assert(removed_by(stage).to_multiset().add(owed(next)) =~= owed(stage).add(listed_by(event)));
}

proof fn lemma_success_removes_all(stage: RemovalView, events: Seq<RemovalEventView>)
    requires
        can_follow(stage, events),
        after_events(stage, events) == (RemovalView::Finished { result: Ok::<(), Seq<char>>(()) }),
    ensures
        removed(stage, events).to_multiset() == owed(stage).add(listed(events)),
        forall|i: int|
            0 <= i < events.len() ==> ((#[trigger] events[i]) matches RemovalEventView::Listed {
                entries,
                error,
            } ==> error is None),
    decreases events.len(),
{
    broadcast use vstd::seq_lib::group_to_multiset_ensures;

    if events.len() == 0 {
        assert(Seq::<Seq<u8>>::empty().to_multiset() =~= Multiset::empty());
        assert(removed(stage, events).to_multiset() =~= owed(stage).add(listed(events)));
    } else {
        let next = stage.after(events[0]);
        let rest = events.drop_first();
        if will_fail(next) {
            lemma_failure_comes(next, rest);
        }
        lemma_step_owes(stage, events[0]);
        lemma_success_removes_all(next, rest);
        let first = removed_by(stage);
        vstd::seq_lib::lemma_multiset_commutative(first, removed(next, rest));
        assert(removed(stage, events) == first + removed(next, rest));
        assert(first.to_multiset().add(owed(next).add(listed(rest))) =~= first.to_multiset().add(
            owed(next),
        ).add(listed(rest)));
        assert(owed(stage).add(listed_by(events[0])).add(listed(rest)) =~= owed(stage).add(
            listed(events),
        ));
        assert forall|i: int| 0 <= i < events.len() implies ((
        #[trigger] events[i]) matches RemovalEventView::Listed { entries, error }
            ==> error is None) by {
            if i > 0 {
                assert(events[i] == rest[i - 1]);
            }
        }
    }
}

proof fn lemma_listed_contains(events: Seq<RemovalEventView>, i: int, path: Seq<u8>)
    requires
        0 <= i < events.len(),
        listed_by(events[i]).contains(path),
    ensures
        listed(events).contains(path),
    decreases events.len(),
{
    if i > 0 {
        assert(events.drop_first()[i - 1] == events[i]);
        lemma_listed_contains(events.drop_first(), i - 1, path);
    }
}

/// A deletion that reports success removed what was to be deleted and every entry that was
/// listed on the way, each as often as it was listed, and nothing else; and every listing
/// was complete.
pub proof fn law_success_removes_all_that_was_listed(
    path: Seq<u8>,
    events: Seq<RemovalEventView>,
)
    requires
        can_follow(RemovalView::Inspect { path, pending: Seq::empty() }, events),
        after_events(RemovalView::Inspect { path, pending: Seq::empty() }, events) == (
        RemovalView::Finished { result: Ok::<(), Seq<char>>(()) }),
    ensures
        ({
            let gone = removed(RemovalView::Inspect { path, pending: Seq::empty() }, events);
            &&& gone.to_multiset() == listed(events).insert(path)
            &&& gone.contains(path)
            &&& forall|i: int, k: int|
                0 <= i < events.len() && events[i] is Listed && 0 <= k
                    < events[i]->Listed_entries.len() ==> gone.contains(
                    #[trigger] events[i]->Listed_entries[k],
                )
            &&& forall|i: int|
                0 <= i < events.len() && (#[trigger] events[i]) is Listed
                    ==> events[i]->Listed_error is None
        }),
{
    broadcast use vstd::seq_lib::group_to_multiset_ensures;

    let start = RemovalView::Inspect { path, pending: Seq::empty() };
    let gone = removed(start, events);
    lemma_success_removes_all(start, events);
    assert(gone.to_multiset() =~= listed(events).insert(path));
    assert(gone.to_multiset().contains(path));
    assert forall|i: int, k: int|
        0 <= i < events.len() && events[i] is Listed && 0 <= k
            < events[i]->Listed_entries.len() implies gone.contains(
        #[trigger] events[i]->Listed_entries[k],
    ) by {
        let entry = events[i]->Listed_entries[k];
        assert(events[i]->Listed_entries.contains(entry));
        assert(listed_by(events[i]).contains(entry));
        lemma_listed_contains(events, i, entry);
        assert(gone.to_multiset().contains(entry));
    }
}

/// The error that an event reports.
pub open spec fn error_of(event: RemovalEventView) -> Option<Seq<char>> {
    match event {
        RemovalEventView::NotListed { error } => Some(error),
        RemovalEventView::FileRemoved(Err(error)) => Some(error),
        RemovalEventView::DirectoryRemoved(Err(error)) => Some(error),
        _ => None,
    }
}

/// The first failure ends the deletion with its error, and nothing is done afterwards.
pub proof fn law_first_failure_ends_removal(
    stage: RemovalView,
    events: Seq<RemovalEventView>,
    j: int,
)
    requires
        can_follow(stage, events),
        0 <= j < events.len(),
        error_of(events[j]) is Some,
    ensures
        j == events.len() - 1,
        after_events(stage, events) == (RemovalView::Finished {
            result: Err::<(), Seq<char>>(error_of(events[j])->0),
        }),
    decreases events.len(),
{
    let next = stage.after(events[0]);
    let rest = events.drop_first();
    assert(can_follow(next, rest));
    if j == 0 {
        if rest.len() > 0 {
            assert(next.awaits(rest[0]));
        }
        assert(after_events(next, rest) == next);
    } else {
        assert(rest[j - 1] == events[j]);
        law_first_failure_ends_removal(next, rest, j - 1);
    }
}

} // verus!
