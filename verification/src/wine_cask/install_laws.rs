//! What holds of every installation, from its start to its end.
use crate::paths;
use crate::wine_cask::app;
use crate::wine_cask::app::{InstallTarget, OperationState, WineCask};
use crate::wine_cask::archive;
use crate::wine_cask::archive::CompressionType;
use crate::wine_cask::install;
use crate::wine_cask::install::{
    Chunk, DownloadResponse, InstallEvent, InstallJob, InstallNotice, InstallPlan, InstallStage,
    Transfer,
};
use crate::wine_cask::outcome::{InstallFailure, InstallSuccess};
use vstd::prelude::*;

verus! {

/// Can the events follow one another from `stage` on?
pub open spec fn can_follow(stage: InstallStage, events: Seq<InstallEvent>) -> bool
    decreases events.len(),
{
    events.len() == 0 || (stage.awaits(events[0]) && can_follow(
        stage.after(events[0]),
        events.drop_first(),
    ))
}

/// The stage that a sequence of events leads to.
pub open spec fn after_events(stage: InstallStage, events: Seq<InstallEvent>) -> InstallStage
    decreases events.len(),
{
    if events.len() == 0 {
        stage
    } else {
        after_events(stage.after(events[0]), events.drop_first())
    }
}

/// How often the user was told something.
pub open spec fn notifications(events: Seq<InstallEvent>) -> nat
    decreases events.len(),
{
    if events.len() == 0 {
        0
    } else {
        notifications(events.drop_first()) + if events[0] is Notified {
            1nat
        } else {
            0nat
        }
    }
}

/// The temporary directories that were prepared, in their order.
pub open spec fn prepared(events: Seq<InstallEvent>) -> Seq<Vec<u8>>
    decreases events.len(),
{
    if events.len() == 0 {
        Seq::empty()
    } else {
        let rest = prepared(events.drop_first());
        match events[0] {
            InstallEvent::TempPrepared(Some(temp_directory)) => seq![temp_directory] + rest,
            _ => rest,
        }
    }
}

/// The directory that a stage removes.
pub open spec fn removed_by(stage: InstallStage) -> Seq<Vec<u8>> {
    match stage {
        InstallStage::CleanUp { temp_directory, .. } => seq![temp_directory],
        _ => Seq::empty(),
    }
}

/// The directories that are removed while the events happen, in their order.
pub open spec fn removed(stage: InstallStage, events: Seq<InstallEvent>) -> Seq<Vec<u8>>
    decreases events.len(),
{
    if events.len() == 0 {
        Seq::empty()
    } else {
        removed_by(stage) + removed(stage.after(events[0]), events.drop_first())
    }
}

/// How often the user has still to be told something.
pub open spec fn notifications_owed(stage: InstallStage) -> nat {
    match stage {
        InstallStage::Finished => 0,
        InstallStage::CleanUp { pending: None, .. } => 0,
        _ => 1,
    }
}

/// The directories that have still to be removed.
pub open spec fn removals_owed(stage: InstallStage) -> Seq<Vec<u8>> {
    match stage {
        InstallStage::LookUp { .. } => Seq::empty(),
        InstallStage::ReportStart { .. } => Seq::empty(),
        InstallStage::PrepareTemp { .. } => Seq::empty(),
        InstallStage::CreateArchive { job } => seq![job.temp_directory],
        InstallStage::SendRequest { job } => seq![job.temp_directory],
        InstallStage::ReadChunk { job, .. } => seq![job.temp_directory],
        InstallStage::CheckCancelled { job, .. } => seq![job.temp_directory],
        InstallStage::WriteChunk { job, .. } => seq![job.temp_directory],
        InstallStage::ReportProgress { job, .. } => seq![job.temp_directory],
        InstallStage::FlushArchive { job } => seq![job.temp_directory],
        InstallStage::Extract { job } => seq![job.temp_directory],
        InstallStage::SyncState { temp_directory, .. } => seq![temp_directory],
        InstallStage::BroadcastState { temp_directory, .. } => seq![temp_directory],
        InstallStage::Notify { clean_up: Some(temp_directory), .. } => seq![temp_directory],
        InstallStage::Notify { clean_up: None, .. } => Seq::empty(),
        InstallStage::CleanUp { temp_directory, .. } => seq![temp_directory],
        InstallStage::Finished => Seq::empty(),
    }
}

proof fn lemma_notifications_balance(stage: InstallStage, events: Seq<InstallEvent>)
    requires
        can_follow(stage, events),
    ensures
        notifications(events) + notifications_owed(after_events(stage, events))
            == notifications_owed(stage),
    decreases events.len(),
{
    if events.len() > 0 {
        lemma_notifications_balance(stage.after(events[0]), events.drop_first());
    }
}

proof fn lemma_directories_balance(stage: InstallStage, events: Seq<InstallEvent>)
    requires
        can_follow(stage, events),
    ensures
        removed(stage, events) + removals_owed(after_events(stage, events)) == removals_owed(stage)
            + prepared(events),
    decreases events.len(),
{
    if events.len() > 0 {
        let next = stage.after(events[0]);
        let rest = events.drop_first();
        lemma_directories_balance(next, rest);
        let later = removed(next, rest) + removals_owed(after_events(next, rest));
        assert(removed(stage, events) + removals_owed(after_events(stage, events))
            =~= removed_by(stage) + later);
        assert(removed_by(stage) + (removals_owed(next) + prepared(rest)) =~= removals_owed(stage)
            + prepared(events));
    }
}

/// The user is told exactly once how an installation ended.
pub proof fn law_user_is_told_once(start: InstallStage, events: Seq<InstallEvent>)
    requires
        start is LookUp,
        can_follow(start, events),
        after_events(start, events) is Finished,
    ensures
        notifications(events) == 1,
{
    lemma_notifications_balance(start, events);
}

/// An installation that ends, however it ends, has removed exactly the temporary
/// directories that were prepared for it.
pub proof fn law_temp_directory_is_removed(start: InstallStage, events: Seq<InstallEvent>)
    requires
        start is LookUp,
        can_follow(start, events),
        after_events(start, events) is Finished,
    ensures
        removed(start, events) == prepared(events),
{
    lemma_directories_balance(start, events);
    assert(removed(start, events) + Seq::<Vec<u8>>::empty() =~= removed(start, events));
    assert(Seq::<Vec<u8>>::empty() + prepared(events) =~= prepared(events));
}

proof fn lemma_stage_at(start: InstallStage, events: Seq<InstallEvent>, i: int)
    requires
        can_follow(start, events),
        0 <= i < events.len(),
    ensures
        after_events(start, events.take(i)).awaits(events[i]),
        after_events(start, events.take(i + 1)) == after_events(start, events.take(i)).after(
            events[i],
        ),
    decreases i,
{
    let next = start.after(events[0]);
    let rest = events.drop_first();
    if i == 0 {
        assert(after_events(start, events.take(0)) == start);
        assert(events.take(1)[0] == events[0]);
        assert(after_events(next, events.take(1).drop_first()) == next);
    } else {
        lemma_stage_at(next, rest, i - 1);
        assert(rest[i - 1] == events[i]);
        assert(events.take(i)[0] == events[0]);
        assert(events.take(i + 1)[0] == events[0]);
        assert(events.take(i).drop_first() =~= rest.take(i - 1));
        assert(events.take(i + 1).drop_first() =~= rest.take(i));
    }
}

/// A cancellation that is seen during the download writes nothing more: the temporary
/// directory is removed, the user is told, and the installation ends.
pub proof fn law_cancelled_download_ends(start: InstallStage, events: Seq<InstallEvent>, i: int)
    requires
        can_follow(start, events),
        0 <= i < events.len(),
        events[i] == InstallEvent::CancelChecked(true),
    ensures
        ({
            let checking = after_events(start, events.take(i));
            &&& checking is CheckCancelled
            &&& after_events(start, events.take(i + 1)) == install::abandoned(
                checking->CheckCancelled_job,
                InstallNotice::Cancelled,
            )
        }),
        events.len() <= i + 3,
        i + 1 < events.len() ==> events[i + 1] is CleanedUp,
        i + 2 < events.len() ==> events[i + 2] is Notified && after_events(start, events) is Finished,
{
    lemma_stage_at(start, events, i);
    if i + 1 < events.len() {
        lemma_stage_at(start, events, i + 1);
    }
    if i + 2 < events.len() {
        lemma_stage_at(start, events, i + 2);
    }
    if i + 3 < events.len() {
        lemma_stage_at(start, events, i + 3);
    }
    assert(events.take(events.len() as int) =~= events);
}

/// The state is brought up to date directly after an installation that succeeded, and only
/// then; it is shown directly after that, and only then; and only after that is the user
/// told. A failure is told at once.
pub proof fn law_state_is_shown_after_success(
    start: InstallStage,
    events: Seq<InstallEvent>,
    i: int,
)
    requires
        start is LookUp,
        can_follow(start, events),
        0 <= i < events.len(),
    ensures
        events[i] is StateSynced <==> i > 0 && (events[i - 1] matches InstallEvent::Extracted(
            Ok(_),
        )),
        events[i] is StateBroadcast <==> i > 0 && events[i - 1] is StateSynced,
        i > 0 && events[i - 1] is StateBroadcast ==> events[i] is Notified,
        i > 0 && (events[i - 1] matches InstallEvent::Extracted(Err(_))) ==> events[i] is Notified,
{
    lemma_stage_at(start, events, i);
    if i > 0 {
        lemma_stage_at(start, events, i - 1);
    } else {
        assert(after_events(start, events.take(0)) == start);
    }
}

/// An installation that ended after a success has brought the state up to date, shown it
/// and told the user, in this order and at once.
pub proof fn law_success_is_shown_and_told(start: InstallStage, events: Seq<InstallEvent>, i: int)
    requires
        start is LookUp,
        can_follow(start, events),
        after_events(start, events) is Finished,
        0 <= i < events.len(),
        events[i] matches InstallEvent::Extracted(Ok(_)),
    ensures
        i + 3 < events.len(),
        events[i + 1] is StateSynced,
        events[i + 2] is StateBroadcast,
        events[i + 3] is Notified,
        after_events(start, events.take(i + 3)) == (InstallStage::Notify {
            notice: InstallNotice::Installed { success: events[i]->Extracted_0->Ok_0 },
            clean_up: Some(after_events(start, events.take(i))->Extract_job.temp_directory),
        }),
{
    assert(events.take(events.len() as int) =~= events);
    lemma_stage_at(start, events, i);
    if i + 1 < events.len() {
        lemma_stage_at(start, events, i + 1);
    }
    if i + 2 < events.len() {
        lemma_stage_at(start, events, i + 2);
    }
    if i + 3 < events.len() {
        lemma_stage_at(start, events, i + 3);
    }
}

/// Is the stage one of receiving the download?
pub open spec fn is_receiving(stage: InstallStage) -> bool {
    stage is ReadChunk || stage is CheckCancelled || stage is WriteChunk || stage is ReportProgress
}

/// Is the stage one after the download, or its end?
pub open spec fn is_past_download(stage: InstallStage) -> bool {
    match stage {
        InstallStage::FlushArchive { .. } => true,
        InstallStage::Extract { .. } => true,
        InstallStage::SyncState { .. } => true,
        InstallStage::BroadcastState { .. } => true,
        InstallStage::Notify { .. } => true,
        InstallStage::CleanUp { .. } => true,
        InstallStage::Finished => true,
        _ => false,
    }
}

/// The bytes that have been written and the ones that wait to be written.
pub open spec fn bytes_taken(stage: InstallStage) -> int {
    match stage {
        InstallStage::ReadChunk { job, transfer } => transfer.downloaded as int,
        InstallStage::CheckCancelled { job, transfer, chunk } => match chunk {
            Chunk::Data { length } => transfer.downloaded + length,
            Chunk::Broken => transfer.downloaded as int,
        },
        InstallStage::WriteChunk { job, transfer, length } => transfer.downloaded + length,
        InstallStage::ReportProgress { job, transfer, total } => transfer.downloaded as int,
        _ => 0,
    }
}

/// The bytes of the pieces that arrived.
pub open spec fn bytes_arrived(events: Seq<InstallEvent>) -> int
    decreases events.len(),
{
    if events.len() == 0 {
        0
    } else {
        let rest = bytes_arrived(events.drop_first());
        match events[0] {
            InstallEvent::ChunkRead(Some(Chunk::Data { length })) => length + rest,
            _ => rest,
        }
    }
}

proof fn lemma_past_download_stays(stage: InstallStage, events: Seq<InstallEvent>)
    requires
        can_follow(stage, events),
        is_past_download(stage),
    ensures
        is_past_download(after_events(stage, events)),
    decreases events.len(),
{
    if events.len() > 0 {
        lemma_past_download_stays(stage.after(events[0]), events.drop_first());
    }
}

/// While a download goes on, the bytes that are counted are those of the pieces that
/// arrived: none is lost and none is counted twice.
pub proof fn law_every_byte_is_counted(stage: InstallStage, events: Seq<InstallEvent>)
    requires
        can_follow(stage, events),
        is_receiving(stage),
        is_receiving(after_events(stage, events)),
    ensures
        bytes_taken(after_events(stage, events)) == bytes_taken(stage) + bytes_arrived(events),
    decreases events.len(),
{
    if events.len() > 0 {
        let next = stage.after(events[0]);
        let rest = events.drop_first();
        assert(can_follow(next, rest));
        if is_receiving(next) {
            law_every_byte_is_counted(next, rest);
        } else {
            lemma_past_download_stays(next, rest);
        }
    }
}

/// What a stage knows to have been installed.
pub open spec fn installed_success(stage: InstallStage) -> Option<InstallSuccess> {
    match stage {
        InstallStage::SyncState { success, .. } => Some(success),
        InstallStage::BroadcastState { success, .. } => Some(success),
        InstallStage::Notify { notice: InstallNotice::Installed { success }, .. } => Some(success),
        InstallStage::CleanUp { pending: Some(InstallNotice::Installed { success }), .. } => Some(
            success,
        ),
        _ => None,
    }
}

/// The user is told of a success only if the release was installed, and of the
/// success that was reported then.
pub proof fn law_success_is_real(stage: InstallStage, events: Seq<InstallEvent>)
    requires
        can_follow(stage, events),
        installed_success(stage) is None,
        installed_success(after_events(stage, events)) is Some,
    ensures
        exists|i: int|
            0 <= i < events.len() && #[trigger] events[i] == InstallEvent::Extracted(
                Ok(installed_success(after_events(stage, events))->0),
            ),
    decreases events.len(),
{
    if events.len() > 0 {
        let next = stage.after(events[0]);
        let rest = events.drop_first();
        assert(can_follow(next, rest));
        if installed_success(next) is None {
            law_success_is_real(next, rest);
            let i = choose|i: int|
                0 <= i < rest.len() && #[trigger] rest[i] == InstallEvent::Extracted(
                    Ok(installed_success(after_events(next, rest))->0),
                );
            assert(events[i + 1] == rest[i]);
        } else {
            lemma_success_is_kept(next, rest);
            assert(events[0] == InstallEvent::Extracted(Ok(installed_success(next)->0)));
        }
    }
}

proof fn lemma_success_is_kept(stage: InstallStage, events: Seq<InstallEvent>)
    requires
        can_follow(stage, events),
        installed_success(stage) is Some,
        installed_success(after_events(stage, events)) is Some,
    ensures
        installed_success(after_events(stage, events)) == installed_success(stage),
    decreases events.len(),
{
    if events.len() > 0 {
        let next = stage.after(events[0]);
        let rest = events.drop_first();
        assert(can_follow(next, rest));
        if installed_success(next) is Some {
            lemma_success_is_kept(next, rest);
        } else {
            lemma_no_success_after_the_end(next, rest);
        }
    }
}

proof fn lemma_no_success_after_the_end(stage: InstallStage, events: Seq<InstallEvent>)
    requires
        can_follow(stage, events),
        stage is Finished || stage matches InstallStage::CleanUp { pending: None, .. },
    ensures
        installed_success(after_events(stage, events)) is None,
    decreases events.len(),
{
    if events.len() > 0 {
        lemma_no_success_after_the_end(stage.after(events[0]), events.drop_first());
    }
}

/// An installation takes every outcome of its stages, whatever it is, but for a piece that
/// was written and does not fit into the count of bytes; and it takes no other.
pub proof fn law_every_outcome_is_taken(stage: InstallStage, event: InstallEvent)
    ensures
        stage.awaits(event) <==> {
            ||| stage is LookUp && event is LookedUp
            ||| stage is ReportStart && event is Reported
            ||| stage is PrepareTemp && event is TempPrepared
            ||| stage is CreateArchive && event is ArchiveCreated
            ||| stage is SendRequest && event is Responded
            ||| stage is ReadChunk && event is ChunkRead
            ||| stage is CheckCancelled && event is CancelChecked
            ||| stage is WriteChunk && event == InstallEvent::ChunkWritten(false)
            ||| stage is WriteChunk && event == InstallEvent::ChunkWritten(true)
                && stage->WriteChunk_transfer.downloaded + stage->WriteChunk_length <= u64::MAX
            ||| stage is ReportProgress && event is Reported
            ||| stage is FlushArchive && event is ArchiveFlushed
            ||| stage is Extract && event is Extracted
            ||| stage is SyncState && event is StateSynced
            ||| stage is BroadcastState && event is StateBroadcast
            ||| stage is Notify && event is Notified
            ||| stage is CleanUp && event is CleanedUp
        },
{
}

proof fn lemma_last_event(start: InstallStage, events: Seq<InstallEvent>)
    requires
        can_follow(start, events),
        events.len() > 0,
    ensures
        can_follow(start, events.drop_last()),
        after_events(start, events.drop_last()).awaits(events.last()),
        after_events(start, events) == after_events(start, events.drop_last()).after(
            events.last(),
        ),
    decreases events.len(),
{
    let next = start.after(events[0]);
    let rest = events.drop_first();
    assert(can_follow(next, rest));
    if events.len() == 1 {
        assert(after_events(next, rest) == next);
        assert(after_events(start, events.drop_last()) == start);
    } else {
        lemma_last_event(next, rest);
        assert(rest.last() == events.last());
        assert(rest.drop_last() =~= events.drop_last().drop_first());
        assert(events.drop_last()[0] == events[0]);
    }
}

/// The plan that a stage holds.
pub open spec fn plan_of(stage: InstallStage) -> Option<InstallPlan> {
    match stage {
        InstallStage::ReportStart { plan, .. } => Some(plan),
        InstallStage::PrepareTemp { plan, .. } => Some(plan),
        _ => match job_of(stage) {
            Some(job) => Some(job.plan),
            None => None,
        },
    }
}

/// The job that a stage holds.
pub open spec fn job_of(stage: InstallStage) -> Option<InstallJob> {
    match stage {
        InstallStage::CreateArchive { job } => Some(job),
        InstallStage::SendRequest { job } => Some(job),
        InstallStage::ReadChunk { job, .. } => Some(job),
        InstallStage::CheckCancelled { job, .. } => Some(job),
        InstallStage::WriteChunk { job, .. } => Some(job),
        InstallStage::ReportProgress { job, .. } => Some(job),
        InstallStage::FlushArchive { job } => Some(job),
        InstallStage::Extract { job } => Some(job),
        _ => None,
    }
}

/// How far the download of a stage is.
pub open spec fn transfer_of(stage: InstallStage) -> Option<Transfer> {
    match stage {
        InstallStage::ReadChunk { transfer, .. } => Some(transfer),
        InstallStage::CheckCancelled { transfer, .. } => Some(transfer),
        InstallStage::WriteChunk { transfer, .. } => Some(transfer),
        InstallStage::ReportProgress { transfer, .. } => Some(transfer),
        _ => None,
    }
}

/// Where in a run a stage can stand.
spec fn stands_at(stage: InstallStage, n: nat) -> bool {
    match stage {
        InstallStage::LookUp { .. } => n == 0,
        InstallStage::ReportStart { .. } => n == 1,
        InstallStage::PrepareTemp { .. } => n == 2,
        InstallStage::CreateArchive { .. } => n == 3,
        InstallStage::SendRequest { .. } => n == 4,
        _ => n > 0 && (job_of(stage) is Some ==> n >= 5),
    }
}

proof fn lemma_stands_at(start: InstallStage, events: Seq<InstallEvent>)
    requires
        start is LookUp,
        can_follow(start, events),
    ensures
        stands_at(after_events(start, events), events.len()),
    decreases events.len(),
{
    if events.len() > 0 {
        lemma_last_event(start, events);
        lemma_stands_at(start, events.drop_last());
    }
}

/// What is installed is what was asked for, and goes where it was asked for: at every point
/// of an installation, the plan has the target of the request, the release that was looked
/// up for it, and the download that is planned for that release.
pub proof fn law_plan_is_what_was_asked_for(start: InstallStage, events: Seq<InstallEvent>)
    requires
        start is LookUp,
        can_follow(start, events),
    ensures
        plan_of(after_events(start, events)) matches Some(plan) ==> {
            &&& events.len() > 0
            &&& events[0] == InstallEvent::LookedUp(Some(plan.catalog_release))
            &&& plan.target == start->LookUp_target
            &&& archive::planned_download(plan.catalog_release.release) == Some(plan.download)
        },
    decreases events.len(),
{
    if events.len() > 0 {
        lemma_last_event(start, events);
        lemma_stands_at(start, events.drop_last());
        law_plan_is_what_was_asked_for(start, events.drop_last());
        if events.len() > 1 {
            assert(events.drop_last()[0] == events[0]);
        }
    }
}

/// An installation works in the temporary directory that was prepared for it in the staging
/// directory of the request, and in no other, up to the end: where it cleans up, it removes
/// that directory.
pub proof fn law_work_is_done_in_the_prepared_directory(
    start: InstallStage,
    events: Seq<InstallEvent>,
)
    requires
        start is LookUp,
        can_follow(start, events),
    ensures
        ({
            let stage = after_events(start, events);
            &&& stage matches InstallStage::ReportStart { staging_root, .. } ==> staging_root
                == start->LookUp_staging_root
            &&& stage matches InstallStage::PrepareTemp { staging_root, .. } ==> staging_root
                == start->LookUp_staging_root
            &&& forall|i: int|
                0 <= i < removals_owed(stage).len() ==> events.len() > 2 && events[2]
                    == InstallEvent::TempPrepared(Some(#[trigger] removals_owed(stage)[i]))
        }),
    decreases events.len(),
{
    if events.len() > 0 {
        let prior = events.drop_last();
        lemma_last_event(start, events);
        lemma_stands_at(start, prior);
        law_work_is_done_in_the_prepared_directory(start, prior);
        let before = after_events(start, prior);
        let stage = after_events(start, events);
        if events.len() > 3 {
            assert(prior[2] == events[2]);
        }
        assert forall|i: int| 0 <= i < removals_owed(stage).len() implies events.len() > 2
            && events[2] == InstallEvent::TempPrepared(Some(#[trigger] removals_owed(stage)[i])) by {
            if before is PrepareTemp {
                assert(events.last() == events[2]);
            } else {
                assert(removals_owed(before)[i] == removals_owed(stage)[i]);
            }
        }
    }
}

/// Pieces are received only of a download that was answered with success, and the size that
/// the progress is measured by is the one that the server gave with that answer.
pub proof fn law_size_is_what_the_server_said(start: InstallStage, events: Seq<InstallEvent>)
    requires
        start is LookUp,
        can_follow(start, events),
    ensures
        transfer_of(after_events(start, events)) matches Some(transfer) ==> events.len() > 4 && (
        events[4] matches InstallEvent::Responded(
            DownloadResponse::Answered { status, content_length },
        ) && 200 <= status < 300 && transfer.total == content_length),
        after_events(start, events) matches InstallStage::ReportProgress {
            transfer,
            total,
            ..
        } ==> total > 0 && transfer.total == Some(total),
    decreases events.len(),
{
    if events.len() > 0 {
        let prior = events.drop_last();
        lemma_last_event(start, events);
        lemma_stands_at(start, prior);
        law_size_is_what_the_server_said(start, prior);
        if events.len() > 5 {
            assert(prior[4] == events[4]);
        }
    }
}

/// While a download goes on, the bytes that are counted are those of all pieces that arrived
/// since the start.
pub proof fn law_bytes_are_counted_from_the_start(start: InstallStage, events: Seq<InstallEvent>)
    requires
        start is LookUp,
        can_follow(start, events),
        is_receiving(after_events(start, events)),
    ensures
        bytes_taken(after_events(start, events)) == bytes_arrived(events),
{
    lemma_bytes_balance(start, events);
}

proof fn lemma_bytes_balance(stage: InstallStage, events: Seq<InstallEvent>)
    requires
        can_follow(stage, events),
        is_receiving(after_events(stage, events)),
    ensures
        bytes_taken(after_events(stage, events)) == bytes_taken(stage) + bytes_arrived(events),
    decreases events.len(),
{
    if events.len() > 0 {
        let next = stage.after(events[0]);
        assert(can_follow(next, events.drop_first()));
        if is_past_download(next) {
            lemma_past_download_stays(next, events.drop_first());
        }
        lemma_bytes_balance(next, events.drop_first());
    }
}

/// What is told at the end when the installation is given up, by the event that ended it.
pub proof fn law_every_failure_is_told(start: InstallStage, events: Seq<InstallEvent>, i: int)
    requires
        can_follow(start, events),
        0 <= i < events.len(),
    ensures
        ({
            let stage = after_events(start, events.take(i + 1));
            let chunk = after_events(start, events.take(i))->CheckCancelled_chunk;
            &&& events[i] == InstallEvent::LookedUp(None) ==> tells(
                stage,
                InstallNotice::ReleaseUnavailable,
            )
            &&& events[i] matches InstallEvent::LookedUp(Some(found)) ==> (
            archive::planned_download(found.release) is None ==> tells(
                stage,
                InstallNotice::NoArchive,
            ))
            &&& events[i] == InstallEvent::TempPrepared(None) ==> tells(
                stage,
                InstallNotice::TempDirectoryFailed,
            )
            &&& events[i] matches InstallEvent::ArchiveCreated(Err(error)) ==> cleans_and_tells(
                stage,
                InstallNotice::ArchiveFileFailed { error },
            )
            &&& events[i] == InstallEvent::Responded(DownloadResponse::Unreachable)
                ==> cleans_and_tells(stage, InstallNotice::RequestFailed)
            &&& events[i] matches InstallEvent::Responded(
                DownloadResponse::Answered { status, content_length },
            ) ==> (!(200 <= status < 300) ==> cleans_and_tells(
                stage,
                InstallNotice::DownloadFailed,
            ))
            &&& events[i] == InstallEvent::CancelChecked(true) ==> cleans_and_tells(
                stage,
                InstallNotice::Cancelled,
            )
            &&& events[i] == InstallEvent::CancelChecked(false) && chunk == Chunk::Broken
                ==> cleans_and_tells(stage, InstallNotice::Interrupted)
            &&& events[i] == InstallEvent::ChunkWritten(false) ==> cleans_and_tells(
                stage,
                InstallNotice::WriteFailed,
            )
            &&& events[i] == InstallEvent::ArchiveFlushed(false) ==> cleans_and_tells(
                stage,
                InstallNotice::FlushFailed,
            )
            &&& events[i] matches InstallEvent::Extracted(Err(failure)) ==> (stage
                matches InstallStage::Notify { notice, clean_up } && notice == (
            InstallNotice::NotInstalled { failure }) && clean_up is Some)
        }),
{
    lemma_stage_at(start, events, i);
    if i > 0 {
        lemma_stage_at(start, events, i - 1);
    }
}

/// Does the stage tell the user `notice`, with nothing to clean up?
pub open spec fn tells(stage: InstallStage, notice: InstallNotice) -> bool {
    stage matches InstallStage::Notify { notice: told, clean_up: None } && told == notice
}

/// Does the stage clean up and then tell the user `notice`?
pub open spec fn cleans_and_tells(stage: InstallStage, notice: InstallNotice) -> bool {
    stage matches InstallStage::CleanUp { pending: Some(told), .. } && told == notice
}

/// An installation goes on whenever nothing stands against it: each outcome that is no
/// failure is followed by the next piece of work, up to a success that is shown.
pub proof fn law_installation_goes_on(start: InstallStage, events: Seq<InstallEvent>, i: int)
    requires
        can_follow(start, events),
        0 <= i < events.len(),
    ensures
        ({
            let before = after_events(start, events.take(i));
            let stage = after_events(start, events.take(i + 1));
            &&& events[i] matches InstallEvent::LookedUp(Some(found)) ==> (
            archive::planned_download(found.release) is Some ==> (stage
                matches InstallStage::ReportStart { plan, staging_root } && plan.catalog_release
                == found && plan.target == before->LookUp_target && Some(plan.download)
                == archive::planned_download(found.release) && staging_root
                == before->LookUp_staging_root))
            &&& events[i] is Reported && before is ReportStart ==> stage is PrepareTemp
            &&& events[i] matches InstallEvent::TempPrepared(Some(directory)) ==> (stage
                matches InstallStage::CreateArchive { job } && job.temp_directory == directory)
            &&& events[i] matches InstallEvent::ArchiveCreated(Ok(_)) ==> stage is SendRequest
            &&& events[i] matches InstallEvent::Responded(
                DownloadResponse::Answered { status, content_length },
            ) ==> (200 <= status < 300 ==> (stage matches InstallStage::ReadChunk {
                transfer,
                ..
            } && transfer.downloaded == 0 && transfer.total == content_length))
            &&& events[i] matches InstallEvent::ChunkRead(Some(piece)) ==> (stage
                matches InstallStage::CheckCancelled { chunk, .. } && chunk == piece)
            &&& events[i] == InstallEvent::ChunkRead(None) ==> stage is FlushArchive
            &&& events[i] == InstallEvent::CancelChecked(false) ==> (
            before->CheckCancelled_chunk matches Chunk::Data { length } ==> (stage
                matches InstallStage::WriteChunk { length: written, .. } && written == length))
            &&& events[i] == InstallEvent::ChunkWritten(true) ==> transfer_of(stage)->0.downloaded
                == transfer_of(before)->0.downloaded + before->WriteChunk_length && match transfer_of(
                before,
            )->0.total {
                Some(size) => if size > 0 {
                    stage is ReportProgress && stage->ReportProgress_total == size
                } else {
                    stage is ReadChunk
                },
                None => stage is ReadChunk,
            }
            &&& events[i] matches InstallEvent::ChunkRead(Some(_)) ==> transfer_of(stage)
                == transfer_of(before)
            &&& events[i] == InstallEvent::CancelChecked(false) && stage is WriteChunk
                ==> transfer_of(stage) == transfer_of(before)
            &&& events[i] is Reported && before is ReportProgress ==> transfer_of(stage)
                == transfer_of(before)
            &&& events[i] is Reported && before is ReportProgress ==> stage is ReadChunk
            &&& events[i] == InstallEvent::ArchiveFlushed(true) ==> stage is Extract
            &&& events[i] matches InstallEvent::Extracted(Ok(installed)) ==> (stage
                matches InstallStage::SyncState { success, .. } && success == installed)
            &&& events[i] is StateSynced ==> (stage matches InstallStage::BroadcastState {
                success,
                ..
            } && success == before->SyncState_success)
            &&& events[i] is StateBroadcast ==> (stage matches InstallStage::Notify {
                notice,
                clean_up,
            } && notice == (InstallNotice::Installed { success: before->BroadcastState_success })
                && clean_up is Some)
        }),
{
    lemma_stage_at(start, events, i);
}

/// What is owed at the end is done: after the clean-up that comes first the user is told the
/// notice that was put off, and after a notice with something to clean up that is removed;
/// nothing comes after that.
pub proof fn law_end_is_orderly(start: InstallStage, events: Seq<InstallEvent>, i: int)
    requires
        can_follow(start, events),
        0 <= i < events.len(),
    ensures
        ({
            let before = after_events(start, events.take(i));
            let stage = after_events(start, events.take(i + 1));
            &&& events[i] is Notified ==> match before->Notify_clean_up {
                Some(directory) => stage == (InstallStage::CleanUp {
                    temp_directory: directory,
                    pending: None,
                }),
                None => stage is Finished,
            }
            &&& events[i] is CleanedUp ==> match before->CleanUp_pending {
                Some(notice) => tells(stage, notice),
                None => stage is Finished,
            }
        }),
{
    lemma_stage_at(start, events, i);
}

/// What the user is told names its cause in full, and a success in full.
pub proof fn law_notices_say_it_all(
    error: String,
    success: InstallSuccess,
    failure: InstallFailure,
)
    ensures
        InstallNotice::ReleaseUnavailable.text() == "Requested release is no longer available"@,
        InstallNotice::NoArchive.text()
            == "Error: No supported compressed archive found for this release"@,
        InstallNotice::TempDirectoryFailed.text()
            == "Failed to prepare temporary install directory"@,
        (InstallNotice::ArchiveFileFailed { error }).text()
            == "Failed to create temporary archive file: "@ + error@,
        InstallNotice::RequestFailed.text()
            == "Connection error: Unable to start compatibility tool download"@,
        InstallNotice::DownloadFailed.text() == "Connection error: Download failed"@,
        InstallNotice::Cancelled.text() == "Installation cancelled"@,
        InstallNotice::Interrupted.text() == "Connection error: Download interrupted"@,
        InstallNotice::WriteFailed.text()
            == "Storage error: Failed to write compatibility tool archive"@,
        InstallNotice::FlushFailed.text()
            == "Storage error: Failed to finalize compatibility tool archive"@,
        (InstallNotice::Installed { success }).text() == success.text(),
        (InstallNotice::NotInstalled { failure }).text() == failure.text(),
{
}

/// The archive is downloaded to a file directly in the temporary directory, which is called
/// after the way it is compressed.
pub proof fn law_archive_is_in_the_temp_directory(job: InstallJob)
    ensures
        paths::components(job.archive_path()) == paths::components(job.temp_directory@).push(
            paths::ComponentView::Normal(
                app::name_bytes(
                    match job.plan.download.compression_type {
                        CompressionType::Gzip => "download.tar.gz"@,
                        CompressionType::Xz => "download.tar.xz"@,
                        CompressionType::Unknown => "download.tar"@,
                    },
                ),
            ),
        ),
{
    reveal_strlit("download.tar.gz");
    reveal_strlit("download.tar.xz");
    reveal_strlit("download.tar");
    let name = archive::archive_name(job.plan.download.compression_type);
    assert(name.len() > 2);
    app::law_ascii_name_is_plain(name);
    app::law_plain_name_is_added(job.temp_directory@, name);
}

/// What is installed is the release that the caller asked for, and it goes where the caller
/// asked, through the staging directory: from the first stage on, whatever happens.
pub proof fn law_request_is_followed_to_the_end(
    cask: WineCask,
    release_id: String,
    target: InstallTarget,
    start: InstallStage,
    events: Seq<InstallEvent>,
)
    requires
        cask.is_installation_of(start, release_id, target),
        can_follow(start, events),
    ensures
        start is LookUp && start->LookUp_release_id == release_id,
        plan_of(after_events(start, events)) matches Some(plan) ==> plan.target == target,
        after_events(start, events) matches InstallStage::PrepareTemp { staging_root, .. }
            ==> paths::components(staging_root@) == paths::components(
            cask.compatibility_tools_directory@,
        ).push(paths::ComponentView::Normal(app::name_bytes(".wine-cellar-staging"@))),
{
    law_plan_is_what_was_asked_for(start, events);
    law_work_is_done_in_the_prepared_directory(start, events);
    reveal_strlit(".wine-cellar-staging");
    let name = ".wine-cellar-staging"@;
    assert(name.len() > 2);
    app::law_ascii_name_is_plain(name);
    app::law_plain_name_is_added(cask.compatibility_tools_directory@, name);
}

/// While an installation downloads it says so, beginning with nothing; after that it reports
/// the bytes of all pieces that arrived since the start, out of as many as the server said
/// there are.
pub proof fn law_reported_progress_is_real(start: InstallStage, events: Seq<InstallEvent>)
    requires
        start is LookUp,
        can_follow(start, events),
    ensures
        ({
            let stage = after_events(start, events);
            &&& stage is ReportStart <==> stage.report() is Some
            &&& stage is ReportStart ==> stage.report() == Some((OperationState::Downloading, 0u8))
            &&& stage is ReportProgress <==> stage.share() is Some
            &&& stage.share() matches Some((state, taken, total)) ==> {
                &&& state == OperationState::Downloading
                &&& taken == bytes_arrived(events)
                &&& events.len() > 4
                &&& events[4] matches InstallEvent::Responded(
                    DownloadResponse::Answered { status, content_length },
                ) && content_length == Some(total)
            }
        }),
{
    law_size_is_what_the_server_said(start, events);
    if after_events(start, events) is ReportProgress {
        law_bytes_are_counted_from_the_start(start, events);
    }
}

/// How far a stage is from the start.
spec fn rank(stage: InstallStage) -> nat {
    match stage {
        InstallStage::LookUp { .. } => 0,
        InstallStage::ReportStart { .. } => 1,
        InstallStage::PrepareTemp { .. } => 2,
        InstallStage::CreateArchive { .. } => 3,
        InstallStage::SendRequest { .. } => 4,
        InstallStage::FlushArchive { .. } => 6,
        InstallStage::Extract { .. } => 7,
        InstallStage::SyncState { .. } => 8,
        InstallStage::BroadcastState { .. } => 9,
        InstallStage::Notify { .. } => 10,
        InstallStage::CleanUp { .. } => 10,
        InstallStage::Finished => 10,
        _ => 5,
    }
}

proof fn lemma_never_goes_back(start: InstallStage, events: Seq<InstallEvent>)
    requires
        can_follow(start, events),
    ensures
        rank(after_events(start, events)) >= rank(start),
        events.len() == 0 ==> after_events(start, events) == start,
        rank(start) < 5 && events.len() > 0 ==> rank(after_events(start, events)) > rank(start),
    decreases events.len(),
{
    if events.len() > 0 {
        lemma_last_event(start, events);
        lemma_never_goes_back(start, events.drop_last());
    }
}

/// Does `later` have what `earlier` has planned, the directory it works in, the size that the
/// server gave and the staging directory, each where both have one?
pub open spec fn keeps(earlier: InstallStage, later: InstallStage) -> bool {
    &&& plan_of(earlier) is Some && plan_of(later) is Some ==> plan_of(later) == plan_of(earlier)
    &&& job_of(earlier) is Some && job_of(later) is Some ==> job_of(later) == job_of(earlier)
    &&& transfer_of(earlier) is Some && transfer_of(later) is Some ==> transfer_of(later)->0.total
        == transfer_of(earlier)->0.total
    &&& staging_of(earlier) is Some && staging_of(later) is Some ==> staging_of(later)
        == staging_of(earlier)
}

/// The staging directory that a stage holds.
pub open spec fn staging_of(stage: InstallStage) -> Option<Vec<u8>> {
    match stage {
        InstallStage::LookUp { staging_root, .. } => Some(staging_root),
        InstallStage::ReportStart { staging_root, .. } => Some(staging_root),
        InstallStage::PrepareTemp { staging_root, .. } => Some(staging_root),
        _ => None,
    }
}

proof fn lemma_one_event_keeps(stage: InstallStage, event: InstallEvent)
    requires
        stage.awaits(event),
    ensures
        keeps(stage, stage.after(event)),
        rank(stage.after(event)) >= rank(stage),
{
}

proof fn lemma_keeping_goes_on(a: InstallStage, b: InstallStage, c: InstallStage)
    requires
        keeps(a, b),
        keeps(b, c),
        rank(a) <= rank(b) <= rank(c),
    ensures
        keeps(a, c),
{
}

/// Wherever an installation stands, what it has planned, where it works and what the server
/// said stay the same from there on, as long as they matter.
pub proof fn law_plan_and_directory_are_kept(start: InstallStage, events: Seq<InstallEvent>)
    requires
        can_follow(start, events),
    ensures
        keeps(start, after_events(start, events)),
    decreases events.len(),
{
    if events.len() > 0 {
        let prior = events.drop_last();
        lemma_last_event(start, events);
        law_plan_and_directory_are_kept(start, prior);
        lemma_never_goes_back(start, prior);
        lemma_one_event_keeps(after_events(start, prior), events.last());
        lemma_keeping_goes_on(start, after_events(start, prior), after_events(start, events));
    }
}

/// Wherever an installation stands, the directory that is removed at its end is the one that
/// it works in.
pub proof fn law_directory_owed_is_kept(start: InstallStage, events: Seq<InstallEvent>)
    requires
        can_follow(start, events),
    ensures
        ({
            let owed = removals_owed(after_events(start, events));
            removals_owed(start).len() > 0 && owed.len() > 0 ==> owed == removals_owed(start)
        }),
    decreases events.len(),
{
    if events.len() > 0 {
        lemma_last_event(start, events);
        law_directory_owed_is_kept(start, events.drop_last());
        lemma_never_goes_back(start, events.drop_last());
    }
}

} // verus!
