use wine_cellar::wine_cask::app::{Command, InstallTarget, OperationState};
use wine_cellar::wine_cask::queue::{process_queue, QueueEvent, QueueStage, QueueTask};

fn step(stage: QueueStage, event: QueueEvent) -> QueueStage {
    assert!(stage.expects(&event));
    stage.advance(event)
}

fn begin(command: Command) -> QueueStage {
    let stage = step(process_queue(), QueueEvent::FlavorsChecked);
    assert!(matches!(stage, QueueStage::BeginNext));
    step(stage, QueueEvent::Began(Some(command)))
}

fn completes(stage: QueueStage) {
    assert!(matches!(stage, QueueStage::Complete));
    let stage = step(stage, QueueEvent::Completed);
    assert!(matches!(stage, QueueStage::ReclaimMemory));
    assert!(matches!(step(stage, QueueEvent::MemoryReclaimed), QueueStage::BeginNext));
}

#[test]
fn empty_queue_is_waited_for() {
    assert_eq!(process_queue().forces_update_check(), Some(false));
    assert_eq!(process_queue().reported(), None);
    let stage = step(process_queue(), QueueEvent::FlavorsChecked);
    let stage = step(stage, QueueEvent::Began(None));
    assert!(matches!(stage, QueueStage::Wait));
    assert_eq!(stage.forces_update_check(), None);
    assert!(matches!(step(stage, QueueEvent::Woken), QueueStage::BeginNext));
}

#[test]
fn installation_reports_its_own_progress() {
    let stage = begin(Command::InstallCatalogRelease {
        release_id: "r".to_string(),
        target: InstallTarget::Direct,
    });
    match &stage {
        QueueStage::Run { task: QueueTask::Install { release_id, .. } } => {
            assert_eq!(release_id, "r")
        }
        _ => panic!("nothing is installed"),
    }
    completes(step(stage, QueueEvent::Ended));
}

#[test]
fn other_commands_run_once_they_are_reported() {
    for command in [
        Command::UninstallInstalledTool { installed_tool_id: "t".to_string() },
        Command::RemoveVirtualTool { virtual_tool_id: "v".to_string() },
    ] {
        let stage = begin(command);
        assert!(matches!(stage, QueueStage::ReportRunning { .. }));
        assert_eq!(stage.reported(), Some((OperationState::Running, 0)));
        let stage = step(stage, QueueEvent::Reported);
        assert!(matches!(stage, QueueStage::Run { .. }));
        assert!(!stage.expects(&QueueEvent::SlotChanged(Ok(String::new()))));
        completes(step(stage, QueueEvent::Ended));
    }
}

#[test]
fn commands_without_work_are_completed_at_once() {
    completes(begin(Command::RefreshCatalog));
    completes(begin(Command::CancelOperation));
}

fn changed(command: Command) -> String {
    let stage = step(begin(command), QueueEvent::Reported);
    assert!(!stage.expects(&QueueEvent::Ended));
    let stage = step(stage, QueueEvent::SlotChanged(Ok("Mine".to_string())));
    let stage = step(stage, QueueEvent::StateSynced);
    let stage = step(stage, QueueEvent::StateBroadcast);
    let message = match &stage {
        QueueStage::Notify { notice } => notice.message(),
        _ => panic!("nobody is told"),
    };
    completes(step(stage, QueueEvent::Notified));
    message
}

#[test]
fn changed_slots_are_shown_and_announced() {
    assert_eq!(
        changed(Command::CreateVirtualTool { user_label: "Mine".to_string() }),
        "Created virtual compatibility tool: Mine"
    );
    assert_eq!(
        changed(Command::RenameVirtualTool {
            virtual_tool_id: "v".to_string(),
            user_label: "Mine".to_string()
        }),
        "Renamed virtual compatibility tool to Mine"
    );
}

#[test]
fn failed_slot_change_is_only_reported() {
    let stage = begin(Command::CreateVirtualTool { user_label: " ".to_string() });
    let stage = step(stage, QueueEvent::Reported);
    let error = "Virtual tool name cannot be empty".to_string();
    let stage = step(stage, QueueEvent::SlotChanged(Err(error.clone())));
    match &stage {
        QueueStage::Notify { notice } => assert_eq!(notice.message(), error),
        _ => panic!("nobody is told"),
    }
    completes(step(stage, QueueEvent::Notified));
}
