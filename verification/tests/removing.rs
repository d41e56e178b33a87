use wine_cellar::paths::path_lies_within;
use wine_cellar::wine_cask::app::WineCask;
use wine_cellar::wine_cask::flavors::{InstalledTool, InstalledToolSource};
use wine_cellar::wine_cask::removal::{
    prepare_temp_directory, recursive_delete_dir_entry, Listing, PrepareStage, RemovalEvent,
    RemovalStage,
};
use wine_cellar::wine_cask::slot_removal::{
    remove_virtual_tool_directory, DirectoryEvent, DirectoryFailure, DirectoryStage,
    SlotRemovalEvent, SlotRemovalStage,
};
use wine_cellar::wine_cask::uninstall::{UninstallEvent, UninstallStage};
use wine_cellar::wine_cask::virtual_tools::VirtualToolConfig;

fn cask() -> WineCask {
    WineCask {
        compatibility_tools_directory: b"/tools".to_vec(),
        virtual_tool_manifest_path: b"/data/virtual_tools.json".to_vec(),
    }
}

/// The entries of the directories of a small file system.
fn entries_of(path: &[u8]) -> Option<Vec<Vec<u8>>> {
    match path {
        b"/t" => Some(vec![b"/t/a".to_vec(), b"/t/d".to_vec(), b"/t/e".to_vec()]),
        b"/t/d" => Some(vec![b"/t/d/x".to_vec(), b"/t/d/y".to_vec()]),
        b"/t/e" => Some(Vec::new()),
        _ => None,
    }
}

fn delete_all(path: &[u8]) -> Vec<Vec<u8>> {
    let mut removed: Vec<Vec<u8>> = Vec::new();
    let mut stage = recursive_delete_dir_entry(path.to_vec());
    loop {
        let event = match &stage {
            RemovalStage::Inspect { path, .. } => RemovalEvent::Inspected(entries_of(path).is_some()),
            RemovalStage::List { path, .. } => RemovalEvent::Listed(Ok(Listing {
                entries: entries_of(path).expect("a directory"),
                error: None,
            })),
            RemovalStage::RemoveFile { path, .. } => {
                removed.push(path.clone());
                RemovalEvent::FileRemoved(Ok(()))
            }
            RemovalStage::RemoveDirectory { path, .. } => {
                removed.push(path.clone());
                RemovalEvent::DirectoryRemoved(Ok(()))
            }
            RemovalStage::Finished { result } => {
                assert_eq!(*result, Ok(()));
                return removed;
            }
        };
        assert!(stage.expects(&event));
        stage = stage.advance(event);
    }
}

#[test]
fn tree_is_removed_from_its_leaves_up() {
    let expected: Vec<Vec<u8>> = vec![
        b"/t/a".to_vec(),
        b"/t/d/x".to_vec(),
        b"/t/d/y".to_vec(),
        b"/t/d".to_vec(),
        b"/t/e".to_vec(),
        b"/t".to_vec(),
    ];
    assert_eq!(delete_all(b"/t"), expected);
    assert_eq!(delete_all(b"/file"), vec![b"/file".to_vec()]);
}

#[test]
fn nothing_but_the_tree_is_removed() {
    for path in delete_all(b"/t") {
        assert!(path_lies_within(&path, b"/t"));
    }
}

fn removal_result(stage: RemovalStage) -> Result<(), String> {
    match stage {
        RemovalStage::Finished { result } => result,
        _ => panic!("the deletion has not ended"),
    }
}

#[test]
fn first_failure_ends_the_deletion() {
    let stage = recursive_delete_dir_entry(b"/t".to_vec()).advance(RemovalEvent::Inspected(true));
    assert_eq!(
        removal_result(stage.advance(RemovalEvent::Listed(Err("denied".to_string())))),
        Err("denied".to_string())
    );
    let stage = recursive_delete_dir_entry(b"/f".to_vec()).advance(RemovalEvent::Inspected(false));
    assert_eq!(
        removal_result(stage.advance(RemovalEvent::FileRemoved(Err("busy".to_string())))),
        Err("busy".to_string())
    );
}

#[test]
fn entries_before_an_unreadable_one_are_removed_first() {
    let stage = recursive_delete_dir_entry(b"/t".to_vec()).advance(RemovalEvent::Inspected(true));
    let stage = stage.advance(RemovalEvent::Listed(Ok(Listing {
        entries: vec![b"/t/a".to_vec()],
        error: Some("broken".to_string()),
    })));
    match &stage {
        RemovalStage::Inspect { path, .. } => assert_eq!(*path, b"/t/a".to_vec()),
        _ => panic!("nothing is inspected"),
    }
    let stage = stage.advance(RemovalEvent::Inspected(false));
    assert_eq!(
        removal_result(stage.advance(RemovalEvent::FileRemoved(Ok(())))),
        Err("broken".to_string())
    );
}

fn prepared(stage: PrepareStage) -> Option<Vec<u8>> {
    match stage {
        PrepareStage::Finished { temp_directory } => temp_directory,
        _ => panic!("the preparation has not ended"),
    }
}

#[test]
fn old_temp_directory_is_deleted_first() {
    let start = || prepare_temp_directory(b"/tools/staging");
    let temp = b"/tools/staging/temp".to_vec();
    match start().advance(false) {
        PrepareStage::Create { temp_directory } => assert_eq!(temp_directory, temp),
        _ => panic!("nothing is created"),
    }
    match start().advance(true) {
        PrepareStage::DeleteExisting { temp_directory } => assert_eq!(temp_directory, temp),
        _ => panic!("nothing is deleted"),
    }
    assert_eq!(prepared(start().advance(true).advance(false).advance(true)), Some(temp.clone()));
    assert_eq!(prepared(start().advance(false).advance(true)), Some(temp));
    assert_eq!(prepared(start().advance(false).advance(false)), None);
}

fn installed(source: InstalledToolSource, virtual_tool_id: Option<&str>, label: Option<&str>) -> InstalledTool {
    InstalledTool {
        display_name: "Display".to_string(),
        user_label: label.map(|s| s.to_string()),
        path: "/tools/x".to_string(),
        source,
        virtual_tool_id: virtual_tool_id.map(|s| s.to_string()),
    }
}

fn step(stage: UninstallStage, event: UninstallEvent) -> UninstallStage {
    assert!(stage.expects(&event));
    stage.advance(event)
}

fn told(stage: UninstallStage) -> String {
    let message = match &stage {
        UninstallStage::Notify { notice } => notice.message(),
        _ => panic!("nobody is told"),
    };
    assert!(matches!(step(stage, UninstallEvent::Notified), UninstallStage::Finished));
    message
}

fn uninstalling(tool: InstalledTool) -> UninstallStage {
    let stage = cask().uninstall_installed_tool("tool-1".to_string());
    step(stage, UninstallEvent::LookedUp(Some(tool)))
}

fn deleting(tool: InstalledTool) -> UninstallStage {
    let stage = uninstalling(tool);
    match &stage {
        UninstallStage::ResolveBase { base_directory, .. } => {
            assert_eq!(*base_directory, b"/tools".to_vec())
        }
        _ => panic!("nothing is resolved"),
    }
    let stage = step(stage, UninstallEvent::BaseResolved(Ok(b"/tools".to_vec())));
    step(stage, UninstallEvent::TargetResolved(Ok(b"/tools/x".to_vec())))
}

fn direct() -> InstalledTool {
    installed(InstalledToolSource::Direct, None, None)
}

#[test]
fn direct_tool_is_uninstalled() {
    let stage = deleting(direct());
    match &stage {
        UninstallStage::Delete { path, .. } => assert_eq!(*path, b"/tools/x".to_vec()),
        _ => panic!("nothing is deleted"),
    }
    let stage = step(stage, UninstallEvent::Deleted(Ok(())));
    assert!(matches!(stage, UninstallStage::SyncState { .. }));
    let stage = step(stage, UninstallEvent::StateSynced);
    let stage = step(stage, UninstallEvent::StateBroadcast);
    assert_eq!(told(stage), "Removed Display");
}

#[test]
fn virtual_tool_loses_its_slot_too() {
    let tool = installed(InstalledToolSource::Virtual, Some("virtual-1"), Some("Mine"));
    let stage = step(deleting(tool), UninstallEvent::Deleted(Ok(())));
    match &stage {
        UninstallStage::RemoveSlot { virtual_tool_id, .. } => {
            assert_eq!(virtual_tool_id, "virtual-1")
        }
        _ => panic!("the slot is kept"),
    }
    let stage = step(stage, UninstallEvent::SlotRemoved(Ok("Mine".to_string())));
    let stage = step(stage, UninstallEvent::StateSynced);
    let stage = step(stage, UninstallEvent::StateBroadcast);
    assert_eq!(told(stage), "Removed Mine");

    let tool = installed(InstalledToolSource::Virtual, Some("virtual-1"), None);
    let stage = step(deleting(tool), UninstallEvent::Deleted(Ok(())));
    assert_eq!(
        told(step(stage, UninstallEvent::SlotRemoved(Err("full".to_string())))),
        "Compatibility tool directory removed but virtual tool manifest update failed: full"
    );

    let tool = installed(InstalledToolSource::Virtual, None, None);
    let stage = step(deleting(tool), UninstallEvent::Deleted(Ok(())));
    assert!(matches!(stage, UninstallStage::SyncState { .. }));
}

#[test]
fn path_outside_the_tools_is_not_deleted() {
    for path in ["/home", "/tools-old/x", "/"] {
        let stage = step(uninstalling(direct()), UninstallEvent::BaseResolved(Ok(b"/tools".to_vec())));
        let stage = step(stage, UninstallEvent::TargetResolved(Ok(path.as_bytes().to_vec())));
        assert_eq!(told(stage), "Refusing to uninstall path outside compatibilitytools.d");
    }
}

#[test]
fn failed_uninstallations_are_reported() {
    let error = || "denied".to_string();
    let lookup = cask().uninstall_installed_tool("tool-1".to_string());
    assert_eq!(
        told(step(lookup, UninstallEvent::LookedUp(None))),
        "Installed tool not found"
    );
    assert_eq!(
        told(step(uninstalling(direct()), UninstallEvent::BaseResolved(Err(error())))),
        "Failed to access compatibility tools base directory: denied"
    );
    let stage = step(uninstalling(direct()), UninstallEvent::BaseResolved(Ok(b"/tools".to_vec())));
    assert_eq!(
        told(step(stage, UninstallEvent::TargetResolved(Err(error())))),
        "Failed to access uninstall path: denied"
    );
    assert_eq!(
        told(step(deleting(direct()), UninstallEvent::Deleted(Err(error())))),
        "Error during uninstallation: denied"
    );
}

fn directory_step(stage: DirectoryStage, event: DirectoryEvent) -> DirectoryStage {
    assert!(stage.expects(&event));
    stage.advance(event)
}

fn directory_removal() -> DirectoryStage {
    remove_virtual_tool_directory(b"/tools".to_vec(), b"/tools/v".to_vec())
}

fn directory_error(stage: DirectoryStage) -> String {
    match stage {
        DirectoryStage::Finished { result: Err(failure) } => failure.message(),
        _ => panic!("the removal has not failed"),
    }
}

#[test]
fn directory_of_a_virtual_tool_is_removed_within_the_tools() {
    let absent = directory_step(
        directory_removal(),
        DirectoryEvent::ExistenceChecked(false),
    );
    assert!(matches!(absent, DirectoryStage::Finished { result: Ok(()) }));

    let resolve_base = || {
        directory_step(
            directory_removal(),
            DirectoryEvent::ExistenceChecked(true),
        )
    };
    let resolve_target = || {
        directory_step(
            resolve_base(),
            DirectoryEvent::BaseResolved(Ok(b"/tools".to_vec())),
        )
    };
    let inside = directory_step(
        resolve_target(),
        DirectoryEvent::TargetResolved(Ok(b"/tools/v".to_vec())),
    );
    match &inside {
        DirectoryStage::Delete { path } => assert_eq!(*path, b"/tools/v".to_vec()),
        _ => panic!("nothing is deleted"),
    }
    assert_eq!(
        directory_error(directory_step(inside, DirectoryEvent::Deleted(Err("busy".to_string())))),
        "Error removing virtual compatibility tool: busy"
    );
    assert_eq!(
        directory_error(directory_step(
            resolve_target(),
            DirectoryEvent::TargetResolved(Ok(b"/etc".to_vec()))
        )),
        "Refusing to remove path outside compatibilitytools.d"
    );
    assert_eq!(
        directory_error(directory_step(
            resolve_target(),
            DirectoryEvent::TargetResolved(Err("denied".to_string()))
        )),
        "Failed to access virtual tool directory: denied"
    );
    assert_eq!(
        directory_error(directory_step(
            resolve_base(),
            DirectoryEvent::BaseResolved(Err("denied".to_string()))
        )),
        "Failed to access compatibility tools base directory: denied"
    );
}

fn slot_step(stage: SlotRemovalStage, event: SlotRemovalEvent) -> SlotRemovalStage {
    assert!(stage.expects(&event));
    stage.advance(event)
}

fn slot_told(stage: SlotRemovalStage) -> String {
    let message = match &stage {
        SlotRemovalStage::Notify { notice } => notice.message(),
        _ => panic!("nobody is told"),
    };
    assert!(matches!(
        slot_step(stage, SlotRemovalEvent::Notified),
        SlotRemovalStage::Finished
    ));
    message
}

fn virtual_tool() -> VirtualToolConfig {
    VirtualToolConfig {
        id: "virtual-1".to_string(),
        user_label: "Mine".to_string(),
        steam_internal_name: "WineCellarVirtual1".to_string(),
        directory_name: "Directory1".to_string(),
        current_payload_release_id: None,
    }
}

fn slot_removal() -> SlotRemovalStage {
    slot_step(
        cask().remove_virtual_tool("virtual-1".to_string()),
        SlotRemovalEvent::LookedUp(Some(virtual_tool())),
    )
}

#[test]
fn directory_of_the_tool_is_removed() {
    match cask().directory_removal(&virtual_tool()) {
        DirectoryStage::CheckExisting { base_directory, tool_directory } => {
            assert_eq!(base_directory, b"/tools".to_vec());
            assert_eq!(tool_directory, b"/tools/Directory1".to_vec());
        }
        _ => panic!("nothing is checked"),
    }
}

#[test]
fn virtual_tool_is_removed_with_its_directory() {
    let stage = slot_step(slot_removal(), SlotRemovalEvent::DirectoryRemoved(Ok(())));
    match &stage {
        SlotRemovalStage::RemoveSlot { virtual_tool_id, .. } => {
            assert_eq!(virtual_tool_id, "virtual-1")
        }
        _ => panic!("the slot is kept"),
    }
    let stage = slot_step(stage, SlotRemovalEvent::SlotRemoved(Ok("Mine".to_string())));
    let stage = slot_step(stage, SlotRemovalEvent::StateSynced);
    let stage = slot_step(stage, SlotRemovalEvent::StateBroadcast);
    assert_eq!(slot_told(stage), "Removed virtual compatibility tool: Mine");
}

#[test]
fn slot_outlives_a_directory_that_cannot_be_removed() {
    assert_eq!(
        slot_told(slot_step(
            slot_removal(),
            SlotRemovalEvent::DirectoryRemoved(Err(DirectoryFailure::OutsideTools))
        )),
        "Refusing to remove path outside compatibilitytools.d"
    );
    let stage = slot_step(slot_removal(), SlotRemovalEvent::DirectoryRemoved(Ok(())));
    assert_eq!(
        slot_told(slot_step(stage, SlotRemovalEvent::SlotRemoved(Err("full".to_string())))),
        "Compatibility tool directory removed but virtual tool manifest update failed: full"
    );
    assert_eq!(
        slot_told(slot_step(
            cask().remove_virtual_tool("virtual-1".to_string()),
            SlotRemovalEvent::LookedUp(None)
        )),
        "Virtual tool not found"
    );
}
