use wine_cellar::wine_cask::app::WineCask;
use wine_cellar::wine_cask::generate_compatibility_tool_vdf;
use wine_cellar::wine_cask::virtual_tools::{
    normalize_virtual_tool_label, ManifestRead, RenameProgress, RenameStage, SaveEvent,
    SaveFailure, SaveStage, SlotProgress, SlotStage, VirtualToolConfig, VirtualToolManifest,
};

fn cask() -> WineCask {
    WineCask {
        compatibility_tools_directory: b"/tools".to_vec(),
        virtual_tool_manifest_path: b"/data/virtual_tools.json".to_vec(),
    }
}

fn tool(number: u64, label: &str) -> VirtualToolConfig {
    VirtualToolConfig {
        id: format!("virtual-{}", number),
        user_label: label.to_string(),
        steam_internal_name: format!("WineCellarVirtual{}", number),
        directory_name: format!("WineCellarVirtual{}", number),
        current_payload_release_id: None,
    }
}

fn manifest() -> VirtualToolManifest {
    VirtualToolManifest {
        next_virtual_tool_number: 4,
        tools: vec![tool(1, "one"), tool(3, "three")],
    }
}

fn saves(stage: SaveStage, record: &VirtualToolManifest) {
    match stage {
        SaveStage::PrepareDirectory { manifest, .. } => {
            assert_eq!(manifest.next_virtual_tool_number, record.next_virtual_tool_number);
            assert_eq!(ids(&manifest), ids(record));
            for (a, b) in manifest.tools.iter().zip(record.tools.iter()) {
                assert_eq!(a.user_label, b.user_label);
                assert_eq!(a.current_payload_release_id, b.current_payload_release_id);
            }
        }
        _ => panic!("nothing is saved"),
    }
}

fn removed(record: &mut VirtualToolManifest, id: &str) -> Result<String, String> {
    let slot = cask().remove_virtual_tool_slot(record, id)?;
    saves(slot.save, record);
    Ok(slot.label)
}

fn updated(
    record: &mut VirtualToolManifest,
    id: &str,
    release_id: Option<String>,
) -> Result<(), String> {
    let save = cask().update_virtual_tool_payload(record, id, release_id)?;
    saves(save, record);
    Ok(())
}

fn ids(manifest: &VirtualToolManifest) -> Vec<String> {
    manifest.tools.iter().map(|tool| tool.id.clone()).collect()
}

#[test]
fn labels_are_trimmed_and_checked() {
    assert_eq!(normalize_virtual_tool_label("  My tool\n"), Ok("My tool".to_string()));
    assert_eq!(
        normalize_virtual_tool_label(" \t "),
        Err("Virtual tool name cannot be empty".to_string())
    );
    assert_eq!(
        normalize_virtual_tool_label("a\tb"),
        Err("Virtual tool name cannot contain control characters".to_string())
    );
    let longest = "\u{e9}".repeat(64);
    assert_eq!(normalize_virtual_tool_label(&longest), Ok(longest.clone()));
    assert_eq!(
        normalize_virtual_tool_label(&"x".repeat(65)),
        Err("Virtual tool name must be 64 characters or fewer".to_string())
    );
    let too_long_with_control = format!("{}\u{7}", "x".repeat(70));
    assert_eq!(
        normalize_virtual_tool_label(&too_long_with_control),
        Err("Virtual tool name must be 64 characters or fewer".to_string())
    );
}

#[test]
fn accepted_label_is_accepted_again() {
    let label = normalize_virtual_tool_label(" name ").expect("a label");
    assert_eq!(normalize_virtual_tool_label(&label), Ok(label.clone()));
}

#[test]
fn identities_are_numbered() {
    let mut fresh = VirtualToolManifest::default();
    assert_eq!(
        fresh.next_tool_identity(),
        (
            "virtual-1".to_string(),
            "WineCellarVirtual1".to_string(),
            "WineCellarVirtual1".to_string()
        )
    );
    assert_eq!(fresh.next_virtual_tool_number, 2);
    let (id, internal, directory) = fresh.next_tool_identity();
    assert_eq!(id, "virtual-2");
    assert_eq!(internal, directory);
}

#[test]
fn vdf_describes_the_tool() {
    let expected = r#""compatibilitytools"
            {
              "compat_tools"
              {
                "Inner"
                {
                  "install_path" "."
                  "display_name" "Shown name"
                  "from_oslist"  "windows"
                  "to_oslist"    "linux"
                }
              }
            }
"#;
    assert_eq!(generate_compatibility_tool_vdf("Inner", "Shown name"), expected);
}

#[test]
fn unusable_manifest_files_stand_for_an_empty_manifest() {
    for read in [ManifestRead::Missing, ManifestRead::Unreadable, ManifestRead::Malformed] {
        let loaded = cask().load_virtual_tool_manifest(read);
        assert_eq!(loaded.next_virtual_tool_number, 1);
        assert!(loaded.tools.is_empty());
    }
}

#[test]
fn manifest_without_a_number_continues_after_its_tools() {
    let mut saved = manifest();
    saved.next_virtual_tool_number = 0;
    let loaded = cask().load_virtual_tool_manifest(ManifestRead::Parsed(saved));
    assert_eq!(loaded.next_virtual_tool_number, 3);
    let kept = cask().load_virtual_tool_manifest(ManifestRead::Parsed(manifest()));
    assert_eq!(kept.next_virtual_tool_number, 4);
    assert_eq!(ids(&kept), vec!["virtual-1", "virtual-3"]);
}

#[test]
fn new_slot_is_recorded_and_described() {
    let mut record = manifest();
    let slot = cask()
        .create_virtual_tool_slot(&mut record, "  Fresh ")
        .ok()
        .expect("a slot");
    assert_eq!(slot.label, "Fresh");
    assert_eq!(slot.tool_directory, b"/tools/WineCellarVirtual4".to_vec());
    assert_eq!(slot.vdf_file, b"/tools/WineCellarVirtual4/compatibilitytool.vdf".to_vec());
    assert_eq!(slot.vdf, generate_compatibility_tool_vdf("WineCellarVirtual4", "Fresh"));
    saves(slot.save, &record);
    assert_eq!(record.next_virtual_tool_number, 5);
    assert_eq!(ids(&record), vec!["virtual-1", "virtual-3", "virtual-4"]);
    assert_eq!(record.position("virtual-4"), Some(2));
    assert!(record.tools[2].current_payload_release_id.is_none());
}

#[test]
fn refused_label_creates_nothing() {
    let mut record = manifest();
    let error = cask().create_virtual_tool_slot(&mut record, "").err();
    assert_eq!(error, Some("Virtual tool name cannot be empty".to_string()));
    assert_eq!(record.next_virtual_tool_number, 4);
    assert_eq!(record.tools.len(), 2);
}

#[test]
fn renamed_slot_keeps_its_identity() {
    let mut record = manifest();
    let slot = cask()
        .rename_virtual_tool_slot(&mut record, "virtual-3", " Third ")
        .ok()
        .expect("a slot");
    assert_eq!(slot.label, "Third");
    assert_eq!(slot.tool_directory, b"/tools/WineCellarVirtual3".to_vec());
    assert_eq!(slot.vdf_file, b"/tools/WineCellarVirtual3/compatibilitytool.vdf".to_vec());
    assert_eq!(slot.vdf, generate_compatibility_tool_vdf("WineCellarVirtual3", "Third"));
    saves(slot.save, &record);
    assert_eq!(record.tools[1].user_label, "Third");
    assert_eq!(record.tools[1].steam_internal_name, "WineCellarVirtual3");
    assert_eq!(record.tools[0].user_label, "one");
    assert_eq!(record.position("virtual-3"), Some(1));
}

#[test]
fn renaming_reports_a_bad_label_before_a_missing_slot() {
    let mut record = manifest();
    assert_eq!(
        cask().rename_virtual_tool_slot(&mut record, "virtual-9", "x").err(),
        Some("Virtual tool not found".to_string())
    );
    assert_eq!(
        cask().rename_virtual_tool_slot(&mut record, "virtual-9", " ").err(),
        Some("Virtual tool name cannot be empty".to_string())
    );
}

#[test]
fn payload_is_recorded() {
    let mut record = manifest();
    assert_eq!(
        updated(&mut record, "virtual-1", Some("r1".to_string())),
        Ok(())
    );
    assert_eq!(record.tools[0].current_payload_release_id, Some("r1".to_string()));
    assert_eq!(record.tools[0].user_label, "one");
    assert_eq!(updated(&mut record, "virtual-1", None), Ok(()));
    assert_eq!(record.tools[0].current_payload_release_id, None);
    assert_eq!(
        updated(&mut record, "nothing", None),
        Err("Virtual tool not found".to_string())
    );
}

#[test]
fn removed_slot_is_gone_and_its_number_is_not_used_again() {
    let mut record = manifest();
    assert_eq!(
        removed(&mut record, "virtual-3"),
        Ok("three".to_string())
    );
    assert_eq!(ids(&record), vec!["virtual-1"]);
    assert_eq!(record.position("virtual-3"), None);
    assert_eq!(
        removed(&mut record, "virtual-3"),
        Err("Virtual tool not found".to_string())
    );
    let created = cask().create_virtual_tool_slot(&mut record, "again");
    assert!(created.is_ok());
    assert_eq!(ids(&record), vec!["virtual-1", "virtual-4"]);
}

#[test]
fn first_of_two_tools_with_one_id_is_found() {
    let record = VirtualToolManifest {
        next_virtual_tool_number: 2,
        tools: vec![tool(1, "a"), tool(1, "b")],
    };
    assert_eq!(record.position("virtual-1"), Some(0));
}

#[test]
fn slot_creation_rolls_back_once_the_directory_exists() {
    assert!(matches!(
        SlotStage::CreateDirectory.finish(Ok(())),
        SlotProgress::Continue(SlotStage::WriteVdf)
    ));
    assert!(matches!(
        SlotStage::WriteVdf.finish(Ok(())),
        SlotProgress::Continue(SlotStage::SaveManifest)
    ));
    assert!(matches!(SlotStage::SaveManifest.finish(Ok(())), SlotProgress::Created));
    let cases = [
        (SlotStage::CreateDirectory, false, "Failed to create virtual tool directory: full"),
        (SlotStage::WriteVdf, true, "Failed to write virtual tool VDF: full"),
        (SlotStage::SaveManifest, true, "full"),
    ];
    for (stage, expected, message) in cases {
        match stage.finish(Err("full".to_string())) {
            SlotProgress::Failed { roll_back, error } => {
                assert_eq!(roll_back, expected);
                assert_eq!(error, message);
            }
            _ => panic!("the stage has not failed"),
        }
    }
}

#[test]
fn renaming_stands_once_it_is_saved() {
    assert!(matches!(
        RenameStage::SaveManifest.finish(Ok(())),
        RenameProgress::Continue(RenameStage::RewriteVdf)
    ));
    match RenameStage::SaveManifest.finish(Err("full".to_string())) {
        RenameProgress::Failed { error } => assert_eq!(error, "full"),
        _ => panic!("the slot is renamed"),
    }
    assert!(matches!(RenameStage::RewriteVdf.finish(Ok(())), RenameProgress::Renamed));
    assert!(matches!(
        RenameStage::RewriteVdf.finish(Err("full".to_string())),
        RenameProgress::Renamed
    ));
}

fn save_after(successes: usize) -> SaveStage {
    let mut stage = cask().save_virtual_tool_manifest(&manifest());
    for _ in 0..successes {
        let event = outcome_of(&stage, Ok("text".to_string()));
        assert!(stage.expects(&event));
        stage = stage.advance(event);
    }
    stage
}

fn outcome_of(stage: &SaveStage, outcome: Result<String, String>) -> SaveEvent {
    let plain = outcome.clone().map(|_| ());
    match stage {
        SaveStage::PrepareDirectory { .. } => SaveEvent::DirectoryPrepared(plain),
        SaveStage::Serialize { .. } => SaveEvent::Serialized(outcome),
        SaveStage::CreateTempFile { .. } => SaveEvent::TempFileCreated(plain),
        SaveStage::WriteTempFile { .. } => SaveEvent::TempFileWritten(plain),
        SaveStage::FlushTempFile { .. } => SaveEvent::TempFileFlushed(plain),
        SaveStage::ReplaceManifest { .. } => SaveEvent::ManifestReplaced(plain),
        SaveStage::Finished { .. } => panic!("the save has ended"),
    }
}

#[test]
fn manifest_is_written_beside_itself_and_replaced_last() {
    match save_after(0) {
        SaveStage::PrepareDirectory { directory, temp_file, manifest_file, .. } => {
            assert_eq!(directory, b"/data".to_vec());
            assert_eq!(temp_file, b"/data/virtual_tools.json.tmp".to_vec());
            assert_eq!(manifest_file, b"/data/virtual_tools.json".to_vec());
        }
        _ => panic!("no directory is prepared"),
    }
    match save_after(1) {
        SaveStage::Serialize { manifest: saved, .. } => {
            assert_eq!(saved.next_virtual_tool_number, 4);
            assert_eq!(ids(&saved), ids(&manifest()));
            assert_eq!(saved.tools[1].user_label, "three");
        }
        _ => panic!("nothing is serialized"),
    }
    assert!(matches!(save_after(2), SaveStage::CreateTempFile { .. }));
    match save_after(3) {
        SaveStage::WriteTempFile { text, temp_file, .. } => {
            assert_eq!(text, "text");
            assert_eq!(temp_file, b"/data/virtual_tools.json.tmp".to_vec());
        }
        _ => panic!("nothing is written"),
    }
    assert!(matches!(save_after(4), SaveStage::FlushTempFile { .. }));
    match save_after(5) {
        SaveStage::ReplaceManifest { temp_file, manifest_file } => {
            assert_eq!(temp_file, b"/data/virtual_tools.json.tmp".to_vec());
            assert_eq!(manifest_file, b"/data/virtual_tools.json".to_vec());
        }
        _ => panic!("nothing is replaced"),
    }
    assert!(matches!(save_after(6), SaveStage::Finished { result: Ok(()) }));
}

#[test]
fn failed_save_names_its_stage() {
    let messages = [
        "Failed to prepare virtual tool manifest directory: e",
        "Failed to serialize virtual tool manifest: e",
        "Failed to create virtual tool manifest temp file: e",
        "Failed to write virtual tool manifest temp file: e",
        "Failed to flush virtual tool manifest temp file: e",
        "Failed to persist virtual tool manifest: e",
    ];
    for (successes, message) in messages.iter().enumerate() {
        let stage = save_after(successes);
        let event = outcome_of(&stage, Err("e".to_string()));
        assert!(stage.expects(&event));
        match stage.advance(event) {
            SaveStage::Finished { result: Err(failure) } => {
                assert_eq!(failure.message(), *message)
            }
            _ => panic!("the manifest is saved"),
        }
    }
}

#[test]
fn manifest_needs_a_directory() {
    let cask = WineCask {
        compatibility_tools_directory: b"/tools".to_vec(),
        virtual_tool_manifest_path: b"/".to_vec(),
    };
    match cask.save_virtual_tool_manifest(&manifest()) {
        SaveStage::Finished { result: Err(failure) } => {
            assert!(matches!(failure, SaveFailure::NoParent));
            assert_eq!(failure.message(), "Failed to resolve virtual tool manifest parent");
        }
        _ => panic!("the manifest is saved"),
    }
}

#[test]
fn created_slot_can_be_removed_again() {
    let mut record = manifest();
    assert!(cask().create_virtual_tool_slot(&mut record, "new").is_ok());
    assert_eq!(
        removed(&mut record, "virtual-4"),
        Ok("new".to_string())
    );
    assert_eq!(ids(&record), ids(&manifest()));
}

#[test]
fn last_label_counts() {
    let mut record = manifest();
    for label in ["a", "b", "one"] {
        assert!(cask().rename_virtual_tool_slot(&mut record, "virtual-1", label).is_ok());
        assert_eq!(record.tools[0].user_label, label);
    }
}

#[test]
fn second_tool_with_one_id_is_found_after_the_first_is_removed() {
    let mut record = VirtualToolManifest {
        next_virtual_tool_number: 2,
        tools: vec![tool(1, "a"), tool(2, "b"), tool(1, "c")],
    };
    assert_eq!(
        removed(&mut record, "virtual-1"),
        Ok("a".to_string())
    );
    assert_eq!(
        removed(&mut record, "virtual-1"),
        Ok("c".to_string())
    );
    assert_eq!(
        removed(&mut record, "virtual-1"),
        Err("Virtual tool not found".to_string())
    );
    assert_eq!(ids(&record), vec!["virtual-2"]);
}

#[test]
fn manifest_with_a_number_is_loaded_unchanged() {
    let loaded = cask().load_virtual_tool_manifest(ManifestRead::Parsed(manifest()));
    assert_eq!(loaded.next_virtual_tool_number, manifest().next_virtual_tool_number);
    assert_eq!(loaded.tools.len(), manifest().tools.len());
    for (a, b) in loaded.tools.iter().zip(manifest().tools.iter()) {
        assert_eq!(a.id, b.id);
        assert_eq!(a.user_label, b.user_label);
        assert_eq!(a.steam_internal_name, b.steam_internal_name);
        assert_eq!(a.directory_name, b.directory_name);
        assert_eq!(a.current_payload_release_id, b.current_payload_release_id);
    }
}

#[test]
fn save_replaces_the_file_or_leaves_it() {
    for failing in 0..7 {
        let mut disk: Vec<(Vec<u8>, String)> =
            vec![(b"/data/virtual_tools.json".to_vec(), "old".to_string())];
        let mut stage = cask().save_virtual_tool_manifest(&manifest());
        let mut done: usize = 0;
        let result = loop {
            if let SaveStage::Finished { result } = stage {
                break result;
            }
            let event = if done == failing {
                outcome_of(&stage, Err("e".to_string()))
            } else {
                match &stage {
                    SaveStage::CreateTempFile { temp_file, .. } => {
                        disk.push((temp_file.clone(), String::new()))
                    }
                    SaveStage::WriteTempFile { text, temp_file, .. } => {
                        disk.retain(|file| file.0 != *temp_file);
                        disk.push((temp_file.clone(), text.clone()));
                    }
                    SaveStage::ReplaceManifest { temp_file, manifest_file } => {
                        disk.retain(|file| file.0 != *manifest_file);
                        for file in disk.iter_mut() {
                            if file.0 == *temp_file {
                                file.0 = manifest_file.clone();
                            }
                        }
                    }
                    _ => {}
                }
                outcome_of(&stage, Ok("new".to_string()))
            };
            done += 1;
            stage = stage.advance(event);
        };
        disk.retain(|file| file.0 != b"/data/virtual_tools.json.tmp".to_vec() || result.is_ok());
        let contents = if failing == 6 { "new" } else { "old" };
        assert_eq!(result.is_ok(), failing == 6);
        assert_eq!(
            disk,
            vec![(b"/data/virtual_tools.json".to_vec(), contents.to_string())]
        );
    }
}
