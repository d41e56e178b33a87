use wine_cellar::github_util::Release;
use wine_cellar::wine_cask::app::WineCask;
use wine_cellar::wine_cask::direct::{direct_folder_name, direct_vdf, DirectEvent, DirectStage};
use wine_cellar::wine_cask::flavors::{CatalogRelease, CompatibilityToolFlavor};
use wine_cellar::wine_cask::generate_compatibility_tool_vdf;
use wine_cellar::wine_cask::mount::{install_virtual_tool, MountEvent, MountStage};
use wine_cellar::wine_cask::virtual_tools::{VirtualToolConfig, VirtualToolManifest};

const EXTRACTED: &str = "/temp/extracted";

fn cask() -> WineCask {
    WineCask {
        compatibility_tools_directory: b"/tools".to_vec(),
        virtual_tool_manifest_path: b"/data/virtual_tools.json".to_vec(),
    }
}

fn release(flavor: CompatibilityToolFlavor) -> CatalogRelease {
    CatalogRelease {
        id: "r1".to_string(),
        flavor,
        flavor_name: "Boxtron".to_string(),
        release: Release {
            url: String::new(),
            id: 1,
            draft: false,
            prerelease: false,
            name: String::new(),
            tag_name: "v0.5".to_string(),
            assets: Vec::new(),
            created_at: String::new(),
            published_at: String::new(),
            tarball_url: String::new(),
            body: String::new(),
        },
    }
}

fn start(extracted: &str, flavor: CompatibilityToolFlavor) -> DirectStage {
    cask().install_direct_tool(extracted.as_bytes(), &release(flavor))
}

fn step(stage: DirectStage, flavor: CompatibilityToolFlavor, event: DirectEvent) -> DirectStage {
    step_from(EXTRACTED, stage, flavor, event)
}

fn step_from(
    extracted: &str,
    stage: DirectStage,
    flavor: CompatibilityToolFlavor,
    event: DirectEvent,
) -> DirectStage {
    assert!(stage.expects(&event));
    stage.advance(&cask(), extracted.as_bytes(), &release(flavor), event)
}

fn message(stage: DirectStage) -> String {
    match stage {
        DirectStage::Finished { result: Ok(success) } => success.message(),
        DirectStage::Finished { result: Err(failure) } => failure.message(),
        _ => panic!("the installation has not ended"),
    }
}

#[test]
fn proton_keeps_its_directory() {
    for flavor in [CompatibilityToolFlavor::ProtonGE, CompatibilityToolFlavor::ProtonCachyOS] {
        let stage = start(EXTRACTED, flavor);
        match &stage {
            DirectStage::CheckTarget { source, target } => {
                assert_eq!(*source, EXTRACTED.as_bytes().to_vec());
                assert_eq!(*target, b"/tools/extracted".to_vec());
            }
            _ => panic!("nothing is checked"),
        }
        let stage = step(stage, flavor, DirectEvent::TargetChecked(None));
        match &stage {
            DirectStage::Move { from, to } => {
                assert_eq!(*from, EXTRACTED.as_bytes().to_vec());
                assert_eq!(*to, b"/tools/extracted".to_vec());
            }
            _ => panic!("nothing is moved"),
        }
        assert_eq!(
            message(step(stage, flavor, DirectEvent::Moved(Ok(())))),
            "Installation completed: v0.5"
        );
    }
}

#[test]
fn other_tools_are_renamed_and_described() {
    for flavor in [
        CompatibilityToolFlavor::SteamTinkerLaunch,
        CompatibilityToolFlavor::Luxtorpeda,
        CompatibilityToolFlavor::Boxtron,
    ] {
        let stage = start(EXTRACTED, flavor);
        match &stage {
            DirectStage::WriteVdf { file, text } => {
                assert_eq!(*file, b"/temp/extracted/compatibilitytool.vdf".to_vec());
                assert_eq!(
                    *text,
                    generate_compatibility_tool_vdf("Boxtronv0.5", "Boxtron v0.5")
                );
            }
            _ => panic!("nothing is written"),
        }
        let stage = step(stage, flavor, DirectEvent::VdfWritten);
        match &stage {
            DirectStage::RenameLayout { from, to } => {
                assert_eq!(*from, EXTRACTED.as_bytes().to_vec());
                assert_eq!(*to, b"/temp/Boxtronv0.5".to_vec());
            }
            _ => panic!("nothing is renamed"),
        }
        let stage = step(stage, flavor, DirectEvent::LayoutRenamed(Ok(())));
        match &stage {
            DirectStage::CheckTarget { source, target } => {
                assert_eq!(*source, b"/temp/Boxtronv0.5".to_vec());
                assert_eq!(*target, b"/tools/Boxtronv0.5".to_vec());
            }
            _ => panic!("nothing is checked"),
        }
    }
    let boxtron = release(CompatibilityToolFlavor::Boxtron);
    assert_eq!(direct_folder_name(&boxtron), "Boxtronv0.5");
    assert_eq!(
        direct_vdf(&boxtron),
        generate_compatibility_tool_vdf("Boxtronv0.5", "Boxtron v0.5")
    );
}

#[test]
fn directory_with_the_right_name_is_not_renamed() {
    let flavor = CompatibilityToolFlavor::Boxtron;
    let extracted = "/temp/./Boxtronv0.5/";
    let stage = step_from(extracted, start(extracted, flavor), flavor, DirectEvent::VdfWritten);
    match stage {
        DirectStage::CheckTarget { source, target } => {
            assert_eq!(source, b"/temp/Boxtronv0.5".to_vec());
            assert_eq!(target, b"/tools/Boxtronv0.5".to_vec());
        }
        _ => panic!("nothing is checked"),
    }
}

#[test]
fn unknown_flavor_is_not_installed() {
    let flavor = CompatibilityToolFlavor::Unknown;
    assert_eq!(message(start(EXTRACTED, flavor)), "Unsupported compatibility tool flavor");
    assert_eq!(
        message(start("/", flavor)),
        "Missing temporary extraction parent directory"
    );
}

#[test]
fn installed_tool_is_not_replaced() {
    let flavor = CompatibilityToolFlavor::ProtonGE;
    assert_eq!(
        message(step(
            start(EXTRACTED, flavor),
            flavor,
            DirectEvent::TargetChecked(Some("/tools/extracted".to_string()))
        )),
        "Compatibility tool directory already exists: /tools/extracted"
    );
}

#[test]
fn failed_moves_are_reported() {
    let flavor = CompatibilityToolFlavor::Boxtron;
    let renaming = step(start(EXTRACTED, flavor), flavor, DirectEvent::VdfWritten);
    assert_eq!(
        message(step(
            renaming,
            flavor,
            DirectEvent::LayoutRenamed(Err("busy".to_string()))
        )),
        "Failed to prepare compatibility tool layout: busy"
    );
    let proton = CompatibilityToolFlavor::ProtonGE;
    assert_eq!(
        message(start("/temp/..", proton)),
        "Failed to resolve extracted compatibility tool name"
    );
    let moving = step(start(EXTRACTED, proton), proton, DirectEvent::TargetChecked(None));
    assert_eq!(
        message(step(moving, proton, DirectEvent::Moved(Err("busy".to_string())))),
        "Failed to move compatibility tool into Steam compatibilitytools.d: busy"
    );
}

fn mount_step(stage: MountStage, event: MountEvent) -> MountStage {
    assert!(stage.expects(&event));
    stage.advance(
        &cask(),
        EXTRACTED.as_bytes(),
        &release(CompatibilityToolFlavor::ProtonGE),
        event,
    )
}

fn mount_message(stage: MountStage) -> String {
    match stage {
        MountStage::Finished { result: Ok(success) } => success.message(),
        MountStage::Finished { result: Err(failure) } => failure.message(),
        _ => panic!("the installation has not ended"),
    }
}

fn manifest() -> VirtualToolManifest {
    let tool = |number: u64| VirtualToolConfig {
        id: format!("virtual-{}", number),
        user_label: format!("Label {}", number),
        steam_internal_name: format!("Internal{}", number),
        directory_name: format!("Directory{}", number),
        current_payload_release_id: None,
    };
    VirtualToolManifest {
        next_virtual_tool_number: 4,
        tools: vec![tool(1), tool(2), tool(3)],
    }
}

fn mounting() -> MountStage {
    mount_step(
        install_virtual_tool("virtual-2".to_string()),
        MountEvent::ManifestLoaded(manifest()),
    )
}

#[test]
fn release_is_mounted_into_the_tool_that_was_asked_for() {
    let stage = mounting();
    match &stage {
        MountStage::CheckTarget { slot, target } => {
            assert_eq!(slot.tool.id, "virtual-2");
            assert_eq!(*target, b"/tools/Directory2".to_vec());
        }
        _ => panic!("the tool is not found"),
    }
    let stage = mount_step(stage, MountEvent::TargetChecked(true));
    match &stage {
        MountStage::DeleteTarget { target, .. } => {
            assert_eq!(*target, b"/tools/Directory2".to_vec())
        }
        _ => panic!("nothing is deleted"),
    }
    let stage = mount_step(stage, MountEvent::TargetDeleted(Ok(())));
    match &stage {
        MountStage::Move { from, to, .. } => {
            assert_eq!(*from, EXTRACTED.as_bytes().to_vec());
            assert_eq!(*to, b"/tools/Directory2".to_vec());
        }
        _ => panic!("nothing is moved"),
    }
    let stage = mount_step(stage, MountEvent::Moved(Ok(())));
    match &stage {
        MountStage::WriteVdf { file, text, .. } => {
            assert_eq!(*file, b"/tools/Directory2/compatibilitytool.vdf".to_vec());
            assert_eq!(*text, generate_compatibility_tool_vdf("Internal2", "Label 2"));
        }
        _ => panic!("nothing is written"),
    }
    let stage = mount_step(stage, MountEvent::VdfWritten);
    match &stage {
        MountStage::RecordPayload { slot, release_id } => {
            assert_eq!(slot.virtual_tool_id, "virtual-2");
            assert_eq!(release_id, "r1");
        }
        _ => panic!("nothing is recorded"),
    }
    let stage = mount_step(stage, MountEvent::PayloadRecorded(Ok(())));
    assert_eq!(mount_message(stage), "Mounted v0.5 into Label 2");
}

#[test]
fn mounting_needs_the_tool() {
    let stage = mount_step(
        install_virtual_tool("virtual-9".to_string()),
        MountEvent::ManifestLoaded(manifest()),
    );
    assert_eq!(mount_message(stage), "Virtual compatibility tool no longer exists");
}

#[test]
fn failed_mounts_are_reported() {
    let error = || "busy".to_string();
    let deleting = mount_step(mounting(), MountEvent::TargetChecked(true));
    assert_eq!(
        mount_message(mount_step(deleting, MountEvent::TargetDeleted(Err(error())))),
        "Failed to replace virtual tool contents: busy"
    );
    let moving = mount_step(mounting(), MountEvent::TargetChecked(false));
    assert_eq!(
        mount_message(mount_step(moving, MountEvent::Moved(Err(error())))),
        "Failed to move virtual tool contents into place: busy"
    );
    let moving = mount_step(mounting(), MountEvent::TargetChecked(false));
    let stage = mount_step(moving, MountEvent::Moved(Ok(())));
    let stage = mount_step(stage, MountEvent::VdfWritten);
    assert_eq!(
        mount_message(mount_step(stage, MountEvent::PayloadRecorded(Err(error())))),
        "busy"
    );
}
