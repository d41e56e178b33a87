use wine_cellar::github_util::{Asset, Release};
use wine_cellar::wine_cask::archive::{
    download_archive_name, is_steam_deck_archive, look_for_compressed_archive, CompressionType,
};

fn release_with_assets(assets: Vec<Asset>) -> Release {
    Release {
        url: "https://example.com/release".to_string(),
        id: 1,
        draft: false,
        prerelease: false,
        name: "Release".to_string(),
        tag_name: "Release".to_string(),
        assets,
        created_at: "2026-01-01T00:00:00Z".to_string(),
        published_at: "2026-01-01T00:00:00Z".to_string(),
        tarball_url: "https://example.com/source.tar.gz".to_string(),
        body: String::new(),
    }
}

fn asset(name: &str, url: &str) -> Asset {
    typed_asset(name, url, "application/gzip")
}

fn typed_asset(name: &str, url: &str, content_type: &str) -> Asset {
    Asset {
        url: format!("{}/api", url),
        id: 1,
        name: name.to_string(),
        content_type: content_type.to_string(),
        state: "uploaded".to_string(),
        size: 1024,
        download_count: 0,
        created_at: "2026-01-01T00:00:00Z".to_string(),
        updated_at: "2026-01-01T00:00:00Z".to_string(),
        browser_download_url: url.to_string(),
    }
}

#[test]
fn archive_selection_skips_aarch64_build_when_generic_build_exists() {
    let release = release_with_assets(vec![
        asset(
            "GE-Proton11-1-aarch64.tar.gz",
            "https://example.com/aarch64",
        ),
        asset("GE-Proton11-1.tar.gz", "https://example.com/x86_64"),
    ]);

    let plan = look_for_compressed_archive(&release).expect("Expected x86-compatible archive");

    assert_eq!(plan.url, "https://example.com/x86_64");
    assert_eq!(plan.compression_type, CompressionType::Gzip);
}

#[test]
fn archive_selection_rejects_release_with_only_aarch64_build() {
    let release = release_with_assets(vec![asset(
        "GE-Proton11-1-aarch64.tar.gz",
        "https://example.com/aarch64",
    )]);

    assert!(look_for_compressed_archive(&release).is_none());
}

#[test]
fn archive_selection_accepts_explicit_x86_64_build() {
    let release = release_with_assets(vec![asset(
        "proton-cachyos-10-x86_64_v3.tar.xz",
        "https://example.com/x86_64_v3",
    )]);

    let plan = look_for_compressed_archive(&release).expect("Expected x86_64 archive");

    assert_eq!(plan.url, "https://example.com/x86_64_v3");
    assert_eq!(plan.compression_type, CompressionType::Xz);
}

#[test]
fn name_decides_over_content_type() {
    let release = release_with_assets(vec![typed_asset(
        "Tool.TAR.GZ",
        "https://example.com/a",
        "application/x-xz",
    )]);
    let plan = look_for_compressed_archive(&release).expect("supported by name");
    assert_eq!(plan.compression_type, CompressionType::Gzip);
}

#[test]
fn content_type_decides_where_the_name_says_nothing() {
    let gzip = release_with_assets(vec![typed_asset("tool", "https://example.com/a", "application/gzip")]);
    let xz = release_with_assets(vec![typed_asset("tool", "https://example.com/b", "application/x-xz")]);
    assert_eq!(
        look_for_compressed_archive(&gzip).expect("gzip").compression_type,
        CompressionType::Gzip
    );
    assert_eq!(
        look_for_compressed_archive(&xz).expect("xz").compression_type,
        CompressionType::Xz
    );
}

#[test]
fn unsupported_files_are_not_downloaded() {
    let release = release_with_assets(vec![
        typed_asset("checksums.txt", "https://example.com/a", "text/plain"),
        typed_asset("tool.zip", "https://example.com/b", "application/zip"),
    ]);
    assert!(look_for_compressed_archive(&release).is_none());
    assert!(look_for_compressed_archive(&release_with_assets(vec![])).is_none());
}

#[test]
fn first_installable_file_is_downloaded() {
    let release = release_with_assets(vec![
        typed_asset("notes.txt", "https://example.com/0", "text/plain"),
        asset("one.tar.gz", "https://example.com/1"),
        asset("two.tar.gz", "https://example.com/2"),
    ]);
    let plan = look_for_compressed_archive(&release).expect("an archive");
    assert_eq!(plan.url, "https://example.com/1");
}

#[test]
fn every_foreign_processor_is_recognised() {
    for name in [
        "aarch64", "arm64", "armv7", "armhf", "riscv64", "ppc64", "s390x", "loong64", "AArch64",
    ] {
        let file = format!("tool-{}.tar.gz", name);
        assert!(!is_steam_deck_archive(&asset(&file, "https://example.com")));
    }
    assert!(is_steam_deck_archive(&asset("tool-x86_64.tar.gz", "https://example.com")));
    assert!(is_steam_deck_archive(&asset("", "https://example.com")));
}

#[test]
fn archives_are_downloaded_under_fixed_names() {
    assert_eq!(download_archive_name(&CompressionType::Gzip), "download.tar.gz");
    assert_eq!(download_archive_name(&CompressionType::Xz), "download.tar.xz");
    assert_eq!(download_archive_name(&CompressionType::Unknown), "download.tar");
}

#[test]
fn files_that_cannot_be_installed_do_not_matter() {
    let wanted = asset("tool.tar.gz", "https://example.com/wanted");
    let other = asset("tool-2.tar.gz", "https://example.com/other");
    let foreign = asset("tool-arm64.tar.gz", "https://example.com/foreign");
    let text = typed_asset("notes.txt", "https://example.com/notes", "text/plain");
    let lists = vec![
        vec![wanted.clone(), other.clone()],
        vec![foreign.clone(), wanted.clone(), other.clone()],
        vec![text.clone(), foreign.clone(), wanted.clone(), text.clone(), other.clone()],
        vec![wanted.clone(), other.clone(), foreign.clone()],
    ];
    for assets in lists {
        let plan = look_for_compressed_archive(&release_with_assets(assets)).expect("a download");
        assert_eq!(plan.url, "https://example.com/wanted");
    }
}
