use std::path::{Component, Path, PathBuf};
use wine_cellar::paths::{
    is_same_place, is_unsafe_entry_path, join_path, parent_path, path_components, path_file_name,
    path_lies_within, path_with_extension, PathComponent,
};
use wine_cellar::wine_cask::app::{vdf_file, WineCask};

/// All texts of up to five characters out of `/`, `.` and `a`.
fn samples() -> Vec<String> {
    let mut all: Vec<String> = vec![String::new()];
    let mut last: Vec<String> = vec![String::new()];
    for _ in 0..5 {
        let mut next: Vec<String> = Vec::new();
        for s in &last {
            for c in ["/", ".", "a"] {
                next.push(format!("{}{}", s, c));
            }
        }
        all.extend(next.iter().cloned());
        last = next;
    }
    all
}

#[test]
fn components_agree_with_the_standard_library() {
    for s in samples() {
        let ours = path_components(s.as_bytes());
        let theirs: Vec<Component> = Path::new(&s).components().collect();
        assert_eq!(ours.len(), theirs.len(), "{}", s);
        for (a, b) in ours.iter().zip(theirs.iter()) {
            let same = match (a, b) {
                (PathComponent::RootDir, Component::RootDir) => true,
                (PathComponent::CurDir, Component::CurDir) => true,
                (PathComponent::ParentDir, Component::ParentDir) => true,
                (PathComponent::Normal(name), Component::Normal(other)) => {
                    other.to_str().expect("text").as_bytes() == name.as_slice()
                }
                _ => false,
            };
            assert!(same, "{}", s);
        }
    }
}

#[test]
fn containment_agrees_with_the_standard_library() {
    let all: Vec<String> = samples().into_iter().filter(|s| s.len() <= 4).collect();
    for path in &all {
        for base in &all {
            assert_eq!(
                path_lies_within(path.as_bytes(), base.as_bytes()),
                Path::new(path).starts_with(base),
                "{} {}",
                path,
                base
            );
        }
    }
}

#[test]
fn joining_agrees_with_the_standard_library() {
    let all: Vec<String> = samples().into_iter().filter(|s| s.len() <= 3).collect();
    for base in &all {
        for name in &all {
            let joined = Path::new(base).join(name);
            assert_eq!(
                join_path(base.as_bytes(), name.as_bytes()),
                joined.to_str().expect("text").as_bytes().to_vec()
            );
        }
    }
}

#[test]
fn entries_that_lead_out_are_unsafe() {
    for s in ["/etc/passwd", "../x", "a/../../b", "..", "a/..", "/"] {
        assert!(is_unsafe_entry_path(s.as_bytes()), "{}", s);
    }
    for s in ["", "a", "a/b", "./a", "a//b", "a/./b", "..a/b..", "...", "a/"] {
        assert!(!is_unsafe_entry_path(s.as_bytes()), "{}", s);
    }
}

#[test]
fn safe_entries_stay_below_their_directory() {
    for directory in ["/tmp/x", "/tmp/x/", "x", ""] {
        for entry in ["a", "./a/b", "a//b", ""] {
            assert!(!is_unsafe_entry_path(entry.as_bytes()));
            let target = join_path(directory.as_bytes(), entry.as_bytes());
            assert!(path_lies_within(&target, directory.as_bytes()));
        }
    }
}

#[test]
fn sibling_with_the_same_prefix_is_not_contained() {
    assert!(!path_lies_within(b"/tools-old/x", b"/tools"));
    assert!(path_lies_within(b"/tools/x", b"/tools"));
    assert!(path_lies_within(b"/tools", b"/tools"));
    assert!(!path_lies_within(b"/", b"/tools"));
}

#[test]
fn containment_chains() {
    assert!(path_lies_within(b"/a/b/c", b"/a/b"));
    assert!(path_lies_within(b"/a/b", b"/a"));
    assert!(path_lies_within(b"/a/b/c", b"/a"));
}

#[test]
fn tool_and_staging_directories_are_below_the_tools() {
    let cask = WineCask {
        compatibility_tools_directory: b"/tools".to_vec(),
        virtual_tool_manifest_path: b"/data/virtual_tools.json".to_vec(),
    };
    assert_eq!(cask.tool_directory("X"), b"/tools/X".to_vec());
    assert_eq!(cask.staging_directory(), b"/tools/.wine-cellar-staging".to_vec());
    assert!(path_lies_within(&cask.staging_directory(), b"/tools"));
    assert_eq!(
        vdf_file(&cask.tool_directory("X")),
        b"/tools/X/compatibilitytool.vdf".to_vec()
    );
}

fn text_bytes(path: &Path) -> Vec<u8> {
    path.to_str().expect("text").as_bytes().to_vec()
}

#[test]
fn parents_agree_with_the_standard_library() {
    for s in samples() {
        let theirs = Path::new(&s).parent().map(text_bytes);
        assert_eq!(parent_path(s.as_bytes()), theirs, "{}", s);
    }
    assert_eq!(parent_path(b"/data/app/tools.json"), Some(b"/data/app".to_vec()));
}

#[test]
fn file_names_agree_with_the_standard_library() {
    for s in samples() {
        let theirs = Path::new(&s)
            .file_name()
            .map(|name| name.to_str().expect("text").as_bytes().to_vec());
        assert_eq!(path_file_name(s.as_bytes()), theirs, "{}", s);
    }
}

#[test]
fn extensions_agree_with_the_standard_library() {
    for s in samples() {
        for extension in ["b", "json.tmp"] {
            let mut theirs = PathBuf::from(&s);
            theirs.set_extension(extension);
            assert_eq!(
                path_with_extension(s.as_bytes(), extension.as_bytes()),
                text_bytes(&theirs),
                "{}",
                s
            );
        }
    }
    assert_eq!(
        path_with_extension(b"/data/tools.json", b"json.tmp"),
        b"/data/tools.json.tmp".to_vec()
    );
}

#[test]
fn equality_agrees_with_the_standard_library() {
    let all: Vec<String> = samples().into_iter().filter(|s| s.len() <= 4).collect();
    for a in &all {
        for b in &all {
            assert_eq!(
                is_same_place(a.as_bytes(), b.as_bytes()),
                Path::new(a) == Path::new(b),
                "{} {}",
                a,
                b
            );
        }
    }
}

#[test]
fn parent_has_one_component_less() {
    for s in samples() {
        if let Some(parent) = parent_path(s.as_bytes()) {
            assert_eq!(
                path_components(&parent).len() + 1,
                path_components(s.as_bytes()).len()
            );
        }
    }
}

#[test]
fn new_extension_keeps_the_directory() {
    let path = b"/data/app/tools.json";
    let beside = path_with_extension(path, b"json.tmp");
    assert_eq!(parent_path(&beside), parent_path(path));
    assert_ne!(path_file_name(&beside), path_file_name(path));
    assert!(!is_same_place(&beside, path));
}
