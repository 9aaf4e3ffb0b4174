//! Tests for the manifest locator and the discovery entry point.

use js_workspace::discover::get_workspace;
use js_workspace::locate::workspace_manifest;
use js_workspace::model::{AutoIncludes, FsEntry, JsError, ManifestDoc, WorkspaceSearch};
use js_workspace::path::JsPath;

fn jp(s: &str) -> JsPath {
    JsPath {
        parts: s
            .split('/')
            .filter(|p| !p.is_empty())
            .map(|p| p.to_string())
            .collect(),
    }
}

fn empty_auto() -> AutoIncludes {
    AutoIncludes {
        readme: None,
        licenses: vec![],
        changelog: None,
    }
}

fn named_doc(name: &str) -> ManifestDoc {
    ManifestDoc {
        name: Some(name.to_string()),
        version: None,
        description: None,
        author: None,
        license: None,
        repository: None,
        homepage: None,
        keywords: vec![],
        script_names: vec![],
    }
}

fn entry(dir: &str, doc: ManifestDoc) -> FsEntry {
    FsEntry {
        dir: jp(dir),
        manifest: Ok(doc),
        build_bins: Ok(vec![]),
        auto_includes: empty_auto(),
    }
}

#[test]
fn nearest_manifest_wins() {
    let dirs = vec![jp("home/user"), jp("home/user/proj")];
    let r = workspace_manifest(&jp("home/user/proj/src"), None, &dirs);
    assert_eq!(r, Ok(jp("home/user/proj/package.json")));
}

#[test]
fn start_dir_itself_wins_over_ancestors() {
    let dirs = vec![jp("home/user"), jp("home/user/proj"), jp("home/user/proj/src")];
    let r = workspace_manifest(&jp("home/user/proj/src"), None, &dirs);
    assert_eq!(r, Ok(jp("home/user/proj/src/package.json")));
}

#[test]
fn clamp_excludes_manifests_above() {
    let dirs = vec![jp("home")];
    let clamp = jp("home/user/proj");
    let r = workspace_manifest(&jp("home/user/proj/src"), Some(&clamp), &dirs);
    match r {
        Err(JsError::PackageManifestNotFound {
            file_name,
            start_dir,
            clamp_to_dir,
        }) => {
            assert_eq!(file_name, "package.json");
            assert_eq!(start_dir, jp("home/user/proj/src"));
            assert_eq!(clamp_to_dir, Some(jp("home/user/proj")));
        }
        other => panic!("expected a not-found failure, got {:?}", other),
    }
}

#[test]
fn clamp_dir_itself_is_searched() {
    let dirs = vec![jp("home/user")];
    let clamp = jp("home/user");
    let r = workspace_manifest(&jp("home/user/proj"), Some(&clamp), &dirs);
    assert_eq!(r, Ok(jp("home/user/package.json")));
}

#[test]
fn start_outside_clamp_finds_nothing() {
    let dirs = vec![jp("opt/app")];
    let clamp = jp("home/user");
    let r = workspace_manifest(&jp("opt/app"), Some(&clamp), &dirs);
    assert!(matches!(r, Err(JsError::PackageManifestNotFound { .. })));
}

#[test]
fn no_manifest_anywhere_fails() {
    let dirs: Vec<JsPath> = vec![];
    let r = workspace_manifest(&jp("home/user/proj"), None, &dirs);
    assert!(matches!(r, Err(JsError::PackageManifestNotFound { .. })));
}

#[test]
fn unrelated_manifest_dirs_are_ignored() {
    let dirs = vec![jp("home/other/proj")];
    let r = workspace_manifest(&jp("home/user/proj"), None, &dirs);
    assert!(matches!(r, Err(JsError::PackageManifestNotFound { .. })));
}

#[test]
fn get_workspace_missing_outcome() {
    let entries: Vec<FsEntry> = vec![];
    let r = get_workspace(&jp("home/user/proj"), None, &entries, "");
    match r {
        WorkspaceSearch::Missing(JsError::PackageManifestNotFound {
            file_name,
            start_dir,
            clamp_to_dir,
        }) => {
            assert_eq!(file_name, "package.json");
            assert_eq!(start_dir, jp("home/user/proj"));
            assert_eq!(clamp_to_dir, None);
        }
        other => panic!("expected a missing outcome, got {:?}", other),
    }
}

#[test]
fn get_workspace_found_outcome() {
    let entries = vec![entry("home/user/proj", named_doc("quux"))];
    let r = get_workspace(&jp("home/user/proj/src"), None, &entries, "");
    match r {
        WorkspaceSearch::Found(w) => {
            assert_eq!(w.sub_workspaces.len(), 0);
            assert_eq!(w.packages.len(), 1);
            assert_eq!(w.workspace.workspace_dir, jp("home/user/proj"));
            assert_eq!(w.workspace.target_dir, jp("home/user/proj/node_modules"));
            assert_eq!(
                w.workspace.manifest_path,
                jp("home/user/proj/package.json")
            );
            assert_eq!(w.packages[0].true_name, "quux");
            assert_eq!(w.packages[0].package_root, jp("home/user/proj"));
            assert_eq!(
                w.packages[0].manifest_path,
                jp("home/user/proj/package.json")
            );
        }
        other => panic!("expected a found outcome, got {:?}", other),
    }
}

#[test]
fn get_workspace_broken_on_parse_error() {
    let entries = vec![FsEntry {
        dir: jp("home/user/proj"),
        manifest: Err("expected value at line 1".to_string()),
        build_bins: Ok(vec![]),
        auto_includes: empty_auto(),
    }];
    let r = get_workspace(&jp("home/user/proj"), None, &entries, "");
    match r {
        WorkspaceSearch::Broken {
            manifest_path,
            cause,
        } => {
            assert_eq!(manifest_path, jp("home/user/proj/package.json"));
            match cause {
                JsError::ManifestParse {
                    manifest_path,
                    details,
                } => {
                    assert_eq!(manifest_path, jp("home/user/proj/package.json"));
                    assert_eq!(details, "expected value at line 1");
                }
                other => panic!("expected a manifest-parse cause, got {:?}", other),
            }
        }
        other => panic!("expected a broken outcome, got {:?}", other),
    }
}

#[test]
fn nameless_manifest_is_broken_not_missing() {
    let mut doc = named_doc("x");
    doc.name = None;
    let entries = vec![entry("home/user/proj", doc)];
    let r = get_workspace(&jp("home/user/proj"), None, &entries, "");
    match r {
        WorkspaceSearch::Broken {
            manifest_path,
            cause,
        } => {
            assert_eq!(manifest_path, jp("home/user/proj/package.json"));
            assert_eq!(
                cause,
                JsError::NamelessNpmPackage {
                    manifest: jp("home/user/proj/package.json")
                }
            );
        }
        other => panic!("expected a broken outcome, got {:?}", other),
    }
}

#[test]
fn get_workspace_picks_nearest_entry() {
    let entries = vec![
        entry("home/user", named_doc("outer")),
        entry("home/user/proj", named_doc("inner")),
    ];
    let r = get_workspace(&jp("home/user/proj/deep/dir"), None, &entries, "");
    match r {
        WorkspaceSearch::Found(w) => assert_eq!(w.packages[0].true_name, "inner"),
        other => panic!("expected a found outcome, got {:?}", other),
    }
}

#[test]
fn get_workspace_respects_clamp() {
    let entries = vec![entry("home", named_doc("above"))];
    let clamp = jp("home/user");
    let r = get_workspace(&jp("home/user/proj"), Some(&clamp), &entries, "");
    assert!(matches!(r, WorkspaceSearch::Missing(_)));
}
