//! Tests for manifest normalization: scope splitting, build-command
//! inference, keyword and author policies, binary canonicalization,
//! repository resolution, auto-include merging, and determinism.

use js_workspace::model::{
    AuthorField, AutoIncludes, JsError, ManifestDoc, RepositoryField, Version,
};
use js_workspace::normalize::{read_workspace, split_package_name};
use js_workspace::path::JsPath;

fn jp(s: &str) -> JsPath {
    JsPath {
        parts: s
            .split('/')
            .filter(|p| !p.is_empty())
            .map(|p| p.to_string())
            .collect(),
    }
}

fn empty_auto() -> AutoIncludes {
    AutoIncludes {
        readme: None,
        licenses: vec![],
        changelog: None,
    }
}

fn named_doc(name: &str) -> ManifestDoc {
    ManifestDoc {
        name: Some(name.to_string()),
        version: None,
        description: None,
        author: None,
        license: None,
        repository: None,
        homepage: None,
        keywords: vec![],
        script_names: vec![],
    }
}

fn manifest_path() -> JsPath {
    jp("home/user/proj/package.json")
}

fn normalize(doc: ManifestDoc) -> js_workspace::model::WorkspaceStructure {
    normalize_with(doc, vec![], empty_auto(), "")
}

fn normalize_with(
    doc: ManifestDoc,
    bins: Vec<&str>,
    auto: AutoIncludes,
    ext: &str,
) -> js_workspace::model::WorkspaceStructure {
    let bins: Vec<String> = bins.into_iter().map(|b| b.to_string()).collect();
    read_workspace(&manifest_path(), &Ok(doc), &Ok(bins), &auto, ext)
        .expect("normalization should succeed")
}

#[test]
fn scoped_name_split() {
    let w = normalize(named_doc("@foo/bar"));
    let p = &w.packages[0];
    assert_eq!(p.true_name, "@foo/bar");
    assert_eq!(p.npm_scope, Some("foo".to_string()));
    assert_eq!(p.name, "bar");
}

#[test]
fn unscoped_name_has_no_scope() {
    let w = normalize(named_doc("bar"));
    let p = &w.packages[0];
    assert_eq!(p.true_name, "bar");
    assert_eq!(p.npm_scope, None);
    assert_eq!(p.name, "bar");
}

#[test]
fn name_splits_at_first_slash() {
    let (scope, local) = split_package_name(&"@a/b/c".to_string());
    assert_eq!(scope, Some("a".to_string()));
    assert_eq!(local, "b/c");
}

#[test]
fn unsigiled_scope_is_taken_as_written() {
    let (scope, local) = split_package_name(&"foo/bar".to_string());
    assert_eq!(scope, Some("foo".to_string()));
    assert_eq!(local, "bar");
}

#[test]
fn nameless_package_is_rejected() {
    let mut doc = named_doc("x");
    doc.name = None;
    let r = read_workspace(&manifest_path(), &Ok(doc), &Ok(vec![]), &empty_auto(), "");
    assert_eq!(
        r,
        Err(JsError::NamelessNpmPackage {
            manifest: manifest_path()
        })
    );
}

#[test]
fn manifest_parse_failure_is_reported() {
    let r = read_workspace(
        &manifest_path(),
        &Err("expected `,` at line 3".to_string()),
        &Ok(vec![]),
        &empty_auto(),
        "",
    );
    assert_eq!(
        r,
        Err(JsError::ManifestParse {
            manifest_path: manifest_path(),
            details: "expected `,` at line 3".to_string()
        })
    );
}

#[test]
fn build_info_failure_is_reported() {
    let r = read_workspace(
        &manifest_path(),
        &Ok(named_doc("pkg")),
        &Err("invalid bin table".to_string()),
        &empty_auto(),
        "",
    );
    assert_eq!(
        r,
        Err(JsError::BuildInfoParse {
            manifest_path: manifest_path(),
            details: "invalid bin table".to_string()
        })
    );
}

#[test]
fn manifest_parse_failure_outranks_build_failure() {
    let r = read_workspace(
        &manifest_path(),
        &Err("bad json".to_string()),
        &Err("bad bins".to_string()),
        &empty_auto(),
        "",
    );
    assert!(matches!(r, Err(JsError::ManifestParse { .. })));
}

#[test]
fn dist_script_infers_build_command() {
    let mut doc = named_doc("pkg");
    doc.script_names = vec!["test".to_string(), "dist".to_string()];
    let w = normalize(doc);
    assert_eq!(
        w.packages[0].build_command,
        Some(vec![
            "npm".to_string(),
            "run".to_string(),
            "dist".to_string()
        ])
    );
}

#[test]
fn dist_script_build_command_takes_program_ext() {
    let mut doc = named_doc("pkg");
    doc.script_names = vec!["dist".to_string()];
    let w = normalize_with(doc, vec![], empty_auto(), ".cmd");
    assert_eq!(
        w.packages[0].build_command,
        Some(vec![
            "npm.cmd".to_string(),
            "run".to_string(),
            "dist".to_string()
        ])
    );
}

#[test]
fn no_dist_script_no_build_command() {
    let mut doc = named_doc("pkg");
    doc.script_names = vec!["test".to_string(), "build".to_string()];
    let w = normalize(doc);
    assert_eq!(w.packages[0].build_command, None);
}

#[test]
fn empty_keywords_become_absent() {
    let w = normalize(named_doc("pkg"));
    assert_eq!(w.packages[0].keywords, None);
}

#[test]
fn present_keywords_are_kept() {
    let mut doc = named_doc("pkg");
    doc.keywords = vec!["cli".to_string(), "tool".to_string()];
    let w = normalize(doc);
    assert_eq!(
        w.packages[0].keywords,
        Some(vec!["cli".to_string(), "tool".to_string()])
    );
}

#[test]
fn binaries_are_sorted_and_deduplicated() {
    let w = normalize_with(
        named_doc("pkg"),
        vec!["tool-b", "tool-a", "tool-b", "a", "tool-a"],
        empty_auto(),
        "",
    );
    assert_eq!(
        w.packages[0].binaries,
        vec!["a".to_string(), "tool-a".to_string(), "tool-b".to_string()]
    );
}

#[test]
fn binaries_ignore_declaration_order() {
    let w1 = normalize_with(named_doc("pkg"), vec!["z", "m", "a"], empty_auto(), "");
    let w2 = normalize_with(named_doc("pkg"), vec!["a", "z", "m", "z"], empty_auto(), "");
    assert_eq!(w1.packages[0].binaries, w2.packages[0].binaries);
    assert_eq!(
        w1.packages[0].binaries,
        vec!["a".to_string(), "m".to_string(), "z".to_string()]
    );
}

#[test]
fn repository_shorthand_resolves_to_https() {
    let mut doc = named_doc("pkg");
    doc.repository = Some(RepositoryField::Str("github:foo/bar".to_string()));
    let w = normalize(doc);
    assert_eq!(
        w.packages[0].repository_url,
        Some("https://github.com/foo/bar.git".to_string())
    );
}

#[test]
fn repository_shorthand_defaults_to_github() {
    let mut doc = named_doc("pkg");
    doc.repository = Some(RepositoryField::Str("foo/bar".to_string()));
    let w = normalize(doc);
    assert_eq!(
        w.packages[0].repository_url,
        Some("https://github.com/foo/bar.git".to_string())
    );
}

#[test]
fn repository_semver_committish_resolves_by_prefix() {
    // The resolver's grammar hands a semver committish to a range parser
    // that does not return normally on this very range; the shorthand is
    // cut at its `#` first, which leaves the rendered URL unchanged.
    let mut doc = named_doc("pkg");
    doc.repository = Some(RepositoryField::Str("foo/bar#semver:=*".to_string()));
    let w = normalize(doc);
    assert_eq!(
        w.packages[0].repository_url,
        Some("https://github.com/foo/bar.git".to_string())
    );
}

#[test]
fn repository_semver_committish_marker_case_is_ignored() {
    let mut doc = named_doc("pkg");
    doc.repository = Some(RepositoryField::Str("foo/bar#SemVer:=*".to_string()));
    let w = normalize(doc);
    assert_eq!(
        w.packages[0].repository_url,
        Some("https://github.com/foo/bar.git".to_string())
    );
}

#[test]
fn repository_semver_committish_ignores_range_text() {
    // The committish never shows in the rendered URL, so the text after
    // `#semver:` plays no part in the outcome.
    let mut doc = named_doc("pkg");
    doc.repository = Some(RepositoryField::Str(
        "foo/bar#semver:not a range".to_string(),
    ));
    let w = normalize(doc);
    assert_eq!(
        w.packages[0].repository_url,
        Some("https://github.com/foo/bar.git".to_string())
    );
}

#[test]
fn repository_bare_remote_is_dropped() {
    // A hosted remote with nothing of a path behind the authority: the
    // resolver's grammar slices the URL's empty path past its first byte
    // and does not return, so the field is dropped without consulting it.
    let mut doc = named_doc("pkg");
    doc.repository = Some(RepositoryField::Str("git://github.com".to_string()));
    let w = normalize(doc);
    assert_eq!(w.packages[0].repository_url, None);
}

#[test]
fn repository_git_url_with_path_resolves() {
    let mut doc = named_doc("pkg");
    doc.repository = Some(RepositoryField::Str(
        "git+https://github.com/foo/bar.git".to_string(),
    ));
    let w = normalize(doc);
    assert_eq!(
        w.packages[0].repository_url,
        Some("https://github.com/foo/bar.git".to_string())
    );
}

#[test]
fn repository_plain_committish_still_resolves() {
    let mut doc = named_doc("pkg");
    doc.repository = Some(RepositoryField::Str("foo/bar#main".to_string()));
    let w = normalize(doc);
    assert_eq!(
        w.packages[0].repository_url,
        Some("https://github.com/foo/bar.git".to_string())
    );
}

#[test]
fn unparseable_repository_is_dropped() {
    let mut doc = named_doc("pkg");
    doc.repository = Some(RepositoryField::Str("notashorthand".to_string()));
    let w = normalize(doc);
    assert_eq!(w.packages[0].repository_url, None);
}

#[test]
fn repository_object_url_is_taken_directly() {
    let mut doc = named_doc("pkg");
    doc.repository = Some(RepositoryField::Obj {
        url: Some("https://example.com/repo.git".to_string()),
    });
    let w = normalize(doc);
    assert_eq!(
        w.packages[0].repository_url,
        Some("https://example.com/repo.git".to_string())
    );
}

#[test]
fn repository_object_without_url_is_dropped() {
    let mut doc = named_doc("pkg");
    doc.repository = Some(RepositoryField::Obj { url: None });
    let w = normalize(doc);
    assert_eq!(w.packages[0].repository_url, None);
}

#[test]
fn string_author_is_kept() {
    let mut doc = named_doc("pkg");
    doc.author = Some(AuthorField::Str("Ada <ada@example.com>".to_string()));
    let w = normalize(doc);
    assert_eq!(
        w.packages[0].authors,
        vec!["Ada <ada@example.com>".to_string()]
    );
}

#[test]
fn object_author_is_dropped() {
    let mut doc = named_doc("pkg");
    doc.author = Some(AuthorField::Obj);
    let w = normalize(doc);
    assert_eq!(w.packages[0].authors, Vec::<String>::new());
}

#[test]
fn version_is_tagged_npm() {
    let mut doc = named_doc("pkg");
    doc.version = Some("1.2.3".to_string());
    let w = normalize(doc);
    let p = &w.packages[0];
    assert_eq!(p.version, Some(Version::Npm("1.2.3".to_string())));
    assert_eq!(p.true_version, Some(Version::Npm("1.2.3".to_string())));
}

#[test]
fn auto_includes_are_merged() {
    let auto = AutoIncludes {
        readme: Some(jp("home/user/proj/README.md")),
        licenses: vec![jp("home/user/proj/LICENSE")],
        changelog: Some(jp("home/user/proj/CHANGELOG.md")),
    };
    let w = normalize_with(named_doc("pkg"), vec![], auto, "");
    let p = &w.packages[0];
    assert_eq!(p.readme_file, Some(jp("home/user/proj/README.md")));
    assert_eq!(p.license_files, vec![jp("home/user/proj/LICENSE")]);
    assert_eq!(p.changelog_file, Some(jp("home/user/proj/CHANGELOG.md")));
    assert_eq!(
        w.workspace.root_auto_includes.readme,
        Some(jp("home/user/proj/README.md"))
    );
}

#[test]
fn inapplicable_fields_hold_sentinels() {
    let w = normalize(named_doc("pkg"));
    let p = &w.packages[0];
    assert!(p.publish);
    assert_eq!(p.dist_manifest_path, None);
    assert_eq!(p.documentation_url, None);
    assert_eq!(p.cdylibs, Vec::<String>::new());
    assert_eq!(p.cstaticlibs, Vec::<String>::new());
    assert_eq!(p.dist, None);
    assert_eq!(w.workspace.dist_manifest_path, None);
    assert_eq!(w.sub_workspaces.len(), 0);
}

#[test]
fn normalization_is_deterministic() {
    let make_doc = || {
        let mut doc = named_doc("@scope/pkg");
        doc.version = Some("0.3.1".to_string());
        doc.description = Some("a tool".to_string());
        doc.author = Some(AuthorField::Str("Ada".to_string()));
        doc.license = Some("MIT".to_string());
        doc.repository = Some(RepositoryField::Str("github:foo/bar".to_string()));
        doc.homepage = Some("https://example.com".to_string());
        doc.keywords = vec!["k1".to_string(), "k2".to_string()];
        doc.script_names = vec!["dist".to_string()];
        doc
    };
    let auto = || AutoIncludes {
        readme: Some(jp("home/user/proj/README.md")),
        licenses: vec![],
        changelog: None,
    };
    let bins = || Ok(vec!["b".to_string(), "a".to_string()]);
    let r1 = read_workspace(&manifest_path(), &Ok(make_doc()), &bins(), &auto(), "");
    let r2 = read_workspace(&manifest_path(), &Ok(make_doc()), &bins(), &auto(), "");
    assert_eq!(r1, r2);
}
