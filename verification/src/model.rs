//! The data model: the manifest document as the normalizer reads it, the
//! normalized package and workspace descriptors, the tri-state search
//! outcome, and the failure causes.

use vstd::prelude::*;

use crate::path::JsPath;

verus! {

/// A package version, tagged as belonging to the npm ecosystem.
#[derive(Debug, PartialEq, Eq)]
pub enum Version {
    Npm(String),
}

/// A manifest author entry: either a plain string, or a structured object
/// (whose contents the normalizer does not read).
#[derive(Debug, PartialEq, Eq)]
pub enum AuthorField {
    Str(String),
    Obj,
}

/// A manifest repository entry: either a shorthand string to be resolved,
/// or a structured object carrying an explicit URL.
#[derive(Debug, PartialEq, Eq)]
pub enum RepositoryField {
    Str(String),
    Obj { url: Option<String> },
}

/// The fields of a parsed package manifest that normalization reads.
/// Scripts are held by name only: the normalizer only asks which script
/// names are declared.
#[derive(Debug, PartialEq, Eq)]
pub struct ManifestDoc {
    pub name: Option<String>,
    pub version: Option<String>,
    pub description: Option<String>,
    pub author: Option<AuthorField>,
    pub license: Option<String>,
    pub repository: Option<RepositoryField>,
    pub homepage: Option<String>,
    pub keywords: Vec<String>,
    pub script_names: Vec<String>,
}

/// Auxiliary project files found by a separate filesystem scan, to be
/// merged into a package descriptor.
#[derive(Debug, PartialEq, Eq)]
pub struct AutoIncludes {
    pub readme: Option<JsPath>,
    pub licenses: Vec<JsPath>,
    pub changelog: Option<JsPath>,
}

/// A failure cause surfaced by discovery or normalization.
#[derive(Debug, PartialEq, Eq)]
pub enum JsError {
    /// The manifest exists but is not valid structured data.
    ManifestParse { manifest_path: JsPath, details: String },
    /// The manifest parses but declares no name (a virtual manifest).
    NamelessNpmPackage { manifest: JsPath },
    /// The companion binary-declaration view of the manifest failed to load.
    BuildInfoParse { manifest_path: JsPath, details: String },
    /// No manifest file was found within the search bounds.
    PackageManifestNotFound {
        file_name: String,
        start_dir: JsPath,
        clamp_to_dir: Option<JsPath>,
    },
}

/// The normalized, authoritative description of one discovered package.
/// Fields with no npm meaning are present with an explicit empty or absent
/// sentinel, keeping the descriptor shape uniform across ecosystems.
#[derive(Debug, PartialEq, Eq)]
pub struct PackageInfo {
    pub true_name: String,
    pub true_version: Option<Version>,
    pub name: String,
    pub npm_scope: Option<String>,
    pub version: Option<Version>,
    pub manifest_path: JsPath,
    pub dist_manifest_path: Option<JsPath>,
    pub package_root: JsPath,
    pub description: Option<String>,
    pub authors: Vec<String>,
    pub license: Option<String>,
    pub publish: bool,
    pub repository_url: Option<String>,
    pub homepage_url: Option<String>,
    pub keywords: Option<Vec<String>>,
    pub documentation_url: Option<String>,
    pub readme_file: Option<JsPath>,
    pub license_files: Vec<JsPath>,
    pub changelog_file: Option<JsPath>,
    pub binaries: Vec<String>,
    pub cdylibs: Vec<String>,
    pub cstaticlibs: Vec<String>,
    pub build_command: Option<Vec<String>>,
    pub dist: Option<bool>,
}

/// The ecosystem a workspace belongs to.
#[derive(Debug, PartialEq, Eq)]
pub enum WorkspaceKind {
    Javascript,
}

/// The workspace enclosing the discovered packages.
#[derive(Debug, PartialEq, Eq)]
pub struct WorkspaceInfo {
    pub kind: WorkspaceKind,
    pub target_dir: JsPath,
    pub workspace_dir: JsPath,
    pub manifest_path: JsPath,
    pub dist_manifest_path: Option<JsPath>,
    pub root_auto_includes: AutoIncludes,
}

/// A workspace together with its packages; in the current single-package
/// design `sub_workspaces` is always empty and `packages` holds one entry.
#[derive(Debug, PartialEq, Eq)]
pub struct WorkspaceStructure {
    pub sub_workspaces: Vec<WorkspaceInfo>,
    pub packages: Vec<PackageInfo>,
    pub workspace: WorkspaceInfo,
}

/// The tri-state outcome of a workspace search: a manifest was found and
/// normalized; a manifest was found but failed to normalize; or no
/// manifest was found at all.
#[derive(Debug, PartialEq, Eq)]
pub enum WorkspaceSearch {
    Found(WorkspaceStructure),
    Broken { manifest_path: JsPath, cause: JsError },
    Missing(JsError),
}

/// One directory that holds a manifest, with both loaded views of that
/// manifest and the auxiliary files scanned beside it.  The two views are
/// loaded independently; each may fail on its own, carrying its parse
/// diagnostic.
#[derive(Debug, PartialEq, Eq)]
pub struct FsEntry {
    pub dir: JsPath,
    pub manifest: Result<ManifestDoc, String>,
    pub build_bins: Result<Vec<String>, String>,
    pub auto_includes: AutoIncludes,
}

pub open spec fn opt_str_view(o: Option<String>) -> Option<Seq<char>> {
    match o {
        Option::None => Option::None,
        Option::Some(s) => Option::Some(s@),
    }
}

pub open spec fn opt_path_view(o: Option<JsPath>) -> Option<Seq<Seq<char>>> {
    match o {
        Option::None => Option::None,
        Option::Some(p) => Option::Some(p@),
    }
}

pub open spec fn opt_version_view(o: Option<Version>) -> Option<Seq<char>> {
    match o {
        Option::None => Option::None,
        Option::Some(Version::Npm(s)) => Option::Some(s@),
    }
}

pub open spec fn paths_view(s: Seq<JsPath>) -> Seq<Seq<Seq<char>>> {
    s.map_values(|p: JsPath| p@)
}

pub open spec fn auto_includes_view(a: AutoIncludes) -> (
    Option<Seq<Seq<char>>>,
    Seq<Seq<Seq<char>>>,
    Option<Seq<Seq<char>>>,
) {
    (opt_path_view(a.readme), paths_view(a.licenses@), opt_path_view(a.changelog))
}

/// The two author models carry the same information.
pub open spec fn authors_agree(a: Option<AuthorField>, b: Option<AuthorField>) -> bool {
    match (a, b) {
        (Option::None, Option::None) => true,
        (Option::Some(AuthorField::Str(x)), Option::Some(AuthorField::Str(y))) => x@ == y@,
        (Option::Some(AuthorField::Obj), Option::Some(AuthorField::Obj)) => true,
        _ => false,
    }
}

/// The two repository models carry the same information.
pub open spec fn repositories_agree(a: Option<RepositoryField>, b: Option<RepositoryField>) -> bool {
    match (a, b) {
        (Option::None, Option::None) => true,
        (Option::Some(RepositoryField::Str(x)), Option::Some(RepositoryField::Str(y))) => x@ == y@,
        (
            Option::Some(RepositoryField::Obj { url: x }),
            Option::Some(RepositoryField::Obj { url: y }),
        ) => opt_str_view(x) == opt_str_view(y),
        _ => false,
    }
}

/// The two manifest documents carry the same information.
pub open spec fn docs_agree(a: ManifestDoc, b: ManifestDoc) -> bool {
    &&& opt_str_view(a.name) == opt_str_view(b.name)
    &&& opt_str_view(a.version) == opt_str_view(b.version)
    &&& opt_str_view(a.description) == opt_str_view(b.description)
    &&& authors_agree(a.author, b.author)
    &&& opt_str_view(a.license) == opt_str_view(b.license)
    &&& repositories_agree(a.repository, b.repository)
    &&& opt_str_view(a.homepage) == opt_str_view(b.homepage)
    &&& a.keywords.deep_view() == b.keywords.deep_view()
    &&& a.script_names.deep_view() == b.script_names.deep_view()
}

pub open spec fn auto_includes_agree(a: AutoIncludes, b: AutoIncludes) -> bool {
    auto_includes_view(a) == auto_includes_view(b)
}

/// The two package descriptors carry the same information in every field.
pub open spec fn packages_agree(a: PackageInfo, b: PackageInfo) -> bool {
    &&& a.true_name@ == b.true_name@
    &&& opt_version_view(a.true_version) == opt_version_view(b.true_version)
    &&& a.name@ == b.name@
    &&& opt_str_view(a.npm_scope) == opt_str_view(b.npm_scope)
    &&& opt_version_view(a.version) == opt_version_view(b.version)
    &&& a.manifest_path@ == b.manifest_path@
    &&& opt_path_view(a.dist_manifest_path) == opt_path_view(b.dist_manifest_path)
    &&& a.package_root@ == b.package_root@
    &&& opt_str_view(a.description) == opt_str_view(b.description)
    &&& a.authors.deep_view() == b.authors.deep_view()
    &&& opt_str_view(a.license) == opt_str_view(b.license)
    &&& a.publish == b.publish
    &&& opt_str_view(a.repository_url) == opt_str_view(b.repository_url)
    &&& opt_str_view(a.homepage_url) == opt_str_view(b.homepage_url)
    &&& match (a.keywords, b.keywords) {
        (Option::None, Option::None) => true,
        (Option::Some(x), Option::Some(y)) => x.deep_view() == y.deep_view(),
        _ => false,
    }
    &&& opt_str_view(a.documentation_url) == opt_str_view(b.documentation_url)
    &&& opt_path_view(a.readme_file) == opt_path_view(b.readme_file)
    &&& paths_view(a.license_files@) == paths_view(b.license_files@)
    &&& opt_path_view(a.changelog_file) == opt_path_view(b.changelog_file)
    &&& a.binaries.deep_view() == b.binaries.deep_view()
    &&& a.cdylibs.deep_view() == b.cdylibs.deep_view()
    &&& a.cstaticlibs.deep_view() == b.cstaticlibs.deep_view()
    &&& match (a.build_command, b.build_command) {
        (Option::None, Option::None) => true,
        (Option::Some(x), Option::Some(y)) => x.deep_view() == y.deep_view(),
        _ => false,
    }
    &&& a.dist == b.dist
}

/// The two workspace descriptors carry the same information.
pub open spec fn workspaces_agree(a: WorkspaceInfo, b: WorkspaceInfo) -> bool {
    &&& a.kind == b.kind
    &&& a.target_dir@ == b.target_dir@
    &&& a.workspace_dir@ == b.workspace_dir@
    &&& a.manifest_path@ == b.manifest_path@
    &&& opt_path_view(a.dist_manifest_path) == opt_path_view(b.dist_manifest_path)
    &&& auto_includes_agree(a.root_auto_includes, b.root_auto_includes)
}

/// The two workspace structures carry the same information.
pub open spec fn structures_agree(a: WorkspaceStructure, b: WorkspaceStructure) -> bool {
    &&& a.sub_workspaces@.len() == b.sub_workspaces@.len()
    &&& forall|i: int|
        0 <= i < a.sub_workspaces@.len() ==> workspaces_agree(
            #[trigger] a.sub_workspaces@[i],
            b.sub_workspaces@[i],
        )
    &&& a.packages@.len() == b.packages@.len()
    &&& forall|i: int|
        0 <= i < a.packages@.len() ==> packages_agree(#[trigger] a.packages@[i], b.packages@[i])
    &&& workspaces_agree(a.workspace, b.workspace)
}

/// The two failure causes carry the same information.
pub open spec fn errors_agree(a: JsError, b: JsError) -> bool {
    match (a, b) {
        (
            JsError::ManifestParse { manifest_path: p1, details: d1 },
            JsError::ManifestParse { manifest_path: p2, details: d2 },
        ) => p1@ == p2@ && d1@ == d2@,
        (
            JsError::NamelessNpmPackage { manifest: p1 },
            JsError::NamelessNpmPackage { manifest: p2 },
        ) => p1@ == p2@,
        (
            JsError::BuildInfoParse { manifest_path: p1, details: d1 },
            JsError::BuildInfoParse { manifest_path: p2, details: d2 },
        ) => p1@ == p2@ && d1@ == d2@,
        (
            JsError::PackageManifestNotFound { file_name: f1, start_dir: s1, clamp_to_dir: c1 },
            JsError::PackageManifestNotFound { file_name: f2, start_dir: s2, clamp_to_dir: c2 },
        ) => f1@ == f2@ && s1@ == s2@ && opt_path_view(c1) == opt_path_view(c2),
        _ => false,
    }
}

/// Fills the descriptor's auxiliary-file fields from the scanned
/// auto-includes, taking each scanned file only where the descriptor does
/// not already name one.  Every other field is left untouched.
pub fn merge_auto_includes(info: &mut PackageInfo, auto_includes: &AutoIncludes)
    ensures
        opt_path_view(final(info).readme_file) == (if old(info).readme_file is Some {
            opt_path_view(old(info).readme_file)
        } else {
            opt_path_view(auto_includes.readme)
        }),
        paths_view(final(info).license_files@) == (if old(info).license_files@.len() > 0 {
            paths_view(old(info).license_files@)
        } else {
            paths_view(auto_includes.licenses@)
        }),
        opt_path_view(final(info).changelog_file) == (if old(info).changelog_file is Some {
            opt_path_view(old(info).changelog_file)
        } else {
            opt_path_view(auto_includes.changelog)
        }),
        final(info).true_name == old(info).true_name,
        final(info).true_version == old(info).true_version,
        final(info).name == old(info).name,
        final(info).npm_scope == old(info).npm_scope,
        final(info).version == old(info).version,
        final(info).manifest_path == old(info).manifest_path,
        final(info).dist_manifest_path == old(info).dist_manifest_path,
        final(info).package_root == old(info).package_root,
        final(info).description == old(info).description,
        final(info).authors == old(info).authors,
        final(info).license == old(info).license,
        final(info).publish == old(info).publish,
        final(info).repository_url == old(info).repository_url,
        final(info).homepage_url == old(info).homepage_url,
        final(info).keywords == old(info).keywords,
        final(info).documentation_url == old(info).documentation_url,
        final(info).binaries == old(info).binaries,
        final(info).cdylibs == old(info).cdylibs,
        final(info).cstaticlibs == old(info).cstaticlibs,
        final(info).build_command == old(info).build_command,
        final(info).dist == old(info).dist,
{
    if info.readme_file.is_none() {
        info.readme_file = clone_opt_path(&auto_includes.readme);
    }
    if info.license_files.len() == 0 {
        info.license_files = clone_paths(&auto_includes.licenses);
    }
    if info.changelog_file.is_none() {
        info.changelog_file = clone_opt_path(&auto_includes.changelog);
    }
}

/// Copies an optional path; the copy names the same directory.
pub fn clone_opt_path(o: &Option<JsPath>) -> (r: Option<JsPath>)
    ensures
        opt_path_view(r) == opt_path_view(*o),
{
    match o {
        Option::None => Option::None,
        Option::Some(p) => Option::Some(p.clone()),
    }
}

/// Copies a path list; the copies name the same directories.
pub fn clone_paths(v: &Vec<JsPath>) -> (r: Vec<JsPath>)
    ensures
        paths_view(r@) == paths_view(v@),
{
    let mut r: Vec<JsPath> = Vec::new();
    let mut i: usize = 0;
    while i < v.len()
        invariant
            i <= v@.len(),
            r@.len() == i,
            forall|k: int| 0 <= k < i ==> r@[k]@ == v@[k]@,
        decreases v@.len() - i,
    {
        r.push(v[i].clone());
        i += 1;
    }
    proof {
        assert(paths_view(r@) =~= paths_view(v@));
    }
    r
}

/// Copies an optional string; the copy equals the original.
pub fn clone_opt_string(o: &Option<String>) -> (r: Option<String>)
    ensures
        r == *o,
{
    match o {
        Option::None => Option::None,
        Option::Some(s) => Option::Some(s.clone()),
    }
}

/// Copies a string list; each copy equals the original.
pub fn clone_strings(v: &Vec<String>) -> (r: Vec<String>)
    ensures
        r@ == v@,
{
    let mut r: Vec<String> = Vec::new();
    let mut i: usize = 0;
    while i < v.len()
        invariant
            i <= v@.len(),
            r@.len() == i,
            forall|k: int| 0 <= k < i ==> r@[k] == v@[k],
        decreases v@.len() - i,
    {
        r.push(v[i].clone());
        i += 1;
    }
    proof {
        assert(r@ =~= v@);
    }
    r
}

} // verus!
