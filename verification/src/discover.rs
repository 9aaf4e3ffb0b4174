//! The discovery entry point: locate the governing manifest, normalize
//! it, and report one of three outcomes — a workspace was found, a
//! manifest was found but is broken, or no manifest exists in bounds.

use vstd::prelude::*;

use crate::locate::{clamp_view, eligible_dir, locate_index, no_eligible_dir};
use crate::model::{opt_path_view, FsEntry, JsError, WorkspaceSearch};
use crate::normalize::{normalize_post, read_workspace};
use crate::path::JsPath;

verus! {

/// What a search outcome must hold for the winning manifest directory:
/// `Found` carries a structure that normalization fixes for the entry's
/// loaded views, `Broken` carries the manifest's path beside the cause
/// normalization fixes, and `Missing` never stands for a winner.
pub open spec fn search_post(entry: FsEntry, ext: Seq<char>, r: WorkspaceSearch) -> bool {
    let path_v = entry.dir@.push("package.json"@);
    match r {
        WorkspaceSearch::Found(w) => normalize_post(
            path_v,
            entry.manifest,
            entry.build_bins,
            entry.auto_includes,
            ext,
            Result::Ok(w),
        ),
        WorkspaceSearch::Broken { manifest_path, cause } => manifest_path@ == path_v
            && normalize_post(
            path_v,
            entry.manifest,
            entry.build_bins,
            entry.auto_includes,
            ext,
            Result::Err(cause),
        ),
        WorkspaceSearch::Missing(_) => false,
    }
}

/// The cause reported when no manifest lies within the search bounds.
pub open spec fn missing_post(
    start: Seq<Seq<char>>,
    clamp: Option<Seq<Seq<char>>>,
    r: WorkspaceSearch,
) -> bool {
    match r {
        WorkspaceSearch::Missing(e) => match e {
            JsError::PackageManifestNotFound { file_name, start_dir, clamp_to_dir } => file_name@
                == "package.json"@ && start_dir@ == start && opt_path_view(clamp_to_dir) == clamp,
            _ => false,
        },
        _ => false,
    }
}

/// Searches for an npm workspace governing `start_dir`, walking up its
/// ancestry no further than `clamp_to_dir`.  `entries` lists the
/// directories known to hold a `package.json`, each with its two loaded
/// manifest views and its scanned auto-includes; the nearest eligible
/// one governs.
pub fn get_workspace(
    start_dir: &JsPath,
    clamp_to_dir: Option<&JsPath>,
    entries: &Vec<FsEntry>,
    program_ext: &str,
) -> (r: WorkspaceSearch)
    requires
        forall|i: int, j: int|
            0 <= i < j < entries@.len() ==> (#[trigger] entries@[i].dir@) != (
            #[trigger] entries@[j].dir@),
    ensures
        no_eligible_dir(
            entries@.map_values(|e: FsEntry| e.dir@),
            start_dir@,
            clamp_view(clamp_to_dir),
        ) ==> missing_post(start_dir@, clamp_view(clamp_to_dir), r),
        !no_eligible_dir(
            entries@.map_values(|e: FsEntry| e.dir@),
            start_dir@,
            clamp_view(clamp_to_dir),
        ) ==> exists|i: int|
            {
                &&& 0 <= i < entries@.len()
                &&& eligible_dir(#[trigger] entries@[i].dir@, start_dir@, clamp_view(clamp_to_dir))
                &&& forall|j: int|
                    0 <= j < entries@.len() && eligible_dir(
                        #[trigger] entries@[j].dir@,
                        start_dir@,
                        clamp_view(clamp_to_dir),
                    ) ==> entries@[j].dir@.len() <= entries@[i].dir@.len()
                &&& search_post(entries@[i], program_ext@, r)
            },
{
    let ghost dirs_v = entries@.map_values(|e: FsEntry| e.dir@);
    let mut dirs: Vec<JsPath> = Vec::new();
    let mut k: usize = 0;
    while k < entries.len()
        invariant
            k <= entries@.len(),
            dirs@.len() == k,
            forall|t: int| 0 <= t < k ==> dirs@[t]@ == entries@[t].dir@,
        decreases entries@.len() - k,
    {
        dirs.push(entries[k].dir.clone());
        k += 1;
    }
    match locate_index(start_dir, clamp_to_dir, &dirs) {
        Some(i) => {
            let entry = &entries[i];
            let manifest_path = entry.dir.join("package.json");
            let outcome = read_workspace(
                &manifest_path,
                &entry.manifest,
                &entry.build_bins,
                &entry.auto_includes,
                program_ext,
            );
            let r = match outcome {
                Ok(w) => WorkspaceSearch::Found(w),
                Err(cause) => WorkspaceSearch::Broken { manifest_path, cause },
            };
            proof {
                let ghost cv = clamp_view(clamp_to_dir);
                assert(dirs@[i as int]@ == entries@[i as int].dir@);
                assert(eligible_dir(entries@[i as int].dir@, start_dir@, cv));
                assert(!no_eligible_dir(dirs_v, start_dir@, cv)) by {
                    assert(dirs_v[i as int] == entries@[i as int].dir@);
                }
                assert forall|j: int|
                    0 <= j < entries@.len() && eligible_dir(
                        #[trigger] entries@[j].dir@,
                        start_dir@,
                        cv,
                    ) implies entries@[j].dir@.len() <= entries@[i as int].dir@.len() by {
                    assert(dirs@[j]@ == entries@[j].dir@);
                }
                assert(search_post(entries@[i as int], program_ext@, r));
                assert(exists|ii: int|
                    {
                        &&& 0 <= ii < entries@.len()
                        &&& eligible_dir(#[trigger] entries@[ii].dir@, start_dir@, cv)
                        &&& forall|j: int|
                            0 <= j < entries@.len() && eligible_dir(
                                #[trigger] entries@[j].dir@,
                                start_dir@,
                                cv,
                            ) ==> entries@[j].dir@.len() <= entries@[ii].dir@.len()
                        &&& search_post(entries@[ii], program_ext@, r)
                    }) by {
                    assert(0 <= (i as int) && (i as int) < entries@.len() && eligible_dir(
                        entries@[i as int].dir@,
                        start_dir@,
                        cv,
                    ) && (forall|j: int|
                        0 <= j < entries@.len() && eligible_dir(
                            #[trigger] entries@[j].dir@,
                            start_dir@,
                            cv,
                        ) ==> entries@[j].dir@.len() <= entries@[i as int].dir@.len())
                        && search_post(entries@[i as int], program_ext@, r));
                }
            }
            r
        },
        None => {
            proof {
                assert forall|j: int|
                    0 <= j < dirs_v.len() implies !eligible_dir(
                    #[trigger] dirs_v[j],
                    start_dir@,
                    clamp_view(clamp_to_dir),
                ) by {
                    assert(dirs@.map_values(|p: JsPath| p@)[j] == dirs@[j]@);
                    assert(dirs_v[j] == entries@[j].dir@);
                }
            }
            let clamp_copy: Option<JsPath> = match clamp_to_dir {
                None => None,
                Some(c) => Some(c.clone()),
            };
            WorkspaceSearch::Missing(JsError::PackageManifestNotFound {
                file_name: String::from_str("package.json"),
                start_dir: start_dir.clone(),
                clamp_to_dir: clamp_copy,
            })
        },
    }
}

} // verus!
