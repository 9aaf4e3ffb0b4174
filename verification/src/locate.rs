//! The manifest locator: an upward walk through the ancestry of a start
//! directory, bounded below by the start directory and above by an
//! optional clamp directory.
//!
//! The walk is driven against a list of directories known to hold a
//! manifest (gathered by whoever stats the filesystem); the locator itself
//! decides which of them wins.  A directory is eligible when it is the
//! start directory or one of its ancestors and, if a clamp is given, the
//! clamp directory or one of its descendants.  The nearest eligible
//! directory — the one with the most components — wins.

use vstd::prelude::*;

use crate::model::JsError;
use crate::path::{
    is_prefix_of, lemma_prefix_drop_last, lemma_prefix_full, lemma_prefix_refl, JsPath,
};

verus! {

/// The view of an optional clamp directory.
pub open spec fn clamp_view(c: Option<&JsPath>) -> Option<Seq<Seq<char>>> {
    match c {
        Option::None => Option::None,
        Option::Some(p) => Option::Some(p@),
    }
}

/// Whether the walk may search `d`: an ancestor-or-self of the start
/// directory that does not lie outside the clamp.
pub open spec fn eligible_dir(
    d: Seq<Seq<char>>,
    start: Seq<Seq<char>>,
    clamp: Option<Seq<Seq<char>>>,
) -> bool {
    is_prefix_of(d, start) && match clamp {
        Option::None => true,
        Option::Some(c) => is_prefix_of(c, d),
    }
}

/// None of the listed directories may be searched.
pub open spec fn no_eligible_dir(
    dirs: Seq<Seq<Seq<char>>>,
    start: Seq<Seq<char>>,
    clamp: Option<Seq<Seq<char>>>,
) -> bool {
    forall|j: int| 0 <= j < dirs.len() ==> !eligible_dir(#[trigger] dirs[j], start, clamp)
}

/// The index of the nearest eligible directory in `dirs`, walking from the
/// start directory upward; `None` when no listed directory may be
/// searched.
pub(crate) fn locate_index(
    start_dir: &JsPath,
    clamp_to_dir: Option<&JsPath>,
    dirs: &Vec<JsPath>,
) -> (r: Option<usize>)
    ensures
        match r {
            Some(i) => {
                &&& i < dirs@.len()
                &&& eligible_dir(dirs@[i as int]@, start_dir@, clamp_view(clamp_to_dir))
                &&& forall|j: int|
                    0 <= j < dirs@.len() && eligible_dir(
                        #[trigger] dirs@[j]@,
                        start_dir@,
                        clamp_view(clamp_to_dir),
                    ) ==> dirs@[j]@.len() <= dirs@[i as int]@.len()
            },
            None => no_eligible_dir(
                dirs@.map_values(|p: JsPath| p@),
                start_dir@,
                clamp_view(clamp_to_dir),
            ),
        },
{
    let ghost start = start_dir@;
    let ghost clamp = clamp_view(clamp_to_dir);
    let mut cur: JsPath = start_dir.clone();
    proof {
        lemma_prefix_refl(start);
    }
    loop
        invariant
            is_prefix_of(cur@, start),
            clamp == clamp_view(clamp_to_dir),
            start == start_dir@,
            forall|j: int|
                0 <= j < dirs@.len() && eligible_dir(#[trigger] dirs@[j]@, start, clamp)
                    ==> is_prefix_of(dirs@[j]@, cur@),
        decreases cur@.len(),
    {
        if let Some(c) = clamp_to_dir {
            if !cur.starts_with(c) {
                proof {
                    assert forall|j: int|
                        0 <= j < dirs@.len() implies !eligible_dir(
                        #[trigger] dirs@[j]@,
                        start,
                        clamp,
                    ) by {
                        if eligible_dir(dirs@[j]@, start, clamp) {
                            crate::path::lemma_prefix_trans(c@, dirs@[j]@, cur@);
                        }
                    }
                    assert(no_eligible_dir(dirs@.map_values(|p: JsPath| p@), start, clamp));
                }
                return None;
            }
        }
        let mut i: usize = 0;
        while i < dirs.len()
            invariant
                i <= dirs@.len(),
                forall|k: int| 0 <= k < i ==> dirs@[k]@ != cur@,
                is_prefix_of(cur@, start),
                start == start_dir@,
                clamp == clamp_view(clamp_to_dir),
                match clamp {
                    Option::Some(cv) => is_prefix_of(cv, cur@),
                    Option::None => true,
                },
                forall|j: int|
                    0 <= j < dirs@.len() && eligible_dir(#[trigger] dirs@[j]@, start, clamp)
                        ==> is_prefix_of(dirs@[j]@, cur@),
            decreases dirs@.len() - i,
        {
            if dirs[i].same_path(&cur) {
                proof {
                    assert(eligible_dir(dirs@[i as int]@, start, clamp));
                    assert forall|j: int|
                        0 <= j < dirs@.len() && eligible_dir(
                            #[trigger] dirs@[j]@,
                            start,
                            clamp,
                        ) implies dirs@[j]@.len() <= dirs@[i as int]@.len() by {}
                }
                return Some(i);
            }
            i += 1;
        }
        // No listed directory equals the current one; anything eligible is
        // a proper ancestor of it.
        match cur.parent() {
            None => {
                proof {
                    assert forall|j: int|
                        0 <= j < dirs@.len() implies !eligible_dir(
                        #[trigger] dirs@[j]@,
                        start,
                        clamp,
                    ) by {
                        if eligible_dir(dirs@[j]@, start, clamp) {
                            lemma_prefix_full(dirs@[j]@, cur@);
                        }
                    }
                    assert(no_eligible_dir(dirs@.map_values(|p: JsPath| p@), start, clamp));
                }
                return None;
            },
            Some(p) => {
                proof {
                    assert(is_prefix_of(p@, cur@)) by {
                        assert(p@ =~= cur@.take(p@.len() as int));
                    }
                    crate::path::lemma_prefix_trans(p@, cur@, start);
                    assert forall|j: int|
                        0 <= j < dirs@.len() && eligible_dir(
                            #[trigger] dirs@[j]@,
                            start,
                            clamp,
                        ) implies is_prefix_of(dirs@[j]@, p@) by {
                        if dirs@[j]@.len() == cur@.len() {
                            lemma_prefix_full(dirs@[j]@, cur@);
                        } else {
                            lemma_prefix_drop_last(dirs@[j]@, cur@);
                        }
                    }
                }
                cur = p;
            },
        }
    }
}

/// Finds the manifest governing the start directory: the `package.json`
/// of the nearest eligible directory among those known to hold one.  A
/// manifest nearer the start directory always wins over a more distant
/// one, and with a clamp no manifest strictly above the clamp directory
/// is ever returned.
pub fn workspace_manifest(
    start_dir: &JsPath,
    clamp_to_dir: Option<&JsPath>,
    manifest_dirs: &Vec<JsPath>,
) -> (r: Result<JsPath, JsError>)
    ensures
        match r {
            Ok(m) => exists|i: int|
                {
                    &&& 0 <= i < manifest_dirs@.len()
                    &&& eligible_dir(
                        #[trigger] manifest_dirs@[i]@,
                        start_dir@,
                        clamp_view(clamp_to_dir),
                    )
                    &&& m@ == manifest_dirs@[i]@.push("package.json"@)
                    &&& forall|j: int|
                        0 <= j < manifest_dirs@.len() && eligible_dir(
                            #[trigger] manifest_dirs@[j]@,
                            start_dir@,
                            clamp_view(clamp_to_dir),
                        ) ==> manifest_dirs@[j]@.len() <= manifest_dirs@[i]@.len()
                },
            Err(e) => {
                &&& no_eligible_dir(
                    manifest_dirs@.map_values(|p: JsPath| p@),
                    start_dir@,
                    clamp_view(clamp_to_dir),
                )
                &&& e matches JsError::PackageManifestNotFound {
                    file_name,
                    start_dir: s,
                    clamp_to_dir: c,
                } && file_name@ == "package.json"@ && s@ == start_dir@ && crate::model::opt_path_view(
                    c,
                ) == clamp_view(clamp_to_dir)
            },
        },
{
    match locate_index(start_dir, clamp_to_dir, manifest_dirs) {
        Some(i) => {
            let m = manifest_dirs[i].join("package.json");
            proof {
                assert(0 <= i < manifest_dirs@.len() && eligible_dir(
                    manifest_dirs@[i as int]@,
                    start_dir@,
                    clamp_view(clamp_to_dir),
                ) && m@ == manifest_dirs@[i as int]@.push("package.json"@));
            }
            Ok(m)
        },
        None => {
            let clamp_copy: Option<JsPath> = match clamp_to_dir {
                None => None,
                Some(c) => Some(c.clone()),
            };
            Err(JsError::PackageManifestNotFound {
                file_name: String::from_str("package.json"),
                start_dir: start_dir.clone(),
                clamp_to_dir: clamp_copy,
            })
        },
    }
}

} // verus!
