//! Laws that relate the library's functions: facts that hold of every
//! discovery outcome, stated over the same spec functions that the
//! functions' own contracts use.

use vstd::prelude::*;

use crate::discover::search_post;
use crate::model::{
    auto_includes_agree, docs_agree, errors_agree, opt_str_view, opt_version_view,
    structures_agree, AutoIncludes, FsEntry, JsError, ManifestDoc, WorkspaceSearch,
    WorkspaceStructure,
};
use crate::normalize::{
    build_command_spec, lemma_char_index_props, normalize_post, normalized_structure, slash_index,
};
use crate::text::lemma_strictly_sorted_unique;

verus! {

/// A located manifest that parses but declares no name always yields a
/// Broken outcome carrying the nameless-package cause at the manifest's
/// path — never a Missing outcome.
pub proof fn lemma_nameless_manifest_is_broken(entry: FsEntry, ext: Seq<char>, r: WorkspaceSearch)
    requires
        search_post(entry, ext, r),
        match entry.manifest {
            Result::Ok(d) => d.name is None,
            Result::Err(_) => false,
        },
    ensures
        match r {
            WorkspaceSearch::Broken { manifest_path, cause } => {
                &&& manifest_path@ == entry.dir@.push("package.json"@)
                &&& match cause {
                    JsError::NamelessNpmPackage { manifest } => manifest@ == entry.dir@.push(
                        "package.json"@,
                    ),
                    _ => false,
                }
            },
            _ => false,
        },
{
}

/// The scope is present exactly when the raw name holds a `/`; when it
/// is, the raw name re-spells as the scope — prefixed with `@` when the
/// raw name starts with one — then a `/`, then the local name, split at
/// the first `/`; when it is not, the local name is the raw name itself.
pub proof fn lemma_scope_split(
    path_v: Seq<Seq<char>>,
    doc: ManifestDoc,
    bins: Seq<Seq<char>>,
    auto: AutoIncludes,
    ext: Seq<char>,
    w: WorkspaceStructure,
)
    requires
        normalized_structure(path_v, doc, bins, auto, ext, w),
    ensures
        ({
            let p = w.packages@[0];
            &&& (p.npm_scope is Some <==> exists|k: int|
                0 <= k < p.true_name@.len() && p.true_name@[k] == '/')
            &&& match p.npm_scope {
                Option::Some(sc) => {
                    &&& (p.true_name@[0] == '@' ==> p.true_name@ == seq!['@'] + sc@ + seq!['/']
                        + p.name@)
                    &&& (p.true_name@[0] != '@' ==> p.true_name@ == sc@ + seq!['/'] + p.name@)
                },
                Option::None => p.name@ == p.true_name@,
            }
        }),
{
    let p = w.packages@[0];
    let tn = p.true_name@;
    lemma_char_index_props(tn, '/');
    match slash_index(tn) {
        Option::Some(i) => {
            assert(tn[i] == '/');
            assert(exists|k: int| 0 <= k < tn.len() && tn[k] == '/');
            match p.npm_scope {
                Option::Some(sc) => {
                    assert(p.name@ == tn.skip(i + 1));
                    if tn[0] == '@' {
                        assert(i >= 1);
                        assert(sc@ == tn.subrange(1, i));
                        assert(tn =~= seq!['@'] + sc@ + seq!['/'] + p.name@);
                    } else {
                        assert(sc@ == tn.take(i));
                        assert(tn =~= sc@ + seq!['/'] + p.name@);
                    }
                },
                Option::None => {},
            }
        },
        Option::None => {
            assert(forall|k: int| 0 <= k < tn.len() ==> tn[k] != '/');
        },
    }
}

/// A manifest that declares a script named `dist` always yields a build
/// command, and that command is the ecosystem's script runner followed
/// by `run`, `dist`.
pub proof fn lemma_dist_script_build_command(
    path_v: Seq<Seq<char>>,
    doc: ManifestDoc,
    bins: Seq<Seq<char>>,
    auto: AutoIncludes,
    ext: Seq<char>,
    w: WorkspaceStructure,
)
    requires
        normalized_structure(path_v, doc, bins, auto, ext, w),
        doc.script_names.deep_view().contains("dist"@),
    ensures
        match w.packages@[0].build_command {
            Option::Some(cmd) => {
                &&& cmd.deep_view().len() == 3
                &&& cmd.deep_view()[0] == "npm"@ + ext
                &&& cmd.deep_view()[1] == "run"@
                &&& cmd.deep_view()[2] == "dist"@
            },
            Option::None => false,
        },
{
    assert(build_command_spec(doc.script_names.deep_view(), ext) == Option::Some(
        seq!["npm"@ + ext, "run"@, "dist"@],
    ));
}

/// A manifest with an empty keyword list yields an absent keywords
/// field, never a present-but-empty list.
pub proof fn lemma_empty_keywords_absent(
    path_v: Seq<Seq<char>>,
    doc: ManifestDoc,
    bins: Seq<Seq<char>>,
    auto: AutoIncludes,
    ext: Seq<char>,
    w: WorkspaceStructure,
)
    requires
        normalized_structure(path_v, doc, bins, auto, ext, w),
        doc.keywords@.len() == 0,
    ensures
        w.packages@[0].keywords is None,
{
}

/// The binary-name list is canonical: any two normalizations whose
/// manifests declare the same set of binary names — in whatever order
/// and multiplicity — yield the very same list.
pub proof fn lemma_binaries_canonical(
    path_v1: Seq<Seq<char>>,
    path_v2: Seq<Seq<char>>,
    doc1: ManifestDoc,
    doc2: ManifestDoc,
    bins1: Seq<Seq<char>>,
    bins2: Seq<Seq<char>>,
    auto1: AutoIncludes,
    auto2: AutoIncludes,
    ext1: Seq<char>,
    ext2: Seq<char>,
    w1: WorkspaceStructure,
    w2: WorkspaceStructure,
)
    requires
        normalized_structure(path_v1, doc1, bins1, auto1, ext1, w1),
        normalized_structure(path_v2, doc2, bins2, auto2, ext2, w2),
        forall|e: Seq<char>| bins1.contains(e) == bins2.contains(e),
    ensures
        w1.packages@[0].binaries.deep_view() == w2.packages@[0].binaries.deep_view(),
{
    let d1 = w1.packages@[0].binaries.deep_view();
    let d2 = w2.packages@[0].binaries.deep_view();
    assert forall|e: Seq<char>| d1.contains(e) == d2.contains(e) by {
        assert(d1.contains(e) == bins1.contains(e));
        assert(d2.contains(e) == bins2.contains(e));
        assert(bins1.contains(e) == bins2.contains(e));
    }
    lemma_strictly_sorted_unique(d1, d2);
}

/// Normalization is deterministic: two runs over the same manifest path
/// whose loaded views carry the same contents yield outcomes equal in
/// every field.
pub proof fn lemma_normalize_deterministic(
    path_v: Seq<Seq<char>>,
    m1: Result<ManifestDoc, String>,
    m2: Result<ManifestDoc, String>,
    b1: Result<Vec<String>, String>,
    b2: Result<Vec<String>, String>,
    a1: AutoIncludes,
    a2: AutoIncludes,
    ext: Seq<char>,
    r1: Result<WorkspaceStructure, JsError>,
    r2: Result<WorkspaceStructure, JsError>,
)
    requires
        normalize_post(path_v, m1, b1, a1, ext, r1),
        normalize_post(path_v, m2, b2, a2, ext, r2),
        match (m1, m2) {
            (Result::Ok(d1), Result::Ok(d2)) => docs_agree(d1, d2),
            (Result::Err(e1), Result::Err(e2)) => e1@ == e2@,
            _ => false,
        },
        match (b1, b2) {
            (Result::Ok(x), Result::Ok(y)) => x.deep_view() == y.deep_view(),
            (Result::Err(e1), Result::Err(e2)) => e1@ == e2@,
            _ => false,
        },
        auto_includes_agree(a1, a2),
    ensures
        match (r1, r2) {
            (Result::Ok(w1), Result::Ok(w2)) => structures_agree(w1, w2),
            (Result::Err(e1), Result::Err(e2)) => errors_agree(e1, e2),
            _ => false,
        },
{
    match (m1, m2) {
        (Result::Ok(d1), Result::Ok(d2)) => {
            match (d1.name, d2.name) {
                (Option::Some(tn1), Option::Some(tn2)) => {
                    match (b1, b2) {
                        (Result::Ok(x), Result::Ok(y)) => {
                            let w1 = r1->Ok_0;
                            let w2 = r2->Ok_0;
                            let p1 = w1.packages@[0];
                            let p2 = w2.packages@[0];
                            assert(tn1@ == tn2@);
                            assert(p1.binaries.deep_view() == p2.binaries.deep_view()) by {
                                assert forall|e: Seq<char>|
                                    p1.binaries.deep_view().contains(e) == p2.binaries.deep_view()
                                        .contains(e) by {
                                    assert(p1.binaries.deep_view().contains(e) == x.deep_view()
                                        .contains(e));
                                    assert(p2.binaries.deep_view().contains(e) == y.deep_view()
                                        .contains(e));
                                }
                                lemma_strictly_sorted_unique(
                                    p1.binaries.deep_view(),
                                    p2.binaries.deep_view(),
                                );
                            }
                            assert(p1.authors.deep_view() == p2.authors.deep_view()) by {
                                match (d1.author, d2.author) {
                                    (
                                        Option::Some(crate::model::AuthorField::Str(s1)),
                                        Option::Some(crate::model::AuthorField::Str(s2)),
                                    ) => {
                                        assert(seq![s1@] =~= seq![s2@]);
                                    },
                                    _ => {},
                                }
                            }
                            assert(d1.keywords.deep_view().len() == d1.keywords@.len());
                            assert(d2.keywords.deep_view().len() == d2.keywords@.len());
                            assert(p1.cdylibs.deep_view() =~= p2.cdylibs.deep_view());
                            assert(p1.cstaticlibs.deep_view() =~= p2.cstaticlibs.deep_view());
                            assert(match (p1.build_command, p2.build_command) {
                                (Option::None, Option::None) => true,
                                (Option::Some(x1), Option::Some(y1)) => x1.deep_view()
                                    == y1.deep_view(),
                                _ => false,
                            });
                            assert(crate::model::packages_agree(p1, p2));
                            assert(crate::model::workspaces_agree(w1.workspace, w2.workspace));
                            assert(w1.packages@.len() == 1 && w2.packages@.len() == 1);
                            assert forall|i: int|
                                0 <= i < w1.packages@.len() implies crate::model::packages_agree(
                                #[trigger] w1.packages@[i],
                                w2.packages@[i],
                            ) by {
                                assert(i == 0);
                            }
                            assert(structures_agree(w1, w2));
                        },
                        _ => {},
                    }
                },
                _ => {},
            }
        },
        _ => {},
    }
}

} // verus!
