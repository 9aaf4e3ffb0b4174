//! The package normalizer: turns one located manifest, its companion
//! binary-declaration view, and the scanned auto-includes into a package
//! descriptor wrapped in a single-package workspace structure.
//!
//! Hard failures — an unparseable manifest, a missing name, an
//! unparseable binary view — abort with a typed cause.  Everything else
//! (an unparseable repository shorthand, a structured author object, an
//! empty keyword list) degrades to an absent or empty field.

use vstd::prelude::*;

use crate::model::{
    auto_includes_agree, authors_agree, clone_opt_string, clone_opt_path, clone_paths,
    clone_strings, docs_agree, errors_agree, opt_path_view, opt_str_view, opt_version_view,
    packages_agree, paths_view, repositories_agree, structures_agree, workspaces_agree,
    AuthorField, AutoIncludes, JsError, ManifestDoc, PackageInfo, RepositoryField, Version,
    WorkspaceInfo, WorkspaceKind, WorkspaceStructure,
};
use crate::path::JsPath;
use crate::text::{contains_str, lemma_strictly_sorted_unique, sorted_dedup, strictly_sorted};

verus! {

/// The HTTPS URL, if any, that the npm repository-shorthand grammar gives
/// for a shorthand string.  The outcome depends on the string alone.
pub uninterp spec fn git_shorthand_https(s: Seq<char>) -> Option<Seq<char>>;

/// A `#semver:` committish marker standing at position `i`, matched the
/// way the shorthand grammar matches it: a `#`, then `semver` in any
/// ASCII case, then `:`.
pub open spec fn semver_committish_at(s: Seq<char>, i: int) -> bool {
    &&& 0 <= i
    &&& i + 8 <= s.len()
    &&& s[i] == '#'
    &&& (s[i + 1] == 's' || s[i + 1] == 'S')
    &&& (s[i + 2] == 'e' || s[i + 2] == 'E')
    &&& (s[i + 3] == 'm' || s[i + 3] == 'M')
    &&& (s[i + 4] == 'v' || s[i + 4] == 'V')
    &&& (s[i + 5] == 'e' || s[i + 5] == 'E')
    &&& (s[i + 6] == 'r' || s[i + 6] == 'R')
    &&& s[i + 7] == ':'
}

/// Whether a shorthand carries a `#semver:` committish marker anywhere.
/// The shorthand grammar hands what follows such a marker to a semver
/// range parser that does not return normally on every range, so the
/// resolver is never consulted on these strings.
pub open spec fn has_semver_committish(s: Seq<char>) -> bool {
    exists|i: int| semver_committish_at(s, i)
}

/// Whether the string enters the URL branch of the shorthand grammar: a
/// case-insensitive `git+` tag, or a peeked case-insensitive `git://`.
pub open spec fn git_url_entry(s: Seq<char>) -> bool {
    &&& s.len() >= 4
    &&& (s[0] == 'g' || s[0] == 'G')
    &&& (s[1] == 'i' || s[1] == 'I')
    &&& (s[2] == 't' || s[2] == 'T')
    &&& (s[3] == '+' || (s.len() >= 6 && s[3] == ':' && s[4] == '/' && s[5] == '/'))
}

/// The text the URL branch of the shorthand grammar parses as a URL:
/// after a `git+` tag when the string carries one, cut at the first `#`.
pub open spec fn url_branch_text(s: Seq<char>) -> Seq<char> {
    let u = if s.len() >= 4 && s[3] == '+' {
        s.skip(4)
    } else {
        s
    };
    match char_index(u, '#') {
        Option::Some(h) => u.take(h),
        Option::None => u,
    }
}

/// In URL text `t` whose scheme ends at `c`, an authority `://` follows
/// the scheme with no `/` after it before a `?` — so the URL's path is
/// empty.
pub open spec fn bare_remote_tail(t: Seq<char>, c: int) -> bool {
    &&& c + 2 < t.len()
    &&& t[c + 1] == '/'
    &&& t[c + 2] == '/'
    &&& forall|j: int|
        c + 3 <= j < t.len() && #[trigger] t[j] == '/' ==> exists|q: int|
            c + 3 <= q < j && #[trigger] t[q] == '?'
}

/// A remote URL with nothing of a path behind its authority: the string
/// enters the URL branch of the shorthand grammar, and in the text that
/// branch parses as a URL an authority `://` follows the scheme with no
/// `/` after it before a `?`.  On such a string with a well-known host
/// the grammar slices the URL's empty path past its first byte and does
/// not return; on every other such string it yields no HTTPS form
/// anyway, so these strings are dropped without consulting the resolver.
pub open spec fn bare_remote(s: Seq<char>) -> bool {
    &&& git_url_entry(s)
    &&& match char_index(url_branch_text(s), ':') {
        Option::Some(c) => bare_remote_tail(url_branch_text(s), c),
        Option::None => false,
    }
}

/// Relies on `oro_package_spec::GitInfo`: its `FromStr` parses the npm
/// repository shorthand grammar and its `https` method renders the hosted
/// form as an HTTPS URL (printed through the `url` crate's `Display`;
/// `https` itself asserts that the URLs it renders are well-formed, and
/// the hosted form it renders is a fixed host with the owner and repo the
/// parser admitted).  Parse and rendering read nothing but the string, so
/// the outcome is a function of the string alone.  Two input shapes are
/// left out because the grammar does not return normally on them: on a
/// `#semver:` committish it hands the rest of the string to a semver
/// range parser that does not return on every range, and on a remote URL
/// with a well-known host and nothing of a path behind the authority it
/// slices the URL's empty path past its first byte.  The caller cuts or
/// drops those strings without this call.
#[verifier::external_body]
fn resolve_git_shorthand(shorthand: &str) -> (r: Option<String>)
    requires
        !has_semver_committish(shorthand@),
        !bare_remote(shorthand@),
    ensures
        match git_shorthand_https(shorthand@) {
            Option::Some(u) => r matches Some(x) && x@ == u,
            Option::None => r is None,
        },
{
    let info: Result<oro_package_spec::GitInfo, _> = shorthand.parse();
    info.ok().and_then(|g| g.https()).map(|u| u.to_string())
}

/// Whether the marker stands at position `i`.
fn semver_marker_at(s: &str, i: usize) -> (r: bool)
    requires
        i + 8 <= s@.len(),
        s@.len() <= usize::MAX,
    ensures
        r == semver_committish_at(s@, i as int),
{
    if s.get_char(i) != '#' {
        return false;
    }
    let c1 = s.get_char(i + 1);
    if !(c1 == 's' || c1 == 'S') {
        return false;
    }
    let c2 = s.get_char(i + 2);
    if !(c2 == 'e' || c2 == 'E') {
        return false;
    }
    let c3 = s.get_char(i + 3);
    if !(c3 == 'm' || c3 == 'M') {
        return false;
    }
    let c4 = s.get_char(i + 4);
    if !(c4 == 'v' || c4 == 'V') {
        return false;
    }
    let c5 = s.get_char(i + 5);
    if !(c5 == 'e' || c5 == 'E') {
        return false;
    }
    let c6 = s.get_char(i + 6);
    if !(c6 == 'r' || c6 == 'R') {
        return false;
    }
    s.get_char(i + 7) == ':'
}

/// Whether the shorthand carries a `#semver:` committish marker.
pub fn has_semver_marker(s: &str) -> (r: bool)
    ensures
        r == has_semver_committish(s@),
{
    let n = s.unicode_len();
    if n < 8 {
        proof {
            assert(!has_semver_committish(s@)) by {
                if has_semver_committish(s@) {
                    let i = choose|i: int| semver_committish_at(s@, i);
                }
            }
        }
        return false;
    }
    let mut i: usize = 0;
    while i < n - 7
        invariant
            n == s@.len(),
            8 <= n,
            i <= n - 7,
            forall|j: int| 0 <= j < i ==> !semver_committish_at(s@, j),
        decreases n - i,
    {
        if semver_marker_at(s, i) {
            proof {
                assert(has_semver_committish(s@));
            }
            return true;
        }
        i += 1;
    }
    proof {
        assert(!has_semver_committish(s@)) by {
            if has_semver_committish(s@) {
                let j = choose|j: int| semver_committish_at(s@, j);
                assert(j + 8 <= n);
                assert(!semver_committish_at(s@, j));
            }
        }
    }
    false
}

/// Whether the shorthand is a bare remote URL, as `bare_remote` fixes it.
pub fn is_bare_remote(s: &str) -> (r: bool)
    ensures
        r == bare_remote(s@),
{
    let n = s.unicode_len();
    if n < 4 {
        return false;
    }
    let c0 = s.get_char(0);
    let c1 = s.get_char(1);
    let c2 = s.get_char(2);
    let c3 = s.get_char(3);
    if !((c0 == 'g' || c0 == 'G') && (c1 == 'i' || c1 == 'I') && (c2 == 't' || c2 == 'T')) {
        return false;
    }
    let plus = c3 == '+';
    if !plus && !(n >= 6 && c3 == ':' && s.get_char(4) == '/' && s.get_char(5) == '/') {
        return false;
    }
    let u: &str = if plus {
        s.substring_char(4, n)
    } else {
        s
    };
    proof {
        assert(git_url_entry(s@));
        if plus {
            assert(u@ =~= s@.skip(4));
        }
        assert(u@ == (if s@.len() >= 4 && s@[3] == '+' {
            s@.skip(4)
        } else {
            s@
        }));
    }
    let t: &str = match find_char(u, '#') {
        Some(h) => {
            let cut = u.substring_char(0, h);
            proof {
                assert(cut@ =~= u@.take(h as int));
            }
            cut
        },
        None => u,
    };
    proof {
        assert(t@ == url_branch_text(s@));
    }
    let m = match find_char(t, ':') {
        None => {
            return false;
        },
        Some(c) => c,
    };
    let tn = t.unicode_len();
    if tn - m <= 2 {
        return false;
    }
    if !(t.get_char(m + 1) == '/' && t.get_char(m + 2) == '/') {
        return false;
    }
    let mut j = m + 3;
    let mut seen = false;
    while j < tn
        invariant
            m + 2 < tn,
            m + 3 <= j <= tn,
            tn == t@.len(),
            t@ == url_branch_text(s@),
            git_url_entry(s@),
            char_index(t@, ':') == Option::Some(m as int),
            t@[m + 1] == '/',
            t@[m + 2] == '/',
            seen == exists|q: int| m + 3 <= q < j && t@[q] == '?',
            forall|p: int|
                m + 3 <= p < j && t@[p] == '/' ==> exists|q: int| m + 3 <= q < p && t@[q] == '?',
        decreases tn - j,
    {
        let ch = t.get_char(j);
        proof {
            assert(t@[j as int] == ch);
        }
        if ch == '?' {
            seen = true;
        } else {
            if ch == '/' && !seen {
                proof {
                    assert(!bare_remote(s@)) by {
                        if bare_remote(s@) {
                            assert(bare_remote_tail(t@, m as int));
                            assert(t@[j as int] == '/');
                            assert(exists|q: int| m + 3 <= q < j && t@[q] == '?');
                        }
                    }
                }
                return false;
            }
            proof {
                assert((exists|q: int| m + 3 <= q < j + 1 && t@[q] == '?') == (exists|q: int|
                    m + 3 <= q < j && t@[q] == '?')) by {
                    if exists|q: int| m + 3 <= q < j + 1 && t@[q] == '?' {
                        let q = choose|q: int| m + 3 <= q < j + 1 && t@[q] == '?';
                        assert(q != j);
                    }
                }
            }
        }
        j += 1;
    }
    proof {
        assert(bare_remote_tail(t@, m as int)) by {
            assert forall|p: int|
                m + 3 <= p < t@.len() && #[trigger] t@[p] == '/' implies exists|q: int|
                m + 3 <= q < p && #[trigger] t@[q] == '?' by {
                assert(exists|q: int| m + 3 <= q < p && t@[q] == '?');
            }
        }
        assert(bare_remote(s@));
    }
    true
}

/// The string handed to the shorthand resolver: a shorthand carrying a
/// `#semver:` marker is cut at its first `#`.  The grammar reads the cut
/// part the same way, and a committish never shows in the HTTPS form, so
/// the cut loses nothing of the rendered URL and keeps the range parser,
/// which does not return normally on every range, out of reach.
pub open spec fn resolver_query(m: Seq<char>) -> Seq<char> {
    if has_semver_committish(m) {
        match char_index(m, '#') {
            Option::Some(h) => m.take(h),
            Option::None => m,
        }
    } else {
        m
    }
}

/// The position of the first `/` in a name, if any.
pub open spec fn char_index(s: Seq<char>, c: char) -> Option<int>
    decreases s.len(),
{
    if s.len() == 0 {
        Option::None
    } else if s[0] == c {
        Option::Some(0int)
    } else {
        match char_index(s.drop_first(), c) {
            Option::None => Option::None,
            Option::Some(i) => Option::Some(i + 1),
        }
    }
}

/// The position of the first `/` in a name, if any.
pub open spec fn slash_index(s: Seq<char>) -> Option<int> {
    char_index(s, '/')
}

pub proof fn lemma_char_index_at(s: Seq<char>, c: char, i: int)
    requires
        0 <= i < s.len(),
        s[i] == c,
        forall|k: int| 0 <= k < i ==> s[k] != c,
    ensures
        char_index(s, c) == Option::Some(i),
    decreases s.len(),
{
    if i > 0 {
        assert(forall|k: int| 0 <= k < i - 1 ==> #[trigger] s.drop_first()[k] == s[k + 1]);
        lemma_char_index_at(s.drop_first(), c, i - 1);
    }
}

pub proof fn lemma_char_index_none(s: Seq<char>, c: char)
    requires
        forall|k: int| 0 <= k < s.len() ==> s[k] != c,
    ensures
        char_index(s, c) is None,
    decreases s.len(),
{
    if s.len() > 0 {
        assert(forall|k: int| 0 <= k < s.len() - 1 ==> #[trigger] s.drop_first()[k] == s[k + 1]);
        lemma_char_index_none(s.drop_first(), c);
    }
}

/// What the first-occurrence position means: it carries `c`, nothing
/// before it does, and absence means no `c` at all.
pub proof fn lemma_char_index_props(s: Seq<char>, c: char)
    ensures
        match char_index(s, c) {
            Option::Some(i) => 0 <= i < s.len() && s[i] == c && forall|k: int|
                0 <= k < i ==> s[k] != c,
            Option::None => forall|k: int| 0 <= k < s.len() ==> s[k] != c,
        },
    decreases s.len(),
{
    if s.len() > 0 && s[0] != c {
        lemma_char_index_props(s.drop_first(), c);
        assert(forall|k: int| 0 <= k < s.len() - 1 ==> #[trigger] s.drop_first()[k] == s[k + 1]);
        match char_index(s.drop_first(), c) {
            Option::Some(i) => {
                assert(s[i + 1] == s.drop_first()[i]);
                assert forall|k: int| 0 <= k < i + 1 implies s[k] != c by {
                    if k > 0 {
                        assert(s.drop_first()[k - 1] != c);
                    }
                }
            },
            Option::None => {
                assert forall|k: int| 0 <= k < s.len() implies s[k] != c by {
                    if k > 0 {
                        assert(s.drop_first()[k - 1] != c);
                    }
                }
            },
        }
    }
}

/// The position of the first occurrence of `c` in `s`, if any.
fn find_char(s: &str, c: char) -> (r: Option<usize>)
    ensures
        match r {
            Some(i) => i < s@.len() && char_index(s@, c) == Option::Some(i as int),
            None => char_index(s@, c) is None,
        },
{
    let n = s.unicode_len();
    let mut i: usize = 0;
    while i < n
        invariant
            i <= n,
            n == s@.len(),
            forall|k: int| 0 <= k < i ==> s@[k] != c,
        decreases n - i,
    {
        if s.get_char(i) == c {
            proof {
                lemma_char_index_at(s@, c, i as int);
            }
            return Some(i);
        }
        i += 1;
    }
    proof {
        lemma_char_index_none(s@, c);
    }
    None
}

/// The scope carried for a name split at its first `/`: the text before
/// the `/`, without the leading ecosystem sigil `@` when the name carries
/// one.
pub open spec fn scope_text(name: Seq<char>, i: int) -> Seq<char> {
    if name.len() > 0 && name[0] == '@' {
        name.subrange(1, i)
    } else {
        name.take(i)
    }
}

/// Splits a raw package name on its first `/` into an optional scope and
/// the local name; the scope is reported without its leading `@`.
pub fn split_package_name(true_name: &String) -> (r: (Option<String>, String))
    ensures
        match slash_index(true_name@) {
            Option::None => r.0 is None && r.1@ == true_name@,
            Option::Some(i) => r.0 matches Some(sc) && sc@ == scope_text(true_name@, i) && r.1@
                == true_name@.skip(i + 1),
        },
{
    let s = true_name.as_str();
    let n = s.unicode_len();
    let mut i: usize = 0;
    while i < n
        invariant
            i <= n,
            n == s@.len(),
            s@ == true_name@,
            forall|k: int| 0 <= k < i ==> s@[k] != '/',
        decreases n - i,
    {
        if s.get_char(i) == '/' {
            proof {
                lemma_char_index_at(s@, '/', i as int);
            }
            let scope = if s.get_char(0) == '@' {
                proof {
                    assert(s@[0] != '/');
                }
                s.substring_char(1, i).to_owned()
            } else {
                s.substring_char(0, i).to_owned()
            };
            let local = s.substring_char(i + 1, n).to_owned();
            proof {
                assert(scope@ =~= scope_text(true_name@, i as int));
                assert(local@ =~= true_name@.skip(i + 1));
            }
            return (Some(scope), local);
        }
        i += 1;
    }
    proof {
        lemma_char_index_none(true_name@, '/');
    }
    (None, true_name.clone())
}

/// The resolved repository URL: an explicit URL is taken as given; a
/// shorthand string resolves through the shorthand grammar — cut at its
/// first `#` when it carries a `#semver:` marker — or drops out.  A bare
/// remote URL drops out without consulting the resolver, which does not
/// return normally on it and yields no HTTPS form on its kin.
pub open spec fn repo_url_spec(repo: Option<RepositoryField>) -> Option<Seq<char>> {
    match repo {
        Option::None => Option::None,
        Option::Some(RepositoryField::Obj { url }) => opt_str_view(url),
        Option::Some(RepositoryField::Str(m)) => {
            let q = resolver_query(m@);
            if bare_remote(q) {
                Option::None
            } else {
                git_shorthand_https(q)
            }
        },
    }
}

/// The author list: a plain string author is kept; a structured author
/// object or no author at all yields an empty list.
pub open spec fn authors_spec(author: Option<AuthorField>) -> Seq<Seq<char>> {
    match author {
        Option::Some(AuthorField::Str(s)) => seq![s@],
        _ => Seq::empty(),
    }
}

/// The inferred build command: declaring a script named `dist` yields the
/// ecosystem's script runner (with the platform's program extension)
/// invoked as `run dist`; otherwise there is none.
pub open spec fn build_command_spec(script_names: Seq<Seq<char>>, ext: Seq<char>) -> Option<
    Seq<Seq<char>>,
> {
    if script_names.contains("dist"@) {
        Option::Some(seq!["npm"@ + ext, "run"@, "dist"@])
    } else {
        Option::None
    }
}

/// What the normalized package descriptor holds, field by field, given
/// the manifest document, the (multi)set of declared binary names, the
/// scanned auto-includes and the platform's program extension.
pub open spec fn normalized_package(
    path_v: Seq<Seq<char>>,
    doc: ManifestDoc,
    bins: Seq<Seq<char>>,
    auto: AutoIncludes,
    ext: Seq<char>,
    p: PackageInfo,
) -> bool {
    match doc.name {
        Option::None => false,
        Option::Some(tn) => {
            let root = path_v.drop_last();
            &&& p.true_name@ == tn@
            &&& match slash_index(tn@) {
                Option::None => p.npm_scope is None && p.name@ == tn@,
                Option::Some(i) => match p.npm_scope {
                    Option::Some(sc) => sc@ == scope_text(tn@, i) && p.name@ == tn@.skip(i + 1),
                    Option::None => false,
                },
            }
            &&& opt_version_view(p.version) == opt_str_view(doc.version)
            &&& opt_version_view(p.true_version) == opt_str_view(doc.version)
            &&& p.manifest_path@ == path_v
            &&& p.dist_manifest_path is None
            &&& p.package_root@ == root
            &&& opt_str_view(p.description) == opt_str_view(doc.description)
            &&& p.authors.deep_view() == authors_spec(doc.author)
            &&& opt_str_view(p.license) == opt_str_view(doc.license)
            &&& p.publish == true
            &&& opt_str_view(p.repository_url) == repo_url_spec(doc.repository)
            &&& opt_str_view(p.homepage_url) == opt_str_view(doc.homepage)
            &&& match p.keywords {
                Option::None => doc.keywords@.len() == 0,
                Option::Some(ks) => doc.keywords@.len() > 0 && ks.deep_view()
                    == doc.keywords.deep_view(),
            }
            &&& p.documentation_url is None
            &&& opt_path_view(p.readme_file) == opt_path_view(auto.readme)
            &&& paths_view(p.license_files@) == paths_view(auto.licenses@)
            &&& opt_path_view(p.changelog_file) == opt_path_view(auto.changelog)
            &&& strictly_sorted(p.binaries.deep_view())
            &&& forall|e: Seq<char>| p.binaries.deep_view().contains(e) == bins.contains(e)
            &&& p.cdylibs@.len() == 0
            &&& p.cstaticlibs@.len() == 0
            &&& match build_command_spec(doc.script_names.deep_view(), ext) {
                Option::None => p.build_command is None,
                Option::Some(c) => match p.build_command {
                    Option::Some(cmd) => cmd.deep_view() == c,
                    Option::None => false,
                },
            }
            &&& p.dist is None
        },
    }
}

/// What the normalized workspace structure holds: exactly one package,
/// no sub-workspaces, and a workspace descriptor rooted at the manifest's
/// directory with `node_modules` as the presumed build-output target.
pub open spec fn normalized_structure(
    path_v: Seq<Seq<char>>,
    doc: ManifestDoc,
    bins: Seq<Seq<char>>,
    auto: AutoIncludes,
    ext: Seq<char>,
    w: WorkspaceStructure,
) -> bool {
    let root = path_v.drop_last();
    &&& w.sub_workspaces@.len() == 0
    &&& w.packages@.len() == 1
    &&& normalized_package(path_v, doc, bins, auto, ext, w.packages@[0])
    &&& w.workspace.kind == WorkspaceKind::Javascript
    &&& w.workspace.workspace_dir@ == root
    &&& w.workspace.target_dir@ == root.push("node_modules"@)
    &&& w.workspace.manifest_path@ == path_v
    &&& w.workspace.dist_manifest_path is None
    &&& auto_includes_agree(w.workspace.root_auto_includes, auto)
}

/// The whole outcome of normalization: which hard failure is returned on
/// which input, and what the structure holds on success.
pub open spec fn normalize_post(
    path_v: Seq<Seq<char>>,
    manifest: Result<ManifestDoc, String>,
    bins: Result<Vec<String>, String>,
    auto: AutoIncludes,
    ext: Seq<char>,
    r: Result<WorkspaceStructure, JsError>,
) -> bool {
    match manifest {
        Result::Err(d) => match r {
            Result::Err(JsError::ManifestParse { manifest_path, details }) => manifest_path@
                == path_v && details@ == d@,
            _ => false,
        },
        Result::Ok(doc) => match doc.name {
            Option::None => match r {
                Result::Err(JsError::NamelessNpmPackage { manifest }) => manifest@ == path_v,
                _ => false,
            },
            Option::Some(_) => match bins {
                Result::Err(d) => match r {
                    Result::Err(JsError::BuildInfoParse { manifest_path, details }) => manifest_path@
                        == path_v && details@ == d@,
                    _ => false,
                },
                Result::Ok(b) => match r {
                    Result::Ok(w) => normalized_structure(path_v, doc, b.deep_view(), auto, ext, w),
                    _ => false,
                },
            },
        },
    }
}

/// Copies the scanned auto-includes.
fn clone_auto_includes(a: &AutoIncludes) -> (r: AutoIncludes)
    ensures
        auto_includes_agree(r, *a),
{
    AutoIncludes {
        readme: clone_opt_path(&a.readme),
        licenses: clone_paths(&a.licenses),
        changelog: clone_opt_path(&a.changelog),
    }
}

/// Resolves the manifest's repository field to a URL, if it has one that
/// resolves.
fn resolve_repository(repo: &Option<RepositoryField>) -> (r: Option<String>)
    ensures
        opt_str_view(r) == repo_url_spec(*repo),
{
    match repo {
        Option::None => None,
        Option::Some(RepositoryField::Obj { url }) => clone_opt_string(url),
        Option::Some(RepositoryField::Str(m)) => {
            let ms = m.as_str();
            let query: &str = if has_semver_marker(ms) {
                match find_char(ms, '#') {
                    Some(h) => {
                        let cut = ms.substring_char(0, h);
                        proof {
                            assert(cut@ =~= m@.take(h as int));
                            lemma_char_index_props(m@, '#');
                            assert(!has_semver_committish(cut@)) by {
                                if has_semver_committish(cut@) {
                                    let i = choose|i: int| semver_committish_at(cut@, i);
                                    assert(cut@[i] == m@[i]);
                                }
                            }
                        }
                        cut
                    },
                    None => {
                        proof {
                            lemma_char_index_props(m@, '#');
                            let i = choose|i: int| semver_committish_at(m@, i);
                            assert(m@[i] == '#');
                        }
                        ms
                    },
                }
            } else {
                ms
            };
            proof {
                assert(query@ == resolver_query(m@));
            }
            if is_bare_remote(query) {
                None
            } else {
                resolve_git_shorthand(query)
            }
        },
    }
}

/// Normalizes one located manifest into a package descriptor inside a
/// single-package workspace structure, or fails with the cause that
/// `normalize_post` fixes for the inputs.
pub fn read_workspace(
    manifest_path: &JsPath,
    manifest: &Result<ManifestDoc, String>,
    build_bins: &Result<Vec<String>, String>,
    auto_includes: &AutoIncludes,
    program_ext: &str,
) -> (r: Result<WorkspaceStructure, JsError>)
    requires
        manifest_path@.len() >= 1,
    ensures
        normalize_post(manifest_path@, *manifest, *build_bins, *auto_includes, program_ext@, r),
{
    let root = match manifest_path.parent() {
        Some(p) => p,
        None => {
            proof {
                assert(false);
            }
            JsPath::root()
        },
    };
    let doc = match manifest {
        Err(d) => {
            return Err(JsError::ManifestParse {
                manifest_path: manifest_path.clone(),
                details: d.clone(),
            });
        },
        Ok(doc) => doc,
    };
    let true_name = match &doc.name {
        None => {
            return Err(JsError::NamelessNpmPackage { manifest: manifest_path.clone() });
        },
        Some(n) => n.clone(),
    };
    let bin_names = match build_bins {
        Err(d) => {
            return Err(JsError::BuildInfoParse {
                manifest_path: manifest_path.clone(),
                details: d.clone(),
            });
        },
        Ok(b) => b,
    };
    let binaries = sorted_dedup(bin_names);
    let (npm_scope, name) = split_package_name(&true_name);
    let version = match &doc.version {
        None => None,
        Some(v) => Some(Version::Npm(v.clone())),
    };
    let true_version = match &doc.version {
        None => None,
        Some(v) => Some(Version::Npm(v.clone())),
    };
    let authors: Vec<String> = match &doc.author {
        Some(AuthorField::Str(s)) => {
            let mut v: Vec<String> = Vec::new();
            v.push(s.clone());
            proof {
                assert(v.deep_view() =~= authors_spec(doc.author));
            }
            v
        },
        _ => {
            let v: Vec<String> = Vec::new();
            proof {
                assert(v.deep_view() =~= authors_spec(doc.author));
            }
            v
        },
    };
    let repository_url = resolve_repository(&doc.repository);
    let keywords = if doc.keywords.len() == 0 {
        None
    } else {
        Some(clone_strings(&doc.keywords))
    };
    let dist_key = String::from_str("dist");
    let build_command = if contains_str(&doc.script_names, &dist_key) {
        let mut prog = String::from_str("npm");
        prog.append(program_ext);
        let mut cmd: Vec<String> = Vec::new();
        cmd.push(prog);
        cmd.push(String::from_str("run"));
        cmd.push(String::from_str("dist"));
        proof {
            assert(cmd.deep_view() =~= seq!["npm"@ + program_ext@, "run"@, "dist"@]);
        }
        Some(cmd)
    } else {
        None
    };
    let target_dir = root.join("node_modules");
    let root_auto_includes = clone_auto_includes(auto_includes);
    let mut info = PackageInfo {
        true_name,
        true_version,
        name,
        npm_scope,
        version,
        manifest_path: manifest_path.clone(),
        dist_manifest_path: None,
        package_root: root.clone(),
        description: clone_opt_string(&doc.description),
        authors,
        license: clone_opt_string(&doc.license),
        publish: true,
        repository_url,
        homepage_url: clone_opt_string(&doc.homepage),
        keywords,
        documentation_url: None,
        readme_file: None,
        license_files: Vec::new(),
        changelog_file: None,
        binaries,
        cdylibs: Vec::new(),
        cstaticlibs: Vec::new(),
        build_command,
        dist: None,
    };
    crate::model::merge_auto_includes(&mut info, auto_includes);
    let mut packages: Vec<PackageInfo> = Vec::new();
    packages.push(info);
    let structure = WorkspaceStructure {
        sub_workspaces: Vec::new(),
        packages,
        workspace: WorkspaceInfo {
            kind: WorkspaceKind::Javascript,
            target_dir,
            workspace_dir: root,
            manifest_path: manifest_path.clone(),
            dist_manifest_path: None,
            root_auto_includes,
        },
    };
    Ok(structure)
}

} // verus!
