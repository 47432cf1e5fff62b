use vstd::prelude::*;

use crate::common::AppDataType;
use crate::common::AppDirsError;
use crate::common::AppInfo;
use crate::paths::join_segment;
use crate::paths::lemma_append_sanitized_prefix;
use crate::paths::lemma_join_prefix;
use crate::paths::lemma_prefix_transitive;
use crate::paths::spec_append_sanitized;
use crate::paths::spec_join;
use crate::paths::spec_segments;
use crate::paths::spec_with_path;
use crate::paths::split_segments;
use crate::paths::append_sanitized;
use crate::select::lemma_first_kept_none;
use crate::select::lemma_narrow_head;
use crate::select::lemma_narrow_membership;
use crate::select::lemma_narrow_none;
use crate::select::lemma_narrow_unique;
use crate::select::lemma_narrow_nonempty;
use crate::select::lemma_narrow_singleton;
use crate::select::narrow_candidates;
use crate::select::spec_first_kept;
use crate::select::spec_narrow;
use crate::utils::sanitized;
use crate::utils::spec_sanitize;

pub mod platform;

verus! {

/// The path below `root` where the app identified by `name` and `author`
/// keeps its data: the sanitized author segment (only on platforms whose
/// conventions use it) followed by the sanitized name segment.
pub open spec fn spec_app_path(
    root: Seq<char>,
    name: Seq<char>,
    author: Seq<char>,
    use_author: bool,
) -> Seq<char> {
    if use_author {
        spec_join(spec_join(root, spec_sanitize(author)), spec_sanitize(name))
    } else {
        spec_join(root, spec_sanitize(name))
    }
}

/// Every candidate root mapped to the app-specific directory below it,
/// order and length preserved.
pub open spec fn spec_app_paths(
    roots: Seq<Seq<char>>,
    name: Seq<char>,
    author: Seq<char>,
    use_author: bool,
) -> Seq<Seq<char>> {
    roots.map_values(|r: Seq<char>| spec_app_path(r, name, author, use_author))
}

/// Whether `path` has the shape of an app-specific directory: some root
/// with the sanitized author (where used) and sanitized name below it.
pub open spec fn spec_is_app_path(
    path: Seq<char>,
    name: Seq<char>,
    author: Seq<char>,
    use_author: bool,
) -> bool {
    exists|root: Seq<char>| path == #[trigger] spec_app_path(root, name, author, use_author)
}

/// Whether `dir` has the shape of an app-specific subdirectory: an app
/// path with the sanitized non-empty segments of `path` below it.
pub open spec fn spec_is_app_dir(
    dir: Seq<char>,
    name: Seq<char>,
    author: Seq<char>,
    use_author: bool,
    path: Seq<char>,
) -> bool {
    exists|root: Seq<char>|
        dir == spec_with_path(#[trigger] spec_app_path(root, name, author, use_author), path)
}

/// The app-scoped candidate list for given provider roots and on-disk
/// evidence: every root mapped to its app directory, then narrowed to the
/// candidates that already exist (all of them when none exists).
pub open spec fn spec_app_roots(
    roots: Seq<Seq<char>>,
    name: Seq<char>,
    author: Seq<char>,
    use_author: bool,
    flags: Seq<bool>,
) -> Seq<Seq<char>> {
    spec_narrow(spec_app_paths(roots, name, author, use_author), flags)
}

/// Maps every candidate root to the app-specific directory below it.
pub fn compose_app_paths(roots: &Vec<String>, app: &AppInfo, use_author: bool) -> (paths: Vec<
    String,
>)
    ensures
        paths.deep_view() == spec_app_paths(roots.deep_view(), app.name@, app.author@, use_author),
{
    let clean_name = sanitized(app.name);
    let clean_author = sanitized(app.author);
    let ghost rdv = roots.deep_view();
    let ghost f = |r: Seq<char>| spec_app_path(r, app.name@, app.author@, use_author);
    let mut out: Vec<String> = Vec::new();
    let mut i: usize = 0;
    proof {
        assert(out.deep_view() =~= rdv.take(0).map_values(f));
    }
    while i < roots.len()
        invariant
            i <= roots.len(),
            rdv == roots.deep_view(),
            rdv.len() == roots@.len(),
            clean_name@ == spec_sanitize(app.name@),
            clean_author@ == spec_sanitize(app.author@),
            f == (|r: Seq<char>| spec_app_path(r, app.name@, app.author@, use_author)),
            out.deep_view() == rdv.take(i as int).map_values(f),
        decreases roots.len() - i,
    {
        let ghost out0 = out.deep_view();
        let root = &roots[i];
        let path = if use_author {
            let with_author = join_segment(root.as_str(), clean_author.as_str());
            join_segment(with_author.as_str(), clean_name.as_str())
        } else {
            join_segment(root.as_str(), clean_name.as_str())
        };
        out.push(path);
        i = i + 1;
        proof {
            assert(out.deep_view() =~= out0.push(f(rdv[i - 1])));
            assert(rdv.take(i as int).map_values(f) =~= rdv.take(i - 1).map_values(f).push(
                f(rdv[i - 1]),
            ));
        }
    }
    proof {
        assert(rdv.take(rdv.len() as int) =~= rdv);
    }
    out
}

/// Relies on `std::path::Path::exists`: whether a filesystem entry is
/// already present at this path; a path that cannot be inspected counts
/// as absent. What is on disk can change between calls, so nothing
/// further is promised of the answer.
#[verifier::external_body]
fn path_exists(path: &str) -> bool {
    std::path::Path::new(path).exists()
}

/// One on-disk existence flag per candidate path.
fn probe_existing(paths: &Vec<String>) -> (flags: Vec<bool>)
    ensures
        flags@.len() == paths@.len(),
{
    let mut flags: Vec<bool> = Vec::new();
    let mut i: usize = 0;
    while i < paths.len()
        invariant
            i <= paths.len(),
            flags@.len() == i,
        decreases paths.len() - i,
    {
        flags.push(path_exists(paths[i].as_str()));
        i = i + 1;
    }
    flags
}

/// Returns (but does not create) the paths of all possible top-level data
/// directories for `t`, most preferred first.
///
/// The list is never empty on success; on Unix-like platforms the shared
/// categories may yield several entries, one per search-path directory.
pub fn get_data_roots(t: AppDataType) -> (roots: Result<Vec<String>, AppDirsError>)
    ensures
        roots matches Err(e) ==> e is NotSupported,
        roots matches Ok(v) ==> (v@.len() > 0 && forall|i: int|
            0 <= i < v.deep_view().len() ==> (#[trigger] v.deep_view()[i]).len() > 0),
        roots matches Ok(v) ==> (!t.spec_is_shared() ==> v@.len() == 1),
        roots matches Ok(v) ==> (t.spec_is_shared() ==> forall|i: int|
            0 <= i < v.deep_view().len() ==> (#[trigger] v.deep_view()[i])[0] == '/'),
{
    match platform::unix::get_app_dirs(t) {
        Err(e) => Err(e),
        Ok(dirs) => {
            if dirs.is_empty() {
                Err(AppDirsError::NotSupported)
            } else {
                Ok(dirs)
            }
        },
    }
}

/// Returns (but does not create) the path to the single most preferred
/// top-level data directory for `t`: the head of [`get_data_roots`].
pub fn get_data_root(t: AppDataType) -> (root: Result<String, AppDirsError>)
    ensures
        root matches Err(e) ==> e is NotSupported,
        root matches Ok(p) ==> p@.len() > 0,
        root matches Ok(p) ==> (t.spec_is_shared() ==> p@[0] == '/'),
{
    match get_data_roots(t) {
        Err(e) => Err(e),
        Ok(mut v) => {
            proof {
                assert(v.deep_view()[0] == v@[0]@);
            }
            let first = v.remove(0);
            Ok(first)
        },
    }
}

/// Returns (but does not create) the paths of all possible app-specific
/// directories for `t`, most preferred first.
///
/// Every top-level root is mapped to the app's subdirectory below it
/// (sanitized author — on platforms that use it — then sanitized name).
/// When at least one of those directories already exists on disk, the
/// list is narrowed to the existing ones, so that an app keeps finding
/// data it has already stored under a lower-priority root.
pub fn get_app_roots(t: AppDataType, app: &AppInfo) -> (roots: Result<Vec<String>, AppDirsError>)
    ensures
        app.name@.len() == 0 || app.author@.len() == 0 ==> (roots matches Err(e) && e
            is InvalidAppData),
        roots matches Err(e) ==> (e is InvalidAppData ==> app.name@.len() == 0 || app.author@.len()
            == 0),
        roots matches Err(e) ==> e is InvalidAppData || e is NotSupported,
        roots matches Ok(v) ==> v@.len() > 0,
        roots matches Ok(v) ==> (!t.spec_is_shared() ==> v@.len() == 1),
        roots matches Ok(v) ==> forall|k: int|
            0 <= k < v.deep_view().len() ==> spec_is_app_path(
                #[trigger] v.deep_view()[k],
                app.name@,
                app.author@,
                platform::unix::USE_AUTHOR,
            ),
{
    if app.name.is_empty() || app.author.is_empty() {
        return Err(AppDirsError::InvalidAppData);
    }
    let data_roots = match get_data_roots(t) {
        Err(e) => {
            return Err(e);
        },
        Ok(v) => v,
    };
    let mapped = compose_app_paths(&data_roots, app, platform::unix::USE_AUTHOR);
    let ghost mdv = mapped.deep_view();
    let flags = probe_existing(&mapped);
    let kept = narrow_candidates(mapped, &flags);
    proof {
        lemma_narrow_nonempty(mdv, flags@);
        lemma_narrow_membership(mdv, flags@);
        if !t.spec_is_shared() {
            lemma_narrow_singleton(mdv, flags@);
        }
        let rdv = data_roots.deep_view();
        assert forall|k: int| 0 <= k < kept.deep_view().len() implies spec_is_app_path(
            #[trigger] kept.deep_view()[k],
            app.name@,
            app.author@,
            platform::unix::USE_AUTHOR,
        ) by {
            assert(kept.deep_view()[k] == spec_narrow(mdv, flags@)[k]);
            assert(mdv.contains(spec_narrow(mdv, flags@)[k]));
            let j = choose|j: int| 0 <= j < mdv.len() && mdv[j] == kept.deep_view()[k];
            assert(kept.deep_view()[k] == spec_app_path(
                rdv[j],
                app.name@,
                app.author@,
                platform::unix::USE_AUTHOR,
            ));
        }
    }
    Ok(kept)
}

/// Returns (but does not create) the path to the single most preferred
/// app-specific directory for `t`: the head of [`get_app_roots`], i.e.
/// platform-priority order with the existence narrowing already applied.
pub fn get_app_root(t: AppDataType, app: &AppInfo) -> (root: Result<String, AppDirsError>)
    ensures
        app.name@.len() == 0 || app.author@.len() == 0 ==> (root matches Err(e) && e
            is InvalidAppData),
        root matches Err(e) ==> (e is InvalidAppData ==> app.name@.len() == 0 || app.author@.len()
            == 0),
        root matches Err(e) ==> e is InvalidAppData || e is NotSupported,
        root matches Ok(p) ==> spec_is_app_path(
            p@,
            app.name@,
            app.author@,
            platform::unix::USE_AUTHOR,
        ),
{
    match get_app_roots(t, app) {
        Err(e) => Err(e),
        Ok(mut v) => {
            proof {
                assert(v.deep_view()[0] == v@[0]@);
            }
            let first = v.remove(0);
            Ok(first)
        },
    }
}

/// Returns (but does not create) the paths of all possible app-specific
/// subdirectories for `t` and the given relative sub-path.
///
/// `path` is split on forward slashes; empty segments are discarded and
/// every remaining segment is sanitized before it is appended below each
/// app root from [`get_app_roots`].
pub fn get_app_dirs(t: AppDataType, app: &AppInfo, path: &str) -> (dirs: Result<
    Vec<String>,
    AppDirsError,
>)
    ensures
        app.name@.len() == 0 || app.author@.len() == 0 ==> (dirs matches Err(e) && e
            is InvalidAppData),
        dirs matches Err(e) ==> (e is InvalidAppData ==> app.name@.len() == 0 || app.author@.len()
            == 0),
        dirs matches Err(e) ==> e is InvalidAppData || e is NotSupported,
        dirs matches Ok(v) ==> v@.len() > 0,
        dirs matches Ok(v) ==> (!t.spec_is_shared() ==> v@.len() == 1),
        dirs matches Ok(v) ==> forall|k: int|
            0 <= k < v.deep_view().len() ==> spec_is_app_dir(
                #[trigger] v.deep_view()[k],
                app.name@,
                app.author@,
                platform::unix::USE_AUTHOR,
                path@,
            ),
{
    let roots = match get_app_roots(t, app) {
        Err(e) => {
            return Err(e);
        },
        Ok(v) => v,
    };
    let segs = split_segments(path);
    let mut out: Vec<String> = Vec::new();
    let mut i: usize = 0;
    while i < roots.len()
        invariant
            i <= roots.len(),
            out@.len() == i,
            roots@.len() > 0,
            segs.deep_view() == spec_segments(path@),
            forall|k: int|
                0 <= k < roots.deep_view().len() ==> spec_is_app_path(
                    #[trigger] roots.deep_view()[k],
                    app.name@,
                    app.author@,
                    platform::unix::USE_AUTHOR,
                ),
            forall|k: int|
                0 <= k < i ==> spec_is_app_dir(
                    #[trigger] out.deep_view()[k],
                    app.name@,
                    app.author@,
                    platform::unix::USE_AUTHOR,
                    path@,
                ),
        decreases roots.len() - i,
    {
        let ghost i0 = i as int;
        let ghost out0 = out.deep_view();
        let dir = append_sanitized(roots[i].as_str(), &segs);
        out.push(dir);
        i = i + 1;
        proof {
            assert(out.deep_view() =~= out0.push(dir@));
            let x = roots.deep_view()[i0];
            assert(x == roots@[i0]@);
            assert(spec_is_app_path(x, app.name@, app.author@, platform::unix::USE_AUTHOR));
            let r = choose|r: Seq<char>|
                x == spec_app_path(r, app.name@, app.author@, platform::unix::USE_AUTHOR);
            assert(dir@ == spec_with_path(
                spec_app_path(r, app.name@, app.author@, platform::unix::USE_AUTHOR),
                path@,
            ));
        }
    }
    Ok(out)
}

/// Returns (but does not create) the path to the single most preferred
/// app-specific subdirectory for `t` and the given relative sub-path: the
/// head of [`get_app_dirs`].
pub fn get_app_dir(t: AppDataType, app: &AppInfo, path: &str) -> (dir: Result<String, AppDirsError>)
    ensures
        app.name@.len() == 0 || app.author@.len() == 0 ==> (dir matches Err(e) && e
            is InvalidAppData),
        dir matches Err(e) ==> (e is InvalidAppData ==> app.name@.len() == 0 || app.author@.len()
            == 0),
        dir matches Err(e) ==> e is InvalidAppData || e is NotSupported,
        dir matches Ok(p) ==> spec_is_app_dir(
            p@,
            app.name@,
            app.author@,
            platform::unix::USE_AUTHOR,
            path@,
        ),
{
    match get_app_dirs(t, app, path) {
        Err(e) => Err(e),
        Ok(mut v) => {
            proof {
                assert(v.deep_view()[0] == v@[0]@);
            }
            let first = v.remove(0);
            Ok(first)
        },
    }
}

/// The app-scoped candidate list is never empty, and its head — what the
/// single-root accessors return — is the app directory below the most
/// preferred root whose app directory already exists, or below the most
/// preferred root overall when none exists yet.
pub proof fn lemma_app_roots_head(
    roots: Seq<Seq<char>>,
    name: Seq<char>,
    author: Seq<char>,
    use_author: bool,
    flags: Seq<bool>,
)
    requires
        roots.len() > 0,
        flags.len() == roots.len(),
    ensures
        spec_app_roots(roots, name, author, use_author, flags).len() > 0,
        0 <= spec_first_kept(flags, 0) < roots.len(),
        spec_app_roots(roots, name, author, use_author, flags)[0] == spec_app_path(
            roots[spec_first_kept(flags, 0)],
            name,
            author,
            use_author,
        ),
{
    let cands = spec_app_paths(roots, name, author, use_author);
    lemma_narrow_head(cands, flags);
}

/// The narrowing law, one survivor: when exactly one candidate's app
/// directory already exists on disk, the app-scoped query returns exactly
/// that one directory.
pub proof fn lemma_app_roots_unique(
    roots: Seq<Seq<char>>,
    name: Seq<char>,
    author: Seq<char>,
    use_author: bool,
    flags: Seq<bool>,
    k: int,
)
    requires
        flags.len() == roots.len(),
        0 <= k < flags.len(),
        flags[k],
        forall|j: int| 0 <= j < flags.len() && j != k ==> !flags[j],
    ensures
        spec_app_roots(roots, name, author, use_author, flags) =~= seq![
            spec_app_path(roots[k], name, author, use_author),
        ],
{
    lemma_narrow_unique(spec_app_paths(roots, name, author, use_author), flags, k);
}

/// The narrowing law, no survivor: when no candidate's app directory
/// exists on disk yet, the app-scoped query returns every candidate, in
/// the provider's order.
pub proof fn lemma_app_roots_no_evidence(
    roots: Seq<Seq<char>>,
    name: Seq<char>,
    author: Seq<char>,
    use_author: bool,
    flags: Seq<bool>,
)
    requires
        flags.len() == roots.len(),
        forall|j: int| 0 <= j < flags.len() ==> !flags[j],
    ensures
        spec_app_roots(roots, name, author, use_author, flags) == spec_app_paths(
            roots,
            name,
            author,
            use_author,
        ),
{
    lemma_narrow_none(spec_app_paths(roots, name, author, use_author), flags);
}

/// When the most preferred root survives narrowing — because its app
/// directory already exists, or because no app directory exists anywhere
/// yet — the single best paths nest: the data root is a prefix of the app
/// root, which is a prefix of any app subdirectory below it.
pub proof fn lemma_best_paths_nest(
    roots: Seq<Seq<char>>,
    name: Seq<char>,
    author: Seq<char>,
    use_author: bool,
    flags: Seq<bool>,
    path: Seq<char>,
)
    requires
        roots.len() > 0,
        flags.len() == roots.len(),
        flags[0] || (forall|j: int| 0 <= j < flags.len() ==> !flags[j]),
    ensures
        ({
            let app_root = spec_app_roots(roots, name, author, use_author, flags)[0];
            roots[0].is_prefix_of(app_root) && app_root.is_prefix_of(
                spec_with_path(app_root, path),
            )
        }),
{
    if !flags[0] {
        lemma_first_kept_none(flags, 0);
    }
    lemma_app_roots_head(roots, name, author, use_author, flags);
    let app_root = spec_app_roots(roots, name, author, use_author, flags)[0];
    assert(app_root == spec_app_path(roots[0], name, author, use_author));
    if use_author {
        let with_author = spec_join(roots[0], spec_sanitize(author));
        lemma_join_prefix(roots[0], spec_sanitize(author));
        lemma_join_prefix(with_author, spec_sanitize(name));
        lemma_prefix_transitive(roots[0], with_author, app_root);
    } else {
        lemma_join_prefix(roots[0], spec_sanitize(name));
    }
    lemma_append_sanitized_prefix(app_root, spec_segments(path));
}

} // verus!
