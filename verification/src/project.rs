//! Project-root discovery and source-file collection.
//!
//! The file system is read by the caller; this module decides what the reads
//! mean: which ancestor directory is the project root, which directory
//! entries are Pact sources, and in which order sources are listed.

use vstd::prelude::*;
use crate::manifest::{Manifest, ManifestError};
use crate::order::{sort_paths, sorted_paths};

verus! {

/// Errors that can occur during project-root discovery or source collection.
#[derive(Debug)]
pub enum ProjectError {
    /// No `pact.toml` was found between `searched_from` and the filesystem root.
    ManifestNotFound {
        /// The directory the search started from.
        searched_from: String,
    },
    /// A `pact.toml` was found but could not be parsed or validated.
    ManifestError(ManifestError),
    /// The project root has no `src/` directory.
    NoSourceDir {
        /// The project root that was searched.
        root: String,
    },
    /// An I/O error occurred while inspecting the path.
    IoError(String, std::io::Error),
}

impl From<ManifestError> for ProjectError {
    fn from(e: ManifestError) -> (r: ProjectError)
        ensures
            r == ProjectError::ManifestError(e),
    {
        ProjectError::ManifestError(e)
    }
}

impl vstd::std_specs::convert::FromSpecImpl<ManifestError> for ProjectError {
    open spec fn obeys_from_spec() -> bool {
        true
    }

    open spec fn from_spec(e: ManifestError) -> ProjectError {
        ProjectError::ManifestError(e)
    }
}

/// The complete set of source files for a Pact project.
#[derive(Debug)]
pub struct SourceSet {
    /// Absolute path of the project root (the directory holding `pact.toml`).
    pub root: String,
    /// All `.pact` files found under `<root>/src/`, sorted.
    pub sources: Vec<String>,
    /// All `.pact` files found under `<root>/test/`, sorted.
    pub tests: Vec<String>,
    /// The parsed `pact.toml` manifest.
    pub manifest: Manifest,
}

/// `a` is `s` or one of the directories above it (`s` absolute: it starts
/// with `/`).
pub open spec fn is_ancestor(a: Seq<char>, s: Seq<char>) -> bool {
    &&& s.len() > 0 && s[0] == '/'
    &&& 0 < a.len() <= s.len()
    &&& s.take(a.len() as int) == a
    &&& (a.len() == s.len() || a.len() == 1 || s[a.len() as int] == '/')
}

/// The probe answered `b` when asked about a directory spelled `a`.
pub open spec fn probe_said<F: Fn(&str) -> bool>(probe: F, a: Seq<char>, b: bool) -> bool {
    exists|x: &str| #![trigger probe.ensures((x,), b)] x@ == a && probe.ensures((x,), b)
}

/// The directory above `s`, where `s` is absolute: what stands before the last
/// `/`, or `/` itself where that is the only one; `None` for `/`.
fn parent_dir(s: &str) -> (r: Option<String>)
    requires
        s@.len() > 0,
        s@[0] == '/',
    ensures
        s@.len() == 1 ==> r is None,
        s@.len() > 1 ==> (r matches Some(p) && exists|i: int|
            #![trigger s@[i]]
            0 <= i < s@.len() && s@[i] == '/' && (forall|k: int| i < k < s@.len() ==> s@[k] != '/')
                && p@ == s@.take(if i == 0 { 1 } else { i })),
{
    let n = s.unicode_len();
    if n == 1 {
        return None;
    }
    let mut i = n - 1;
    while i > 0 && s.get_char(i) != '/'
        invariant
            n == s@.len(),
            i < n,
            forall|k: int| i < k < n ==> s@[k] != '/',
        decreases i,
    {
        i = i - 1;
    }
    let keep = if i == 0 { 1 } else { i };
    let p = String::from_str(s.substring_char(0, keep));
    assert(s@[i as int] == '/');
    Some(p)
}

/// Walk up from `start` looking for a directory that holds `pact.toml`;
/// `has_manifest` answers that question for one directory.
///
/// `start` is an absolute path, as `canonicalize` gives it. The search begins
/// at `start` itself and proceeds toward the filesystem root, stopping as soon
/// as a directory holds `pact.toml`.
pub fn find_project_root<F: Fn(&str) -> bool>(start: &str, has_manifest: F) -> (r: Result<
    String,
    ProjectError,
>)
    requires
        start@.len() > 0,
        start@[0] == '/',
        forall|x: &str| has_manifest.requires((x,)),
    ensures
        r matches Ok(d) ==> {
            &&& is_ancestor(d@, start@)
            &&& probe_said(has_manifest, d@, true)
            &&& forall|a: Seq<char>|
                is_ancestor(a, start@) && a.len() > d@.len() ==> probe_said(has_manifest, a, false)
        },
        r is Err ==> {
            &&& r matches Err(ProjectError::ManifestNotFound { searched_from }) && searched_from@
                == start@
            &&& forall|a: Seq<char>| is_ancestor(a, start@) ==> probe_said(has_manifest, a, false)
        },
{
    let ghost s = start@;
    let mut current = String::from_str(start);
    assert(s.take(s.len() as int) =~= s);
    loop
        invariant
            s == start@,
            s.len() > 0 && s[0] == '/',
            forall|x: &str| has_manifest.requires((x,)),
            is_ancestor(current@, s),
            forall|a: Seq<char>|
                is_ancestor(a, s) && a.len() > current@.len() ==> probe_said(has_manifest, a, false),
        decreases current@.len(),
    {
        let here = current.as_str();
        let found = has_manifest(here);
        assert(here@ == current@ && has_manifest.ensures((here,), found));
        if found {
            return Ok(current);
        }
        assert(current@[0] == '/') by {
            assert(s.take(current@.len() as int)[0] == s[0]);
        }
        match parent_dir(current.as_str()) {
            Some(p) => {
                let ghost c = current@;
                let ghost i = choose|i: int|
                    #![trigger c[i]]
                    0 <= i < c.len() && c[i] == '/' && (forall|k: int| i < k < c.len() ==> c[k]
                        != '/') && p@ == c.take(if i == 0 { 1 } else { i });
                proof {
                    assert forall|k: int| 0 <= k < c.len() implies c[k] == s[k] by {
                        assert(s.take(c.len() as int)[k] == s[k]);
                    }
                    assert(s.take(p@.len() as int) =~= p@);
                    assert forall|a: Seq<char>|
                        is_ancestor(a, s) && a.len() > p@.len() implies probe_said(
                        has_manifest,
                        a,
                        false,
                    ) by {
                        if a.len() < c.len() {
                            assert(s[a.len() as int] == '/' || a.len() == 1);
                            assert(c[a.len() as int] == s[a.len() as int]);
                        } else if a.len() == c.len() {
                            assert(a =~= c) by {
                                assert forall|k: int| 0 <= k < a.len() implies a[k] == c[k] by {
                                    assert(s.take(a.len() as int)[k] == s[k]);
                                }
                            }
                        }
                    }
                }
                current = p;
            },
            None => {
                proof {
                    assert forall|a: Seq<char>| is_ancestor(a, s) implies probe_said(
                        has_manifest,
                        a,
                        false,
                    ) by {
                        if a.len() == 1 {
                            assert(a =~= current@) by {
                                assert(s.take(1)[0] == s[0]);
                            }
                        }
                    }
                }
                return Err(ProjectError::ManifestNotFound { searched_from: String::from_str(start) });
            },
        }
    }
}

/// The kind of a directory entry, as its file type reports it (links are
/// not followed).
#[derive(Debug, Clone, Copy, PartialEq, Eq, Structural)]
pub enum EntryKind {
    Dir,
    File,
    Symlink,
    Other,
}

/// What the source walk does with a directory entry.
#[derive(Debug, Clone, Copy, PartialEq, Eq, Structural)]
pub enum EntryAction {
    /// Leave the entry out.
    Skip,
    /// Walk into the directory.
    Descend,
    /// Collect the file as a Pact source.
    Collect,
}

/// A hidden entry: its name begins with `.`.
pub open spec fn is_hidden(name: Seq<char>) -> bool {
    name.len() > 0 && name[0] == '.'
}

/// The name ends in the `.pact` extension.
pub open spec fn has_pact_extension(name: Seq<char>) -> bool {
    name.len() >= 5 && name.skip(name.len() - 5) == seq!['.', 'p', 'a', 'c', 't']
}

/// What the walk does with an entry named `name` of kind `kind`: symlinks are
/// skipped (to prevent cycles), hidden entries are skipped at every level,
/// directories are walked into, and only files with the `.pact` extension
/// are collected.
pub open spec fn entry_action(name: Seq<char>, kind: EntryKind) -> EntryAction {
    if kind == EntryKind::Symlink || is_hidden(name) {
        EntryAction::Skip
    } else if kind == EntryKind::Dir {
        EntryAction::Descend
    } else if kind == EntryKind::File && has_pact_extension(name) {
        EntryAction::Collect
    } else {
        EntryAction::Skip
    }
}

/// The walk never follows a symlink and never looks at a hidden entry; it
/// walks into exactly the visible directories and collects exactly the
/// visible regular files whose name ends in `.pact`.
pub proof fn lemma_walk_rules(name: Seq<char>, kind: EntryKind)
    ensures
        kind == EntryKind::Symlink ==> entry_action(name, kind) == EntryAction::Skip,
        name.len() > 0 && name[0] == '.' ==> entry_action(name, kind) == EntryAction::Skip,
        entry_action(name, kind) == EntryAction::Descend <==> (kind == EntryKind::Dir && !(name.len()
            > 0 && name[0] == '.')),
        entry_action(name, kind) == EntryAction::Collect <==> (kind == EntryKind::File && !(name.len()
            > 0 && name[0] == '.') && name.len() >= 5 && name[name.len() - 5] == '.' && name[name.len()
            - 4] == 'p' && name[name.len() - 3] == 'a' && name[name.len() - 2] == 'c' && name[name.len()
            - 1] == 't'),
{
    if name.len() >= 5 {
        let tail = name.skip(name.len() - 5);
        if name[name.len() - 5] == '.' && name[name.len() - 4] == 'p' && name[name.len() - 3] == 'a'
            && name[name.len() - 2] == 'c' && name[name.len() - 1] == 't' {
            assert(tail =~= seq!['.', 'p', 'a', 'c', 't']);
        }
        if tail == seq!['.', 'p', 'a', 'c', 't'] {
            assert(tail[0] == name[name.len() - 5]);
            assert(tail[1] == name[name.len() - 4]);
            assert(tail[2] == name[name.len() - 3]);
            assert(tail[3] == name[name.len() - 2]);
            assert(tail[4] == name[name.len() - 1]);
        }
    }
}

/// Joining a relative path onto a directory that does not end in `/` puts
/// exactly one `/` between them; onto the empty directory it gives the path.
pub proof fn lemma_join_relative(dir: Seq<char>, path: Seq<char>)
    requires
        !(path.len() > 0 && path[0] == '/'),
    ensures
        dir.len() > 0 && dir[dir.len() - 1] != '/' ==> joined(dir, path) == dir + seq!['/'] + path,
        dir.len() > 0 && dir[dir.len() - 1] == '/' ==> joined(dir, path) == dir + path,
        dir.len() == 0 ==> joined(dir, path) == path,
{
    if dir.len() == 0 {
        assert(dir + path =~= path);
    }
}

/// The search looks at the start directory itself and at each directory above
/// it: `/` is an ancestor of every absolute path, and every path is its own.
pub proof fn lemma_ancestors(s: Seq<char>)
    requires
        s.len() > 0,
        s[0] == '/',
    ensures
        is_ancestor(s, s),
        is_ancestor(seq!['/'], s),
{
    assert(s.take(s.len() as int) =~= s);
    assert(s.take(1) =~= seq!['/']);
}

/// Decide what the source walk does with one directory entry.
pub fn classify_entry(name: &str, kind: EntryKind) -> (r: EntryAction)
    ensures
        r == entry_action(name@, kind),
{
    if kind == EntryKind::Symlink {
        return EntryAction::Skip;
    }
    let n = name.unicode_len();
    if n > 0 && name.get_char(0) == '.' {
        return EntryAction::Skip;
    }
    if kind == EntryKind::Dir {
        return EntryAction::Descend;
    }
    if kind == EntryKind::File && n >= 5 && name.get_char(n - 5) == '.' && name.get_char(n - 4)
        == 'p' && name.get_char(n - 3) == 'a' && name.get_char(n - 2) == 'c' && name.get_char(n - 1)
        == 't' {
        assert(name@.skip(n - 5) =~= seq!['.', 'p', 'a', 'c', 't']);
        return EntryAction::Collect;
    }
    proof {
        if kind == EntryKind::File && n >= 5 && name@.skip(n - 5) == seq!['.', 'p', 'a', 'c', 't'] {
            assert(name@.skip(n - 5)[0] == name@[n - 5]);
            assert(name@.skip(n - 5)[1] == name@[n - 4]);
            assert(name@.skip(n - 5)[2] == name@[n - 3]);
            assert(name@.skip(n - 5)[3] == name@[n - 2]);
            assert(name@.skip(n - 5)[4] == name@[n - 1]);
        }
    }
    EntryAction::Skip
}

/// `path` joined onto `dir` as `Path::join` does for a relative `path`: with a
/// `/` between them unless `dir` is empty or already ends in one; an absolute
/// `path` replaces `dir`.
pub open spec fn joined(dir: Seq<char>, path: Seq<char>) -> Seq<char> {
    if path.len() > 0 && path[0] == '/' {
        path
    } else if dir.len() == 0 || dir.last() == '/' {
        dir + path
    } else {
        dir + seq!['/'] + path
    }
}

/// Join `path` onto `dir`.
pub fn join_path(dir: &str, path: &str) -> (r: String)
    ensures
        r@ == joined(dir@, path@),
{
    let np = path.unicode_len();
    if np > 0 && path.get_char(0) == '/' {
        return String::from_str(path);
    }
    let nd = dir.unicode_len();
    let mut r = String::from_str(dir);
    if nd > 0 && dir.get_char(nd - 1) != '/' {
        r.append("/");
        proof {
            reveal_strlit("/");
        }
    }
    r.append(path);
    r
}

/// The list a walk produced, or nothing where the directory is absent.
pub open spec fn listed(scan: Option<Result<Vec<String>, ProjectError>>) -> Seq<String> {
    match scan {
        Some(Ok(v)) => v@,
        _ => Seq::empty(),
    }
}

impl SourceSet {
    /// Assemble the source set of the project rooted at the absolute path
    /// `root` (as `canonicalize` gives it) from what was
    /// read there: the result of loading `<root>/pact.toml`, the `.pact` files
    /// walked under `<root>/src/` (`None`: no such directory) and those under
    /// `<root>/test/` (`None`: no such directory, which is not an error).
    ///
    /// Errors come in this order: the manifest's, a missing `src/`, a failed
    /// walk of `src/`, a failed walk of `test/`. Each list comes out sorted.
    pub fn discover(
        root: &str,
        manifest: Result<Manifest, ManifestError>,
        sources: Option<Result<Vec<String>, ProjectError>>,
        tests: Option<Result<Vec<String>, ProjectError>>,
    ) -> (r: Result<SourceSet, ProjectError>)
        requires
            root@.len() > 0,
            root@[0] == '/',
        ensures
            manifest matches Err(e) ==> (r matches Err(ProjectError::ManifestError(e2)) && e2 == e),
            manifest is Ok ==> (sources is None ==> (r matches Err(ProjectError::NoSourceDir { root: d })
                && d@ == root@)),
            manifest is Ok ==> (sources matches Some(Err(e)) ==> r == Err::<SourceSet, ProjectError>(e)),
            manifest is Ok ==> (sources is Some && sources.unwrap() is Ok ==> (tests matches Some(Err(e))
                ==> r == Err::<SourceSet, ProjectError>(e))),
            r matches Ok(set) ==> {
                &&& manifest == Ok::<Manifest, ManifestError>(set.manifest)
                &&& sources is Some
                &&& set.root@ == root@
                &&& set.root@.len() > 0 && set.root@[0] == '/'
                &&& sorted_paths(set.sources@)
                &&& set.sources@.to_multiset() == listed(sources).to_multiset()
                &&& sorted_paths(set.tests@)
                &&& set.tests@.to_multiset() == listed(tests).to_multiset()
            },
            manifest is Ok && sources is Some && sources.unwrap() is Ok && !(tests is Some
                && tests.unwrap() is Err) ==> r is Ok,
    {
        let manifest = match manifest {
            Ok(m) => m,
            Err(e) => return Err(ProjectError::ManifestError(e)),
        };
        let sources = match sources {
            None => return Err(ProjectError::NoSourceDir { root: String::from_str(root) }),
            Some(Err(e)) => return Err(e),
            Some(Ok(v)) => sort_paths(v),
        };
        let tests = match tests {
            None => {
                let empty: Vec<String> = Vec::new();
                proof {
                    assert(empty@ =~= Seq::<String>::empty());
                }
                sort_paths(empty)
            },
            Some(Err(e)) => return Err(e),
            Some(Ok(v)) => sort_paths(v),
        };
        Ok(SourceSet { root: String::from_str(root), sources, tests, manifest })
    }
}

} // verus!
