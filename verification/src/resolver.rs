//! Module resolution: from an importing file and a specifier to the file the
//! import names.
//!
//! The rules are those of Node's `require`, extended for TypeScript sources:
//! a specifier is tried as a file, then with each known extension, then with
//! the TypeScript spelling of a JavaScript extension, then as a directory with
//! an index file. Package-style specifiers are looked up in the `node_modules`
//! directory of every ancestor of the importing file, innermost first.
//!
//! This file states the rules over [`FsView`] and implements them against an
//! in-memory [`FileTree`]. The same rules, driven one probe at a time by a
//! caller that owns the real file system, are in [`crate::search`].

use crate::canonical::{clean, cleaned};
use crate::path::{
    add_extension, extend_path, extended_path, extension, extension_of, file_name, file_name_of,
    join, join_paths, lemma_parent_is_shorter, parent, parent_of, replace_extension, same_text,
    starts_with, with_added_extension, with_extension,
};
use crate::tree::{FileTree, FsView};
use vstd::prelude::*;

verus! {

/// Where a module comes from. Only modules that are real files can import
/// others.
#[derive(Debug, PartialEq, Eq)]
pub enum FileIdentity {
    /// A file on disk, by its path.
    Real(String),
    /// A synthetic origin that has no place in the file system, by its label.
    Virtual(String),
}

/// A [`FileIdentity`] as contracts see it.
pub enum FileIdentityView {
    Real(Seq<char>),
    Virtual(Seq<char>),
}

impl View for FileIdentity {
    type V = FileIdentityView;

    open spec fn view(&self) -> FileIdentityView {
        match self {
            FileIdentity::Real(path) => FileIdentityView::Real(path@),
            FileIdentity::Virtual(label) => FileIdentityView::Virtual(label@),
        }
    }
}

impl Clone for FileIdentity {
    fn clone(&self) -> (copy: Self)
        ensures
            copy == *self,
    {
        match self {
            FileIdentity::Real(path) => FileIdentity::Real(path.clone()),
            FileIdentity::Virtual(label) => FileIdentity::Virtual(label.clone()),
        }
    }
}

impl FileIdentityView {
    /// The identity in canonical spelling: a real file by its cleaned path,
    /// a synthetic origin as it is.
    pub open spec fn canonical(self) -> FileIdentityView {
        match self {
            FileIdentityView::Real(path) => FileIdentityView::Real(cleaned(path)),
            FileIdentityView::Virtual(label) => FileIdentityView::Virtual(label),
        }
    }
}

impl FileIdentity {
    /// The identity in canonical spelling.
    pub fn canonical(&self) -> (file: FileIdentity)
        ensures
            file@ == self@.canonical(),
    {
        match self {
            FileIdentity::Real(path) => FileIdentity::Real(clean(path.as_str())),
            FileIdentity::Virtual(label) => FileIdentity::Virtual(label.clone()),
        }
    }

    /// Whether two identities stand for the same module: whether they are
    /// equal once both are spelled canonically.
    pub fn same_module(&self, other: &FileIdentity) -> (same: bool)
        ensures
            same == (self@.canonical() == other@.canonical()),
    {
        match (self.canonical(), other.canonical()) {
            (FileIdentity::Real(left), FileIdentity::Real(right)) => left == right,
            (FileIdentity::Virtual(left), FileIdentity::Virtual(right)) => left == right,
            _ => false,
        }
    }
}

/// Why a resolution failed.
#[derive(Debug, PartialEq, Eq)]
pub enum ResolveError {
    /// The importing module is not a real file.
    UnsupportedBase,
    /// Neither the path nor any of its spellings with an extension is a file.
    FileNotFound(String),
    /// The directory holds no index file.
    IndexNotFound(String),
    /// A `package.json` was asked for its main entry, which is never honoured.
    PackageMainUnsupported,
    /// No `node_modules` directory above the importing file holds the package.
    NotFound,
}

/// A [`ResolveError`] as contracts see it.
pub enum ResolveErrorView {
    UnsupportedBase,
    FileNotFound(Seq<char>),
    IndexNotFound(Seq<char>),
    PackageMainUnsupported,
    NotFound,
}

impl View for ResolveError {
    type V = ResolveErrorView;

    open spec fn view(&self) -> ResolveErrorView {
        match self {
            ResolveError::UnsupportedBase => ResolveErrorView::UnsupportedBase,
            ResolveError::FileNotFound(path) => ResolveErrorView::FileNotFound(path@),
            ResolveError::IndexNotFound(path) => ResolveErrorView::IndexNotFound(path@),
            ResolveError::PackageMainUnsupported => ResolveErrorView::PackageMainUnsupported,
            ResolveError::NotFound => ResolveErrorView::NotFound,
        }
    }
}

impl Clone for ResolveError {
    fn clone(&self) -> (copy: Self)
        ensures
            copy == *self,
    {
        match self {
            ResolveError::UnsupportedBase => ResolveError::UnsupportedBase,
            ResolveError::FileNotFound(path) => ResolveError::FileNotFound(path.clone()),
            ResolveError::IndexNotFound(path) => ResolveError::IndexNotFound(path.clone()),
            ResolveError::PackageMainUnsupported => ResolveError::PackageMainUnsupported,
            ResolveError::NotFound => ResolveError::NotFound,
        }
    }
}

impl ResolveError {
    /// The failure in words.
    pub fn message(&self) -> (text: String)
        ensures
            text@ == match self@ {
                ResolveErrorView::UnsupportedBase => "node-resolver supports only files"@,
                ResolveErrorView::FileNotFound(path) => "file not found: "@ + path,
                ResolveErrorView::IndexNotFound(path) => "index not found: "@ + path,
                ResolveErrorView::PackageMainUnsupported => "package.json is not supported"@,
                ResolveErrorView::NotFound => "not found"@,
            },
    {
        match self {
            ResolveError::UnsupportedBase => "node-resolver supports only files".to_string(),
            ResolveError::FileNotFound(path) => {
                let mut text = "file not found: ".to_string();
                text.append(path.as_str());
                text
            },
            ResolveError::IndexNotFound(path) => {
                let mut text = "index not found: ".to_string();
                text.append(path.as_str());
                text
            },
            ResolveError::PackageMainUnsupported => "package.json is not supported".to_string(),
            ResolveError::NotFound => "not found".to_string(),
        }
    }
}

/// The texts of a list of strings.
pub open spec fn texts(names: Seq<String>) -> Seq<Seq<char>> {
    names.map_values(|name: String| name@)
}

/// A path result as contracts see it.
pub open spec fn path_outcome(result: Result<String, ResolveError>) -> Result<
    Seq<char>,
    ResolveErrorView,
> {
    match result {
        Ok(path) => Ok(path@),
        Err(error) => Err(error@),
    }
}

/// An identity result as contracts see it.
pub open spec fn identity_outcome(result: Result<FileIdentity, ResolveError>) -> Result<
    FileIdentityView,
    ResolveErrorView,
> {
    match result {
        Ok(file) => Ok(file@),
        Err(error) => Err(error@),
    }
}

/// The extensions a path is probed with, in order of preference.
pub open spec fn probe_extensions() -> Seq<Seq<char>> {
    seq!["ts"@, "tsx"@, "js"@, "jsx"@, "json"@, "node"@]
}

/// The TypeScript extensions that may hide behind a JavaScript extension, in
/// order of preference. `ts` comes before `tsx` even for `jsx`.
pub open spec fn substitutes(ext: Seq<char>) -> Seq<Seq<char>> {
    if ext == "js"@ || ext == "jsx"@ {
        seq!["ts"@, "tsx"@]
    } else if ext == "mjs"@ {
        seq!["mts"@]
    } else if ext == "cjs"@ {
        seq!["cts"@]
    } else {
        Seq::empty()
    }
}

/// The files beside `path` that are called as `path` is with a probe
/// extension added, in the order of the probe extensions.
pub open spec fn extended(path: Seq<char>) -> Seq<Seq<char>> {
    probe_extensions().map_values(|ext: Seq<char>| extended_path(path, ext))
}

/// The files beside `path` that are called as `path` is with a TypeScript
/// substitute in place of its JavaScript extension.
pub open spec fn substituted(path: Seq<char>) -> Seq<Seq<char>> {
    match extension(path) {
        Some(ext) => substitutes(ext).map_values(|sub: Seq<char>| replace_extension(path, sub)),
        None => Seq::empty(),
    }
}

/// The files that may stand for `path`, in the order in which they are tried:
/// the path itself, then, if it has a file name, the files beside it under
/// that name with each probe extension and with each substitute for its own
/// extension. Separators and `.` segments at the end of the path do not
/// count for the name: `/p/d/` is tried as `/p/d/`, `/p/d.ts`, and so on.
pub open spec fn file_candidates(path: Seq<char>) -> Seq<Seq<char>> {
    if file_name(path) is Some {
        seq![path] + extended(path) + substituted(path)
    } else {
        seq![path]
    }
}

/// The index files of directory `dir`, in the order in which they are tried.
pub open spec fn index_candidates(dir: Seq<char>) -> Seq<Seq<char>> {
    probe_extensions().map_values(|ext: Seq<char>| join(dir, add_extension("index"@, ext)))
}

/// The first of `candidates` that is a regular file.
pub open spec fn first_file(fs: FsView, candidates: Seq<Seq<char>>) -> Option<Seq<char>>
    decreases candidates.len(),
{
    if candidates.len() == 0 {
        None
    } else if fs.is_file(candidates[0]) {
        Some(candidates[0])
    } else {
        first_file(fs, candidates.drop_first())
    }
}

/// `path` resolved as a file.
pub open spec fn as_file(fs: FsView, path: Seq<char>) -> Result<Seq<char>, ResolveErrorView> {
    match first_file(fs, file_candidates(path)) {
        Some(file) => Ok(file),
        None => Err(ResolveErrorView::FileNotFound(path)),
    }
}

/// `dir` resolved to its index file.
pub open spec fn as_index(fs: FsView, dir: Seq<char>) -> Result<Seq<char>, ResolveErrorView> {
    match first_file(fs, index_candidates(dir)) {
        Some(file) => Ok(file),
        None => Err(ResolveErrorView::IndexNotFound(dir)),
    }
}

/// The main entry that the manifest at `manifest` declares. None is ever
/// honoured.
pub open spec fn package_main(manifest: Seq<char>) -> Result<Seq<char>, ResolveErrorView> {
    Err(ResolveErrorView::PackageMainUnsupported)
}

/// The manifest of the package in `dir`.
pub open spec fn manifest_of(dir: Seq<char>) -> Seq<char> {
    join(dir, "package.json"@)
}

/// `dir` resolved as a directory: through the main entry of its manifest if it
/// has one that resolves, else to its index file.
pub open spec fn as_directory(fs: FsView, dir: Seq<char>) -> Result<Seq<char>, ResolveErrorView> {
    if fs.is_file(manifest_of(dir)) && package_main(manifest_of(dir)) is Ok {
        package_main(manifest_of(dir))
    } else {
        as_index(fs, dir)
    }
}

/// `path` resolved as a file or, failing that, as a directory.
pub open spec fn as_path(fs: FsView, path: Seq<char>) -> Result<Seq<char>, ResolveErrorView> {
    match as_file(fs, path) {
        Ok(file) => Ok(file),
        Err(_) => as_directory(fs, path),
    }
}

/// The `node_modules` directory of `dir`.
pub open spec fn modules_of(dir: Seq<char>) -> Seq<char> {
    join(dir, "node_modules"@)
}

/// Package `target` looked up in the `node_modules` directory of `dir` and of
/// each directory above it, innermost first.
pub open spec fn in_node_modules(fs: FsView, dir: Seq<char>, target: Seq<char>) -> Result<
    Seq<char>,
    ResolveErrorView,
>
    decreases dir.len(),
{
    let here = as_path(fs, join(modules_of(dir), target));
    if fs.is_dir(modules_of(dir)) && here is Ok {
        here
    } else {
        match parent(dir) {
            Some(up) if up.len() < dir.len() => in_node_modules(fs, up, target),
            _ => Err(ResolveErrorView::NotFound),
        }
    }
}

/// The directory that relative and package-style imports of `base` start
/// from: the one that holds it, or the current directory if it has none.
pub open spec fn base_dir(base: Seq<char>) -> Seq<char> {
    match parent(base) {
        Some(dir) => dir,
        None => "."@,
    }
}

/// Whether `target` is written from the root.
pub open spec fn is_absolute(target: Seq<char>) -> bool {
    "/"@.is_prefix_of(target)
}

/// Whether `target` is written relative to the importing file.
pub open spec fn is_relative(target: Seq<char>) -> bool {
    "./"@.is_prefix_of(target) || "../"@.is_prefix_of(target)
}

/// The path that specifier `target` of the file at `base` resolves to, before
/// it is put in canonical spelling.
pub open spec fn located(fs: FsView, base: Seq<char>, target: Seq<char>) -> Result<
    Seq<char>,
    ResolveErrorView,
> {
    if is_absolute(target) {
        as_path(fs, join("/"@, target))
    } else if is_relative(target) {
        as_path(fs, join(base_dir(base), target))
    } else {
        in_node_modules(fs, base_dir(base), target)
    }
}

/// The file that specifier `target`, written in module `base`, names.
pub open spec fn resolution(fs: FsView, base: FileIdentityView, target: Seq<char>) -> Result<
    FileIdentityView,
    ResolveErrorView,
> {
    match base {
        FileIdentityView::Real(path) => match located(fs, path, target) {
            Ok(file) => Ok(FileIdentityView::Real(cleaned(file))),
            Err(error) => Err(error),
        },
        FileIdentityView::Virtual(_) => Err(ResolveErrorView::UnsupportedBase),
    }
}

/// The candidate at `at` is the first file if it is a file and none before
/// it is.
pub proof fn lemma_first_file_at(fs: FsView, candidates: Seq<Seq<char>>, at: int)
    requires
        0 <= at < candidates.len(),
        fs.is_file(candidates[at]),
        forall|k: int| 0 <= k < at ==> !fs.is_file(#[trigger] candidates[k]),
    ensures
        first_file(fs, candidates) == Some(candidates[at]),
    decreases at,
{
    if at > 0 {
        let rest = candidates.drop_first();
        assert forall|k: int| 0 <= k < at - 1 implies !fs.is_file(#[trigger] rest[k]) by {
            assert(rest[k] == candidates[k + 1]);
        }
        lemma_first_file_at(fs, rest, at - 1);
    }
}

/// No candidate is a file exactly if there is no first file.
pub proof fn lemma_first_file_none(fs: FsView, candidates: Seq<Seq<char>>)
    ensures
        first_file(fs, candidates) is None <==> forall|k: int|
            0 <= k < candidates.len() ==> !fs.is_file(#[trigger] candidates[k]),
    decreases candidates.len(),
{
    if candidates.len() > 0 {
        let rest = candidates.drop_first();
        lemma_first_file_none(fs, rest);
        if first_file(fs, candidates) is None {
            assert forall|k: int| 0 <= k < candidates.len() implies !fs.is_file(
                #[trigger] candidates[k],
            ) by {
                if k > 0 {
                    assert(rest[k - 1] == candidates[k]);
                }
            }
        } else if !fs.is_file(candidates[0]) {
            let k = choose|k: int| 0 <= k < rest.len() && fs.is_file(#[trigger] rest[k]);
            assert(candidates[k + 1] == rest[k]);
        }
    }
}

/// Resolving a path as a file fails exactly if neither the path, nor a file
/// beside it under its name with a probe extension, nor a substitute is a
/// file; the failure names the path.
pub proof fn lemma_as_file_fails(fs: FsView, path: Seq<char>)
    ensures
        as_file(fs, path) is Err <==> forall|k: int|
            0 <= k < file_candidates(path).len() ==> !fs.is_file(
                #[trigger] file_candidates(path)[k],
            ),
        as_file(fs, path) is Err ==> as_file(fs, path) == Err::<Seq<char>, ResolveErrorView>(
            ResolveErrorView::FileNotFound(path),
        ),
{
    lemma_first_file_none(fs, file_candidates(path));
}

/// Resolving a path fails exactly if no file candidate and no index file of
/// it is a file; the failure names the path.
pub proof fn lemma_as_path_fails(fs: FsView, path: Seq<char>)
    ensures
        as_path(fs, path) is Err <==> {
            &&& forall|k: int|
                0 <= k < file_candidates(path).len() ==> !fs.is_file(
                    #[trigger] file_candidates(path)[k],
                )
            &&& forall|k: int|
                0 <= k < index_candidates(path).len() ==> !fs.is_file(
                    #[trigger] index_candidates(path)[k],
                )
        },
        as_path(fs, path) is Err ==> as_path(fs, path) == Err::<Seq<char>, ResolveErrorView>(
            ResolveErrorView::IndexNotFound(path),
        ),
{
    lemma_first_file_none(fs, file_candidates(path));
    lemma_first_file_none(fs, index_candidates(path));
}

/// A relative import fails exactly if the path it names, seen from the
/// directory of the importing file, has no file candidate and no index file
/// that is a file; the failure names that path.
pub proof fn lemma_relative_import_fails(fs: FsView, base: Seq<char>, target: Seq<char>)
    requires
        is_relative(target),
        !is_absolute(target),
    ensures
        resolution(fs, FileIdentityView::Real(base), target) is Err <==> {
            &&& forall|k: int|
                0 <= k < file_candidates(join(base_dir(base), target)).len() ==> !fs.is_file(
                    #[trigger] file_candidates(join(base_dir(base), target))[k],
                )
            &&& forall|k: int|
                0 <= k < index_candidates(join(base_dir(base), target)).len() ==> !fs.is_file(
                    #[trigger] index_candidates(join(base_dir(base), target))[k],
                )
        },
        resolution(fs, FileIdentityView::Real(base), target) is Err ==> resolution(
            fs,
            FileIdentityView::Real(base),
            target,
        ) == Err::<FileIdentityView, ResolveErrorView>(
            ResolveErrorView::IndexNotFound(join(base_dir(base), target)),
        ),
{
    lemma_as_path_fails(fs, join(base_dir(base), target));
}

/// A package manifest changes nothing: resolving a directory is resolving
/// its index file.
pub proof fn lemma_directory_is_index(fs: FsView, dir: Seq<char>)
    ensures
        as_directory(fs, dir) == as_index(fs, dir),
{
}

/// A file that is found is one of the candidates, and it exists.
pub proof fn lemma_first_file_is_candidate(fs: FsView, candidates: Seq<Seq<char>>)
    ensures
        first_file(fs, candidates) matches Some(file) ==> candidates.contains(file) && fs.is_file(
            file,
        ),
    decreases candidates.len(),
{
    if candidates.len() > 0 && !fs.is_file(candidates[0]) {
        let rest = candidates.drop_first();
        lemma_first_file_is_candidate(fs, rest);
        if let Some(file) = first_file(fs, rest) {
            let k = choose|k: int| 0 <= k < rest.len() && rest[k] == file;
            assert(candidates[k + 1] == file);
        }
    }
}

/// Extension priority: where `path` itself is no file, the probe extensions
/// are tried in their fixed order, and the first that gives a file wins over
/// all that follow.
pub proof fn lemma_extension_priority(fs: FsView, path: Seq<char>, at: int)
    requires
        file_name(path) is Some,
        !fs.is_file(path),
        0 <= at < probe_extensions().len(),
        fs.is_file(extended_path(path, probe_extensions()[at])),
        forall|k: int| 0 <= k < at ==> !fs.is_file(extended_path(path, probe_extensions()[k])),
    ensures
        as_path(fs, path) == Ok::<Seq<char>, ResolveErrorView>(
            extended_path(path, probe_extensions()[at]),
        ),
{
    let candidates = file_candidates(path);
    assert forall|k: int| 0 <= k < at + 1 implies !fs.is_file(#[trigger] candidates[k]) by {
        if k > 0 {
            assert(candidates[k] == extended(path)[k - 1]);
        }
    }
    lemma_first_file_at(fs, candidates, at + 1);
}

/// A TypeScript source is preferred to a JavaScript source of the same name:
/// where `path` is no file and `path.ts` is one, `path.ts` it is, whatever
/// else exists.
pub proof fn lemma_typescript_preferred(fs: FsView, path: Seq<char>)
    requires
        file_name(path) is Some,
        !fs.is_file(path),
        fs.is_file(extended_path(path, "ts"@)),
    ensures
        as_path(fs, path) == Ok::<Seq<char>, ResolveErrorView>(extended_path(path, "ts"@)),
{
    lemma_extension_priority(fs, path, 0);
}

/// A relative import without extension resolves to the TypeScript source of
/// that name where there is one, even beside a JavaScript source.
pub proof fn lemma_import_prefers_typescript(fs: FsView, base: Seq<char>, target: Seq<char>)
    requires
        is_relative(target),
        !is_absolute(target),
        file_name(join(base_dir(base), target)) is Some,
        !fs.is_file(join(base_dir(base), target)),
        fs.is_file(extended_path(join(base_dir(base), target), "ts"@)),
    ensures
        resolution(fs, FileIdentityView::Real(base), target) == Ok::<
            FileIdentityView,
            ResolveErrorView,
        >(FileIdentityView::Real(cleaned(extended_path(join(base_dir(base), target), "ts"@)))),
{
    lemma_typescript_preferred(fs, join(base_dir(base), target));
}

/// Substitution order: where a path with a JavaScript extension and all its
/// extended spellings are no files, its TypeScript substitutes are tried in
/// their fixed order, and the first that is a file wins.
pub proof fn lemma_substitution_order(fs: FsView, path: Seq<char>, at: int)
    requires
        extension(path) is Some,
        forall|k: int|
            0 <= k < 1 + probe_extensions().len() ==> !fs.is_file(
                #[trigger] file_candidates(path)[k],
            ),
        0 <= at < substituted(path).len(),
        fs.is_file(substituted(path)[at]),
        forall|k: int| 0 <= k < at ==> !fs.is_file(#[trigger] substituted(path)[k]),
    ensures
        as_path(fs, path) == Ok::<Seq<char>, ResolveErrorView>(substituted(path)[at]),
{
    let candidates = file_candidates(path);
    let offset = 1 + probe_extensions().len();
    assert forall|k: int| 0 <= k < offset + at implies !fs.is_file(#[trigger] candidates[k]) by {
        if k >= offset {
            assert(candidates[k] == substituted(path)[k - offset]);
        }
    }
    lemma_first_file_at(fs, candidates, offset + at);
}

/// The substitutes of a `.js` path are its `.ts` and `.tsx` spellings, in
/// that order.
pub proof fn lemma_js_substitutes(path: Seq<char>)
    requires
        extension(path) == Some("js"@),
    ensures
        substituted(path) == seq![
            replace_extension(path, "ts"@),
            replace_extension(path, "tsx"@),
        ],
{
}

/// A `.js` specifier whose file does not exist, under any probe extension or
/// as `.ts`, still resolves: to the `.tsx` source of that name.
pub proof fn lemma_js_finds_tsx(fs: FsView, path: Seq<char>)
    requires
        extension(path) == Some("js"@),
        forall|k: int|
            0 <= k < 1 + probe_extensions().len() ==> !fs.is_file(
                #[trigger] file_candidates(path)[k],
            ),
        !fs.is_file(replace_extension(path, "ts"@)),
        fs.is_file(replace_extension(path, "tsx"@)),
    ensures
        as_path(fs, path) == Ok::<Seq<char>, ResolveErrorView>(replace_extension(path, "tsx"@)),
{
    lemma_js_substitutes(path);
    lemma_substitution_order(fs, path, 1);
}

/// Directory fallback: where no spelling of `path` is a file, its index files
/// are tried in the order of the probe extensions, and the first that is a
/// file wins, with or without a package manifest beside it.
pub proof fn lemma_directory_fallback(fs: FsView, path: Seq<char>, at: int)
    requires
        first_file(fs, file_candidates(path)) is None,
        0 <= at < probe_extensions().len(),
        fs.is_file(join(path, add_extension("index"@, probe_extensions()[at]))),
        forall|k: int|
            0 <= k < at ==> !fs.is_file(
                join(path, add_extension("index"@, probe_extensions()[k])),
            ),
    ensures
        as_path(fs, path) == Ok::<Seq<char>, ResolveErrorView>(
            join(path, add_extension("index"@, probe_extensions()[at])),
        ),
{
    let candidates = index_candidates(path);
    assert forall|k: int| 0 <= k < at implies !fs.is_file(#[trigger] candidates[k]) by {}
    lemma_first_file_at(fs, candidates, at);
}

/// A directory that holds only `index.jsx` resolves to it.
pub proof fn lemma_directory_finds_index_jsx(fs: FsView, path: Seq<char>)
    requires
        first_file(fs, file_candidates(path)) is None,
        !fs.is_file(join(path, add_extension("index"@, "ts"@))),
        !fs.is_file(join(path, add_extension("index"@, "tsx"@))),
        !fs.is_file(join(path, add_extension("index"@, "js"@))),
        fs.is_file(join(path, add_extension("index"@, "jsx"@))),
    ensures
        as_path(fs, path) == Ok::<Seq<char>, ResolveErrorView>(
            join(path, add_extension("index"@, "jsx"@)),
        ),
{
    lemma_directory_fallback(fs, path, 3);
}

/// Ancestry: a directory whose `node_modules` does not hold the package
/// hands the lookup on to the directory above it.
pub proof fn lemma_lookup_walks_up(fs: FsView, dir: Seq<char>, target: Seq<char>)
    requires
        !fs.is_dir(modules_of(dir)) || as_path(fs, join(modules_of(dir), target)) is Err,
    ensures
        in_node_modules(fs, dir, target) == match parent(dir) {
            Some(up) => in_node_modules(fs, up, target),
            None => Err(ResolveErrorView::NotFound),
        },
{
    lemma_parent_is_shorter(dir);
}

/// Ancestry: the innermost `node_modules` that holds the package wins.
pub proof fn lemma_lookup_stops(fs: FsView, dir: Seq<char>, target: Seq<char>)
    requires
        fs.is_dir(modules_of(dir)),
        as_path(fs, join(modules_of(dir), target)) is Ok,
    ensures
        in_node_modules(fs, dir, target) == as_path(fs, join(modules_of(dir), target)),
{
}

/// What resolves is a real file in canonical spelling, and what fails for a
/// real importing file reports that nothing was found.
pub proof fn lemma_resolution_is_canonical(fs: FsView, base: Seq<char>, target: Seq<char>)
    ensures
        match resolution(fs, FileIdentityView::Real(base), target) {
            Ok(file) => exists|path: Seq<char>|
                fs.is_file(path) && file == FileIdentityView::Real(cleaned(path)),
            Err(error) => error is IndexNotFound || error is NotFound,
        },
{
    if is_absolute(target) || is_relative(target) {
        let path = if is_absolute(target) {
            join("/"@, target)
        } else {
            join(base_dir(base), target)
        };
        lemma_as_path_finds_file(fs, path);
    } else {
        lemma_in_node_modules_finds_file(fs, base_dir(base), target);
    }
}

/// What a path resolves to is a file.
pub proof fn lemma_as_path_finds_file(fs: FsView, path: Seq<char>)
    ensures
        match as_path(fs, path) {
            Ok(file) => fs.is_file(file),
            Err(error) => error == ResolveErrorView::IndexNotFound(path),
        },
{
    lemma_first_file_is_candidate(fs, file_candidates(path));
    lemma_first_file_is_candidate(fs, index_candidates(path));
}

/// What a package lookup resolves to is a file.
pub proof fn lemma_in_node_modules_finds_file(fs: FsView, dir: Seq<char>, target: Seq<char>)
    ensures
        match in_node_modules(fs, dir, target) {
            Ok(file) => fs.is_file(file),
            Err(error) => error == ResolveErrorView::NotFound,
        },
    decreases dir.len(),
{
    lemma_as_path_finds_file(fs, join(modules_of(dir), target));
    match parent(dir) {
        Some(up) if up.len() < dir.len() => {
            lemma_in_node_modules_finds_file(fs, up, target);
        },
        _ => {},
    }
}

/// The probe extensions as a list.
pub fn probe_extension_list() -> (out: Vec<&'static str>)
    ensures
        out@.map_values(|ext: &'static str| ext@) == probe_extensions(),
{
    let out = vec!["ts", "tsx", "js", "jsx", "json", "node"];
    out
}

/// The substitutes for extension `ext` as a list.
pub fn substitute_list(ext: &str) -> (out: Vec<&'static str>)
    ensures
        out@.map_values(|sub: &'static str| sub@) == substitutes(ext@),
{
    let out = if same_text(ext, "js") || same_text(ext, "jsx") {
        vec!["ts", "tsx"]
    } else if same_text(ext, "mjs") {
        vec!["mts"]
    } else if same_text(ext, "cjs") {
        vec!["cts"]
    } else {
        Vec::new()
    };
    out
}

/// The files that may stand for `path`, in the order in which they are tried.
pub fn file_candidate_list(path: &str) -> (out: Vec<String>)
    ensures
        texts(out@) == file_candidates(path@),
{
    let mut out: Vec<String> = Vec::new();
    out.push(path.to_string());
    if file_name_of(path).is_some() {
        let exts = probe_extension_list();
        let mut i: usize = 0;
        while i < exts.len()
            invariant
                i <= exts.len(),
                exts@.map_values(|ext: &'static str| ext@) == probe_extensions(),
                out.len() == 1 + i,
                out[0]@ == path@,
                forall|k: int| 0 <= k < i ==> (#[trigger] out[1 + k])@ == extended(path@)[k],
            decreases exts.len() - i,
        {
            out.push(extend_path(path, exts[i]));
            i = i + 1;
        }
        let ghost probed = out@;
        match extension_of(path) {
            Some(old) => {
                let subs = substitute_list(old.as_str());
                let mut j: usize = 0;
                while j < subs.len()
                    invariant
                        j <= subs.len(),
                        extension(path@) == Some(old@),
                        subs@.map_values(|sub: &'static str| sub@) == substitutes(old@),
                        out.len() == probed.len() + j,
                        out@.take(probed.len() as int) == probed,
                        forall|k: int|
                            0 <= k < j ==> (#[trigger] out[probed.len() + k])@ == substituted(
                                path@,
                            )[k],
                    decreases subs.len() - j,
                {
                    match with_extension(path, subs[j]) {
                        Some(swapped) => {
                            out.push(swapped);
                        },
                        None => {},
                    }
                    j = j + 1;
                }
            },
            None => {},
        }
        assert(texts(out@) =~= file_candidates(path@)) by {
            assert forall|k: int| 0 <= k < out.len() implies texts(out@)[k] == file_candidates(
                path@,
            )[k] by {
                if k < probed.len() {
                    if k > 0 {
                        assert(probed[1 + (k - 1)]@ == extended(path@)[k - 1]);
                    }
                } else {
                    assert(out[probed.len() + (k - probed.len())]@ == substituted(path@)[k
                        - probed.len()]);
                }
            }
        }
    }
    out
}

/// The index files of directory `dir`, in the order in which they are tried.
pub fn index_candidate_list(dir: &str) -> (out: Vec<String>)
    ensures
        texts(out@) == index_candidates(dir@),
{
    let mut out: Vec<String> = Vec::new();
    let exts = probe_extension_list();
    let mut i: usize = 0;
    while i < exts.len()
        invariant
            i <= exts.len(),
            exts@.map_values(|ext: &'static str| ext@) == probe_extensions(),
            out.len() == i,
            forall|k: int| 0 <= k < i ==> (#[trigger] out[k])@ == index_candidates(dir@)[k],
        decreases exts.len() - i,
    {
        let name = with_added_extension("index", exts[i]);
        out.push(join_paths(dir, name.as_str()));
        i = i + 1;
    }
    out
}

/// The first of `candidates` that is a regular file in `tree`.
pub fn first_existing(tree: &FileTree, candidates: &Vec<String>) -> (found: Option<String>)
    ensures
        match found {
            Some(file) => first_file(tree@, texts(candidates@)) == Some(file@),
            None => first_file(tree@, texts(candidates@)) is None,
        },
{
    let mut i: usize = 0;
    assert(texts(candidates@).skip(0) =~= texts(candidates@));
    while i < candidates.len()
        invariant
            i <= candidates.len(),
            first_file(tree@, texts(candidates@)) == first_file(
                tree@,
                texts(candidates@).skip(i as int),
            ),
        decreases candidates.len() - i,
    {
        let ghost rest = texts(candidates@).skip(i as int);
        assert(rest.drop_first() =~= texts(candidates@).skip(i + 1));
        if tree.is_file(candidates[i].as_str()) {
            return Some(candidates[i].clone());
        }
        i = i + 1;
    }
    None
}

/// Resolves specifiers the way Node's `require` does, with TypeScript
/// extensions added.
pub struct NodeResolver;

impl NodeResolver {
    /// Turns a resolved path into a file identity, in canonical spelling.
    pub fn wrap(&self, path: String) -> (file: FileIdentity)
        ensures
            file@ == FileIdentityView::Real(cleaned(path@)),
    {
        FileIdentity::Real(clean(path.as_str()))
    }

    /// Resolves `path` as a file: the path itself if it is a file, else the
    /// first of its spellings with an extension that is one.
    pub fn resolve_as_file(&self, tree: &FileTree, path: &str) -> (result: Result<
        String,
        ResolveError,
    >)
        ensures
            path_outcome(result) == as_file(tree@, path@),
    {
        let candidates = file_candidate_list(path);
        match first_existing(tree, &candidates) {
            Some(file) => Ok(file),
            None => Err(ResolveError::FileNotFound(path.to_string())),
        }
    }

    /// Resolves through the main entry of the package manifest at `manifest`.
    /// Main entries are not supported, so this always fails.
    pub fn resolve_package_main(&self, manifest: &str) -> (result: Result<String, ResolveError>)
        ensures
            path_outcome(result) == package_main(manifest@),
    {
        Err(ResolveError::PackageMainUnsupported)
    }

    /// Resolves directory `dir` to the first of its index files that exists.
    pub fn resolve_index(&self, tree: &FileTree, dir: &str) -> (result: Result<
        String,
        ResolveError,
    >)
        ensures
            path_outcome(result) == as_index(tree@, dir@),
    {
        let candidates = index_candidate_list(dir);
        match first_existing(tree, &candidates) {
            Some(file) => Ok(file),
            None => Err(ResolveError::IndexNotFound(dir.to_string())),
        }
    }

    /// Resolves `dir` as a directory: through its package manifest if that
    /// yields a file, else to its index file.
    pub fn resolve_as_directory(&self, tree: &FileTree, dir: &str) -> (result: Result<
        String,
        ResolveError,
    >)
        ensures
            path_outcome(result) == as_directory(tree@, dir@),
    {
        let manifest = join_paths(dir, "package.json");
        if tree.is_file(manifest.as_str()) {
            let main = self.resolve_package_main(manifest.as_str());
            if main.is_ok() {
                return main;
            }
        }
        self.resolve_index(tree, dir)
    }

    /// Resolves `path` as a file or, failing that, as a directory.
    pub fn resolve_path(&self, tree: &FileTree, path: &str) -> (result: Result<
        String,
        ResolveError,
    >)
        ensures
            path_outcome(result) == as_path(tree@, path@),
    {
        match self.resolve_as_file(tree, path) {
            Ok(file) => Ok(file),
            Err(_) => self.resolve_as_directory(tree, path),
        }
    }

    /// Looks package `target` up in the `node_modules` directory of `dir` and
    /// of each directory above it, innermost first.
    pub fn resolve_node_modules(&self, tree: &FileTree, dir: &str, target: &str) -> (result:
        Result<String, ResolveError>)
        ensures
            path_outcome(result) == in_node_modules(tree@, dir@, target@),
        decreases dir@.len(),
    {
        let modules = join_paths(dir, "node_modules");
        if tree.is_dir(modules.as_str()) {
            let path = join_paths(modules.as_str(), target);
            let here = self.resolve_path(tree, path.as_str());
            if here.is_ok() {
                return here;
            }
        }
        proof {
            lemma_parent_is_shorter(dir@);
        }
        match parent_of(dir) {
            Some(up) => self.resolve_node_modules(tree, up.as_str(), target),
            None => Err(ResolveError::NotFound),
        }
    }

    /// Resolves specifier `target`, written in module `base`, against `tree`.
    pub fn resolve(&self, tree: &FileTree, base: &FileIdentity, target: &str) -> (result: Result<
        FileIdentity,
        ResolveError,
    >)
        ensures
            identity_outcome(result) == resolution(tree@, base@, target@),
    {
        let base_path = match base {
            FileIdentity::Real(path) => path,
            FileIdentity::Virtual(_) => {
                return Err(ResolveError::UnsupportedBase);
            },
        };
        let located = if starts_with(target, "/") {
            let path = join_paths("/", target);
            self.resolve_path(tree, path.as_str())
        } else {
            let dir = match parent_of(base_path.as_str()) {
                Some(dir) => dir,
                None => ".".to_string(),
            };
            if starts_with(target, "./") || starts_with(target, "../") {
                let path = join_paths(dir.as_str(), target);
                self.resolve_path(tree, path.as_str())
            } else {
                self.resolve_node_modules(tree, dir.as_str(), target)
            }
        };
        match located {
            Ok(path) => Ok(self.wrap(path)),
            Err(error) => Err(error),
        }
    }
}

} // verus!
