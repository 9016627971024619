//! What a resolver can ask of a file system, and an in-memory file system
//! that answers it.

use crate::canonical::{clean, cleaned};
use crate::path::{ancestors, lemma_parent_is_shorter, parent, parent_of};
use vstd::prelude::*;

verus! {

/// The answers of a file system: which paths are regular files and which are
/// directories. Every spelling of a path has its own answer.
pub struct FsView {
    pub files: Set<Seq<char>>,
    pub dirs: Set<Seq<char>>,
}

impl FsView {
    /// Whether `path` is a regular file.
    pub open spec fn is_file(self, path: Seq<char>) -> bool {
        self.files.contains(path)
    }

    /// Whether `path` is a directory.
    pub open spec fn is_dir(self, path: Seq<char>) -> bool {
        self.dirs.contains(path)
    }
}

/// Whether one of `names` reads `name`.
pub open spec fn lists(names: Seq<String>, name: Seq<char>) -> bool {
    exists|i: int| 0 <= i < names.len() && (#[trigger] names[i])@ == name
}

/// A file system held in memory: a list of files and a list of directories,
/// kept in canonical spelling. A path is found under any spelling that cleans
/// to a listed one. A file brings the directories above it with it.
pub struct FileTree {
    files: Vec<String>,
    dirs: Vec<String>,
}

impl View for FileTree {
    type V = FsView;

    closed spec fn view(&self) -> FsView {
        FsView {
            files: Set::new(|path: Seq<char>| lists(self.files@, cleaned(path))),
            dirs: Set::new(|path: Seq<char>| lists(self.dirs@, cleaned(path))),
        }
    }
}

/// The directories above `file`, innermost first.
pub open spec fn dirs_above(file: Seq<char>) -> Seq<Seq<char>> {
    match parent(file) {
        Some(dir) => ancestors(dir),
        None => Seq::empty(),
    }
}

/// Whether `name` is the canonical spelling of one of `dirs`.
pub open spec fn spells(dirs: Seq<Seq<char>>, name: Seq<char>) -> bool {
    exists|k: int| 0 <= k < dirs.len() && cleaned(#[trigger] dirs[k]) == name
}

/// A list with one more name reads what it read before, and that name.
pub proof fn lemma_lists_push(names: Seq<String>, added: String, name: Seq<char>)
    ensures
        lists(names.push(added), name) <==> lists(names, name) || added@ == name,
{
    let longer = names.push(added);
    if lists(names, name) {
        let i = choose|i: int| 0 <= i < names.len() && (#[trigger] names[i])@ == name;
        assert(longer[i] == names[i]);
    }
    if added@ == name {
        assert(longer[names.len() as int]@ == name);
    }
    if lists(longer, name) {
        let i = choose|i: int| 0 <= i < longer.len() && (#[trigger] longer[i])@ == name;
        if i < names.len() {
            assert(longer[i] == names[i]);
        }
    }
}

/// A directory and those above it spell what the directory spells and what
/// those above it spell.
pub proof fn lemma_spells_ancestors(dir: Seq<char>, name: Seq<char>)
    ensures
        spells(ancestors(dir), name) <==> cleaned(dir) == name || spells(dirs_above(dir), name),
{
    lemma_parent_is_shorter(dir);
    let all = ancestors(dir);
    let above = dirs_above(dir);
    assert(all =~= seq![dir] + above);
    if spells(above, name) {
        let k = choose|k: int| 0 <= k < above.len() && cleaned(#[trigger] above[k]) == name;
        assert(all[k + 1] == above[k]);
    }
    if cleaned(dir) == name {
        assert(all[0] == dir);
    }
    if spells(all, name) {
        let k = choose|k: int| 0 <= k < all.len() && cleaned(#[trigger] all[k]) == name;
        if k > 0 {
            assert(above[k - 1] == all[k]);
        }
    }
}

/// Whether `names` holds `name`.
pub fn listed(names: &Vec<String>, name: &String) -> (found: bool)
    ensures
        found == lists(names@, name@),
{
    let mut i: usize = 0;
    while i < names.len()
        invariant
            i <= names.len(),
            forall|k: int| 0 <= k < i ==> (#[trigger] names@[k])@ != name@,
        decreases names.len() - i,
    {
        if names[i] == *name {
            return true;
        }
        i = i + 1;
    }
    false
}

/// Lists `dir` and every directory above it, each in canonical spelling.
fn list_ancestors(names: &mut Vec<String>, dir: &str)
    ensures
        forall|name: Seq<char>|
            lists(final(names)@, name) <==> lists(old(names)@, name) || spells(
                ancestors(dir@),
                name,
            ),
    decreases dir@.len(),
{
    let ghost before = names@;
    let spelled = clean(dir);
    names.push(spelled);
    let ghost pushed = names@;
    proof {
        lemma_parent_is_shorter(dir@);
    }
    match parent_of(dir) {
        Some(up) => list_ancestors(names, up.as_str()),
        None => {},
    }
    proof {
        assert forall|name: Seq<char>|
            lists(names@, name) <==> lists(before, name) || spells(ancestors(dir@), name) by {
            lemma_lists_push(before, spelled, name);
            lemma_spells_ancestors(dir@, name);
        }
    }
}

impl FileTree {
    /// A file system with nothing in it.
    pub fn new() -> (tree: FileTree)
        ensures
            forall|path: Seq<char>| !tree@.is_file(path) && !tree@.is_dir(path),
    {
        FileTree { files: Vec::new(), dirs: Vec::new() }
    }

    /// Adds a regular file. From then on every spelling of `path` is a file,
    /// and every spelling of a directory above it is a directory.
    pub fn add_file(&mut self, path: &str)
        ensures
            forall|other: Seq<char>|
                final(self)@.is_file(other) <==> old(self)@.is_file(other) || cleaned(other)
                    == cleaned(path@),
            forall|other: Seq<char>|
                final(self)@.is_dir(other) <==> old(self)@.is_dir(other) || spells(
                    dirs_above(cleaned(path@)),
                    cleaned(other),
                ),
    {
        let name = clean(path);
        let above = parent_of(name.as_str());
        self.files.push(name);
        match above {
            Some(dir) => list_ancestors(&mut self.dirs, dir.as_str()),
            None => {},
        }
        proof {
            assert(self.files@ == old(self).files@.push(name));
            assert forall|other: Seq<char>|
                self@.is_file(other) <==> old(self)@.is_file(other) || cleaned(other) == cleaned(
                    path@,
                ) by {
                lemma_lists_push(old(self).files@, name, cleaned(other));
            }
        }
    }

    /// Adds a directory. From then on every spelling of `path` and of a
    /// directory above it is a directory.
    pub fn add_dir(&mut self, path: &str)
        ensures
            forall|other: Seq<char>|
                final(self)@.is_dir(other) <==> old(self)@.is_dir(other) || spells(
                    ancestors(cleaned(path@)),
                    cleaned(other),
                ),
            final(self)@.files == old(self)@.files,
    {
        let name = clean(path);
        list_ancestors(&mut self.dirs, name.as_str());
    }

    /// Whether `path` is a regular file here.
    pub fn is_file(&self, path: &str) -> (found: bool)
        ensures
            found == self@.is_file(path@),
    {
        let name = clean(path);
        listed(&self.files, &name)
    }

    /// Whether `path` is a directory here.
    pub fn is_dir(&self, path: &str) -> (found: bool)
        ensures
            found == self@.is_dir(path@),
    {
        let name = clean(path);
        listed(&self.dirs, &name)
    }
}

} // verus!
