//! Compiling an entry file into one program: which entries are bundled, with
//! which settings, and how the result is handed on.

use crate::path::{join, join_paths, same_text};
use crate::resolver::{FileIdentity, FileIdentityView};
use vstd::prelude::*;

verus! {

/// The directory that entry files are named relative to.
pub const PROJECT_ROOT: &'static str = "./js";

/// The name under which the entry of a compile is bundled.
pub const ENTRY_NAME: &'static str = "main";

/// The file that every compiled program is also written to, for inspection.
pub const DEBUG_ARTIFACT: &'static str = "out.js";

/// The line terminator of emitted programs.
pub const NEWLINE: &'static str = "\n";

/// The global under which a compiled program finds its context data.
pub const CONTEXT_GLOBAL: &'static str = "context";

/// A named entry point.
#[derive(Debug, PartialEq, Eq)]
pub struct Entry {
    pub name: String,
    pub file: FileIdentity,
}

/// The entry points of a compile, by name. A name stands for one file: a
/// second insertion under a name replaces the first.
pub struct EntryTable {
    entries: Vec<Entry>,
}

/// Whether `entries[at]` is the entry called `name`.
pub open spec fn names(entries: Seq<Entry>, at: int, name: Seq<char>) -> bool {
    0 <= at < entries.len() && entries[at].name@ == name
}

impl View for EntryTable {
    type V = Map<Seq<char>, FileIdentityView>;

    closed spec fn view(&self) -> Map<Seq<char>, FileIdentityView> {
        Map::new(
            |name: Seq<char>| exists|at: int| names(self.entries@, at, name),
            |name: Seq<char>| self.entries@[choose|at: int| names(self.entries@, at, name)].file@,
        )
    }
}

impl EntryTable {
    #[verifier::type_invariant]
    spec fn distinct(&self) -> bool {
        forall|i: int, j: int|
            0 <= i < j < self.entries.len() ==> self.entries[i].name@ != self.entries[j].name@
    }

    /// The listed entries, as contracts see them.
    pub closed spec fn listing(&self) -> Seq<Entry> {
        self.entries@
    }

    /// A table without entries.
    pub fn new() -> (table: EntryTable)
        ensures
            table@ == Map::<Seq<char>, FileIdentityView>::empty(),
    {
        let table = EntryTable { entries: Vec::new() };
        assert(table@ =~= Map::<Seq<char>, FileIdentityView>::empty());
        table
    }

    /// Where the entry called `name` is listed, if it is.
    fn position(&self, name: &str) -> (at: Option<usize>)
        ensures
            match at {
                Some(i) => names(self.entries@, i as int, name@),
                None => forall|i: int| !names(self.entries@, i, name@),
            },
    {
        let mut i: usize = 0;
        while i < self.entries.len()
            invariant
                i <= self.entries.len(),
                forall|k: int| 0 <= k < i ==> !names(self.entries@, k, name@),
            decreases self.entries.len() - i,
        {
            if same_text(self.entries[i].name.as_str(), name) {
                return Some(i);
            }
            i = i + 1;
        }
        None
    }

    /// The table with `file` under `name`, in place of what was there.
    pub fn insert(self, name: String, file: FileIdentity) -> (table: EntryTable)
        ensures
            table@ == self@.insert(name@, file@),
    {
        proof {
            use_type_invariant(&self);
        }
        let ghost before = self.entries@;
        let found = self.position(name.as_str());
        let mut entries = self.entries;
        match found {
            Some(at) => {
                entries.set(at, Entry { name, file });
                let table = EntryTable { entries };
                proof {
                    let after = table.entries@;
                    assert forall|key: Seq<char>, i: int|
                        names(after, i, key) <==> names(before, i, key) by {}
                    assert forall|key: Seq<char>| #[trigger]
                        table@.contains_key(key) implies table@[key] == self@.insert(
                        name@,
                        file@,
                    )[key] by {
                        let i = choose|i: int| names(after, i, key);
                        let j = choose|j: int| names(before, j, key);
                        assert(names(before, i, key));
                        assert(i == j);
                    }
                    assert(names(before, at as int, name@));
                    assert(table@ =~= self@.insert(name@, file@));
                }
                table
            },
            None => {
                entries.push(Entry { name, file });
                proof {
                    assert forall|i: int, j: int| 0 <= i < j < entries.len() implies entries[i].name@
                        != entries[j].name@ by {
                        assert(entries[i] == before[i]);
                        if j < before.len() {
                            assert(entries[j] == before[j]);
                        } else {
                            assert(!names(before, i, name@));
                        }
                    }
                }
                let table = EntryTable { entries };
                proof {
                    let after = table.entries@;
                    let last = before.len() as int;
                    assert(names(after, last, name@));
                    assert forall|key: Seq<char>| #[trigger]
                        table@.contains_key(key) == self@.insert(name@, file@).contains_key(
                            key,
                        ) by {
                        if table@.contains_key(key) {
                            let i = choose|i: int| names(after, i, key);
                            if i < last {
                                assert(names(before, i, key));
                            }
                        }
                        if self@.contains_key(key) {
                            let j = choose|j: int| names(before, j, key);
                            assert(names(after, j, key));
                        }
                    }
                    assert forall|key: Seq<char>| #[trigger]
                        table@.contains_key(key) implies table@[key] == self@.insert(
                        name@,
                        file@,
                    )[key] by {
                        let i = choose|i: int| names(after, i, key);
                        if i < last {
                            assert(names(before, i, key));
                            assert(key != name@);
                            let j = choose|j: int| names(before, j, key);
                            assert(names(after, j, key));
                            assert(i == j);
                        } else {
                            assert(key == name@);
                        }
                    }
                    assert(table@ =~= self@.insert(name@, file@));
                }
                table
            },
        }
    }

    /// The file entered under `name`, if there is one.
    pub fn get(&self, name: &str) -> (file: Option<&FileIdentity>)
        ensures
            match file {
                Some(found) => self@.contains_key(name@) && self@[name@] == found@,
                None => !self@.contains_key(name@),
            },
    {
        proof {
            use_type_invariant(self);
        }
        match self.position(name) {
            Some(at) => {
                proof {
                    let i = choose|i: int| names(self.entries@, i, name@);
                    assert(i == at);
                }
                Some(&self.entries[at].file)
            },
            None => None,
        }
    }

    /// The entries, each name once.
    pub fn entries(&self) -> (list: &Vec<Entry>)
        ensures
            list@ == self.listing(),
            forall|i: int, j: int| 0 <= i < j < list.len() ==> list[i].name@ != list[j].name@,
            forall|i: int|
                0 <= i < list.len() ==> self@.contains_key(#[trigger] list[i].name@)
                    && self@[list[i].name@] == list[i].file@,
            forall|name: Seq<char>|
                self@.contains_key(name) ==> exists|i: int| names(list@, i, name),
    {
        proof {
            use_type_invariant(self);
            assert forall|i: int| 0 <= i < self.entries.len() implies self@.contains_key(
                #[trigger] self.entries[i].name@,
            ) && self@[self.entries[i].name@] == self.entries[i].file@ by {
                let name = self.entries[i].name@;
                assert(names(self.entries@, i, name));
                let j = choose|j: int| names(self.entries@, j, name);
                assert(i == j);
            }
        }
        &self.entries
    }
}

/// How the module graph of an entry is merged.
#[derive(Clone, Copy, Debug, PartialEq, Eq, Structural)]
pub struct BundleOptions {
    /// Whether `require` calls count as imports.
    pub require: bool,
    /// Whether inlining of merged bindings is switched off.
    pub disable_inliner: bool,
}

/// How a merged module is written out.
#[derive(Debug, PartialEq, Eq)]
pub struct EmitOptions {
    /// Whether whitespace is dropped and names are shortened.
    pub minify: bool,
    /// The line terminator.
    pub newline: String,
    /// Whether comments are carried through. They never are.
    pub comments: bool,
}

/// An [`EmitOptions`] as contracts see it.
pub struct EmitOptionsView {
    pub minify: bool,
    pub newline: Seq<char>,
    pub comments: bool,
}

impl View for EmitOptions {
    type V = EmitOptionsView;

    open spec fn view(&self) -> EmitOptionsView {
        EmitOptionsView { minify: self.minify, newline: self.newline@, comments: self.comments }
    }
}

/// All that a compile is set up with.
pub struct CompilePlan {
    /// The entries to bundle.
    pub entries: EntryTable,
    /// How each entry's module graph is merged.
    pub bundle: BundleOptions,
    /// How each merged module is written out.
    pub emit: EmitOptions,
    /// The file that the program is also written to.
    pub artifact: String,
}

/// The file that the entry named `entry_file` is: the name seen from the
/// project root.
pub open spec fn entry_path(entry_file: Seq<char>) -> Seq<char> {
    join(PROJECT_ROOT@, entry_file)
}

/// How entries are merged: `require` calls followed, inlining on.
pub open spec fn bundle_options() -> BundleOptions {
    BundleOptions { require: true, disable_inliner: false }
}

/// How programs are written out: with the fixed line terminator and without
/// comments, minified or not.
pub open spec fn emit_options(minify: bool) -> EmitOptionsView {
    EmitOptionsView { minify, newline: NEWLINE@, comments: false }
}

/// `program` with `data` bound to the context global before its first
/// statement.
pub open spec fn with_context(program: Seq<char>, data: Seq<char>) -> Seq<char> {
    "globalThis."@ + CONTEXT_GLOBAL@ + " = "@ + data + ";"@ + NEWLINE@ + program
}

/// Sets up a compile of `entry_file`: one entry, under the fixed entry name,
/// written out minified or not.
pub fn plan_compile_as(entry_file: &str, minify: bool) -> (plan: CompilePlan)
    ensures
        plan.entries@ == Map::<Seq<char>, FileIdentityView>::empty().insert(
            ENTRY_NAME@,
            FileIdentityView::Real(entry_path(entry_file@)),
        ),
        plan.bundle == bundle_options(),
        plan.emit@ == emit_options(minify),
        plan.artifact@ == DEBUG_ARTIFACT@,
{
    let entries = EntryTable::new().insert(
        ENTRY_NAME.to_string(),
        FileIdentity::Real(join_paths(PROJECT_ROOT, entry_file)),
    );
    CompilePlan {
        entries,
        bundle: BundleOptions { require: true, disable_inliner: false },
        emit: EmitOptions { minify, newline: NEWLINE.to_string(), comments: false },
        artifact: DEBUG_ARTIFACT.to_string(),
    }
}

/// Sets up the compile of `entry_file` as pages are served: one entry, under
/// the fixed entry name, minified.
pub fn plan_compile(entry_file: &str) -> (plan: CompilePlan)
    ensures
        plan.entries@ == Map::<Seq<char>, FileIdentityView>::empty().insert(
            ENTRY_NAME@,
            FileIdentityView::Real(entry_path(entry_file@)),
        ),
        plan.bundle == bundle_options(),
        plan.emit@ == emit_options(true),
        plan.artifact@ == DEBUG_ARTIFACT@,
{
    plan_compile_as(entry_file, true)
}

/// Makes `data`, a serialized value, available to `program` under the
/// context global.
pub fn inject_context(program: &str, data: &str) -> (out: String)
    ensures
        out@ == with_context(program@, data@),
{
    let mut out = "globalThis.".to_string();
    out.append(CONTEXT_GLOBAL);
    out.append(" = ");
    out.append(data);
    out.append(";");
    out.append(NEWLINE);
    out.append(program);
    out
}

} // verus!
