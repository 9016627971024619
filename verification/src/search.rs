//! Resolution one probe at a time.
//!
//! A [`Search`] holds the whole plan of a resolution: every path that may
//! have to be looked at, in order. It never looks itself. It names the next
//! probe, the caller answers from its file system, and the search moves on
//! until a file is found or the plan is used up. Answered truthfully, it ends
//! in exactly what [`resolution`] says.

use crate::canonical::{clean, cleaned};
use crate::path::{ancestors, join, join_paths, lemma_parent_is_shorter, parent, parent_of, starts_with};
use crate::resolver::{
    as_directory, as_file, as_index, as_path, base_dir, file_candidate_list, file_candidates,
    first_file, in_node_modules, index_candidate_list, index_candidates, is_absolute, is_relative,
    located, manifest_of, modules_of, resolution, texts, FileIdentity, FileIdentityView,
    ResolveError, ResolveErrorView,
};
use crate::tree::{FileTree, FsView};
use vstd::prelude::*;

verus! {

/// What a candidate is looked at for.
#[derive(Clone, Copy, Debug, PartialEq, Eq, Structural)]
pub enum Role {
    /// The file that the import resolves to, if it exists.
    Target,
    /// A package manifest. It is looked at, and resolution goes on either way.
    Manifest,
}

/// A path of the plan and what it is looked at for.
#[derive(Debug, PartialEq, Eq)]
pub struct Candidate {
    pub path: String,
    pub role: Role,
}

/// A [`Candidate`] as contracts see it.
pub struct CandidateView {
    pub path: Seq<char>,
    pub role: Role,
}

impl View for Candidate {
    type V = CandidateView;

    open spec fn view(&self) -> CandidateView {
        CandidateView { path: self.path@, role: self.role }
    }
}

/// One place to look: a directory that must exist, if any, and the
/// candidates to try there in order.
#[derive(Debug, PartialEq, Eq)]
pub struct Attempt {
    pub guard: Option<String>,
    pub candidates: Vec<Candidate>,
}

/// An [`Attempt`] as contracts see it.
pub struct AttemptView {
    pub guard: Option<Seq<char>>,
    pub candidates: Seq<CandidateView>,
}

impl View for Attempt {
    type V = AttemptView;

    open spec fn view(&self) -> AttemptView {
        AttemptView {
            guard: match self.guard {
                Some(dir) => Some(dir@),
                None => None,
            },
            candidates: self.candidates@.map_values(|candidate: Candidate| candidate@),
        }
    }
}

/// A question to the file system.
#[derive(Debug, PartialEq, Eq)]
pub enum Probe {
    /// Is this path a regular file?
    File(String),
    /// Is this path a directory?
    Dir(String),
}

/// A [`Probe`] as contracts see it.
pub enum ProbeView {
    File(Seq<char>),
    Dir(Seq<char>),
}

impl View for Probe {
    type V = ProbeView;

    open spec fn view(&self) -> ProbeView {
        match self {
            Probe::File(path) => ProbeView::File(path@),
            Probe::Dir(path) => ProbeView::Dir(path@),
        }
    }
}

/// Where a search stands.
#[derive(Debug, PartialEq, Eq)]
pub enum Step {
    /// The search needs this answered to go on.
    Ask(Probe),
    /// The import names this file.
    Resolved(FileIdentity),
    /// The import names nothing.
    Failed(ResolveError),
}

/// A [`Step`] as contracts see it.
pub enum StepView {
    Ask(ProbeView),
    Resolved(FileIdentityView),
    Failed(ResolveErrorView),
}

impl View for Step {
    type V = StepView;

    open spec fn view(&self) -> StepView {
        match self {
            Step::Ask(probe) => StepView::Ask(probe@),
            Step::Resolved(file) => StepView::Resolved(file@),
            Step::Failed(error) => StepView::Failed(error@),
        }
    }
}

/// `paths` as candidates for the file that the import names.
pub open spec fn targets(paths: Seq<Seq<char>>) -> Seq<CandidateView> {
    paths.map_values(|path: Seq<char>| CandidateView { path, role: Role::Target })
}

/// The candidates for `path`, in the order in which they are looked at: its
/// spellings as a file, the manifest of the directory it may be, and that
/// directory's index files.
pub open spec fn path_candidates(path: Seq<char>) -> Seq<CandidateView> {
    targets(file_candidates(path)) + seq![
        CandidateView { path: manifest_of(path), role: Role::Manifest },
    ] + targets(index_candidates(path))
}

/// The attempt to resolve `path` wherever it points.
pub open spec fn path_attempt(path: Seq<char>) -> AttemptView {
    AttemptView { guard: None, candidates: path_candidates(path) }
}

/// The attempt to find package `target` in the `node_modules` of `dir`.
pub open spec fn package_attempt(dir: Seq<char>, target: Seq<char>) -> AttemptView {
    AttemptView {
        guard: Some(modules_of(dir)),
        candidates: path_candidates(join(modules_of(dir), target)),
    }
}

/// The attempts to find package `target` from `dir` upwards.
pub open spec fn package_attempts(dir: Seq<char>, target: Seq<char>) -> Seq<AttemptView> {
    ancestors(dir).map_values(|up: Seq<char>| package_attempt(up, target))
}

/// The first target among `candidates` that is a regular file.
pub open spec fn first_target(fs: FsView, candidates: Seq<CandidateView>) -> Option<Seq<char>>
    decreases candidates.len(),
{
    if candidates.len() == 0 {
        None
    } else if candidates[0].role == Role::Target && fs.is_file(candidates[0].path) {
        Some(candidates[0].path)
    } else {
        first_target(fs, candidates.drop_first())
    }
}

/// What one attempt finds.
pub open spec fn attempt_outcome(fs: FsView, attempt: AttemptView) -> Option<Seq<char>> {
    match attempt.guard {
        Some(dir) if !fs.is_dir(dir) => None,
        _ => first_target(fs, attempt.candidates),
    }
}

/// What the first successful attempt finds.
pub open spec fn plan_outcome(fs: FsView, attempts: Seq<AttemptView>) -> Option<Seq<char>>
    decreases attempts.len(),
{
    if attempts.len() == 0 {
        None
    } else {
        match attempt_outcome(fs, attempts[0]) {
            Some(file) => Some(file),
            None => plan_outcome(fs, attempts.drop_first()),
        }
    }
}

/// A [`Search`] as contracts see it: the plan, the place in it, and what has
/// been found.
pub struct SearchView {
    /// The places to look, in order.
    pub attempts: Seq<AttemptView>,
    /// The attempt that is under way.
    pub attempt: nat,
    /// The candidate of that attempt that comes next.
    pub candidate: nat,
    /// Whether the guard of that attempt has been found to exist.
    pub inside: bool,
    /// The file that was found, once one is.
    pub found: Option<Seq<char>>,
    /// What to report when every attempt has failed.
    pub failure: ResolveErrorView,
}

impl SearchView {
    /// The plan is sound: every attempt has something to try, and the place
    /// in the plan exists.
    pub open spec fn wf(self) -> bool {
        &&& forall|i: int|
            0 <= i < self.attempts.len() ==> (#[trigger] self.attempts[i]).candidates.len() > 0
        &&& self.attempt <= self.attempts.len()
        &&& self.attempt < self.attempts.len() ==> self.candidate
            < self.attempts[self.attempt as int].candidates.len()
        &&& self.attempt < self.attempts.len() && !self.inside
            && self.attempts[self.attempt as int].guard is Some ==> self.candidate == 0
    }

    /// Whether the guard of the current attempt is still to be asked about.
    pub open spec fn at_guard(self) -> bool {
        !self.inside && self.attempts[self.attempt as int].guard is Some
    }

    /// Where the search stands.
    pub open spec fn step(self) -> StepView {
        if let Some(file) = self.found {
            StepView::Resolved(FileIdentityView::Real(cleaned(file)))
        } else if self.attempt >= self.attempts.len() {
            StepView::Failed(self.failure)
        } else if self.at_guard() {
            StepView::Ask(ProbeView::Dir(self.attempts[self.attempt as int].guard.unwrap()))
        } else {
            StepView::Ask(
                ProbeView::File(
                    self.attempts[self.attempt as int].candidates[self.candidate as int].path,
                ),
            )
        }
    }

    /// The search at the start of the attempt after the current one.
    pub open spec fn next_attempt(self) -> SearchView {
        SearchView { attempt: self.attempt + 1, candidate: 0, inside: false, ..self }
    }

    /// The search after the pending probe was answered with `exists`. A
    /// search that asks nothing stays as it is.
    pub open spec fn answer(self, exists: bool) -> SearchView {
        if self.found is Some || self.attempt >= self.attempts.len() {
            self
        } else if self.at_guard() {
            if exists {
                SearchView { inside: true, ..self }
            } else {
                self.next_attempt()
            }
        } else {
            let current = self.attempts[self.attempt as int].candidates[self.candidate as int];
            if exists && current.role == Role::Target {
                SearchView { found: Some(current.path), ..self }
            } else if self.candidate + 1 < self.attempts[self.attempt as int].candidates.len() {
                SearchView { candidate: self.candidate + 1, inside: true, ..self }
            } else {
                self.next_attempt()
            }
        }
    }

    /// An upper bound on the probes that are still to come.
    pub open spec fn remaining(self) -> nat {
        if self.found is Some || self.attempt >= self.attempts.len() {
            0
        } else {
            (weight(self.attempts.skip(self.attempt as int)) - self.candidate - if self.at_guard() {
                0int
            } else {
                1int
            }) as nat
        }
    }

    /// The path that the search ends at if every probe from here on is
    /// answered as `fs` has it.
    pub open spec fn finds(self, fs: FsView) -> Option<Seq<char>> {
        if self.found is Some {
            self.found
        } else if self.attempt >= self.attempts.len() {
            None
        } else {
            let current = self.attempts[self.attempt as int];
            let here = if self.at_guard() {
                attempt_outcome(fs, current)
            } else {
                first_target(fs, current.candidates.skip(self.candidate as int))
            };
            match here {
                Some(file) => Some(file),
                None => plan_outcome(fs, self.attempts.skip(self.attempt as int + 1)),
            }
        }
    }

    /// What the search ends in if every probe from here on is answered as
    /// `fs` has it.
    pub open spec fn outcome(self, fs: FsView) -> Result<FileIdentityView, ResolveErrorView> {
        match self.finds(fs) {
            Some(file) => Ok(FileIdentityView::Real(cleaned(file))),
            None => Err(self.failure),
        }
    }

    /// The search for `path` wherever it points.
    pub open spec fn for_path(path: Seq<char>) -> SearchView {
        SearchView {
            attempts: seq![path_attempt(path)],
            attempt: 0,
            candidate: 0,
            inside: false,
            found: None,
            failure: ResolveErrorView::IndexNotFound(path),
        }
    }

    /// The search for package `target` from `dir` upwards.
    pub open spec fn for_package(dir: Seq<char>, target: Seq<char>) -> SearchView {
        SearchView {
            attempts: package_attempts(dir, target),
            attempt: 0,
            candidate: 0,
            inside: false,
            found: None,
            failure: ResolveErrorView::NotFound,
        }
    }

    /// The search that has failed before it began.
    pub open spec fn failed(failure: ResolveErrorView) -> SearchView {
        SearchView {
            attempts: Seq::empty(),
            attempt: 0,
            candidate: 0,
            inside: false,
            found: None,
            failure,
        }
    }

    /// The search for specifier `target`, written in module `base`.
    pub open spec fn begin(base: FileIdentityView, target: Seq<char>) -> SearchView {
        match base {
            FileIdentityView::Real(path) => {
                if is_absolute(target) {
                    SearchView::for_path(join("/"@, target))
                } else if is_relative(target) {
                    SearchView::for_path(join(base_dir(path), target))
                } else {
                    SearchView::for_package(base_dir(path), target)
                }
            },
            FileIdentityView::Virtual(_) => SearchView::failed(ResolveErrorView::UnsupportedBase),
        }
    }

    /// What `fs` answers to the pending probe.
    pub open spec fn truth(self, fs: FsView) -> bool {
        match self.step() {
            StepView::Ask(ProbeView::File(path)) => fs.is_file(path),
            StepView::Ask(ProbeView::Dir(path)) => fs.is_dir(path),
            _ => false,
        }
    }
}

/// The most probes that `attempts` can take: one for each guard and one for
/// each candidate.
pub open spec fn weight(attempts: Seq<AttemptView>) -> nat
    decreases attempts.len(),
{
    if attempts.len() == 0 {
        0
    } else {
        1 + attempts[0].candidates.len() + weight(attempts.drop_first())
    }
}

/// Among targets alone, the first target that exists is the first file.
pub proof fn lemma_first_target_of_targets(fs: FsView, paths: Seq<Seq<char>>)
    ensures
        first_target(fs, targets(paths)) == first_file(fs, paths),
    decreases paths.len(),
{
    if paths.len() > 0 {
        assert(targets(paths).drop_first() =~= targets(paths.drop_first()));
        lemma_first_target_of_targets(fs, paths.drop_first());
    }
}

/// Looking through two lists in a row is looking through the first and, if
/// nothing is found there, through the second.
pub proof fn lemma_first_target_concat(
    fs: FsView,
    front: Seq<CandidateView>,
    back: Seq<CandidateView>,
)
    ensures
        first_target(fs, front + back) == match first_target(fs, front) {
            Some(file) => Some(file),
            None => first_target(fs, back),
        },
    decreases front.len(),
{
    if front.len() > 0 {
        assert((front + back).drop_first() =~= front.drop_first() + back);
        lemma_first_target_concat(fs, front.drop_first(), back);
    }
}

/// The candidates of a path find what resolving it as a file or directory
/// finds, and where they find nothing the directory has no index.
pub proof fn lemma_path_candidates(fs: FsView, path: Seq<char>)
    ensures
        match as_path(fs, path) {
            Ok(file) => first_target(fs, path_candidates(path)) == Some(file),
            Err(error) => {
                &&& first_target(fs, path_candidates(path)) is None
                &&& error == ResolveErrorView::IndexNotFound(path)
            },
        },
{
    let files = targets(file_candidates(path));
    let manifest = seq![CandidateView { path: manifest_of(path), role: Role::Manifest }];
    let indexes = targets(index_candidates(path));
    lemma_first_target_of_targets(fs, file_candidates(path));
    lemma_first_target_of_targets(fs, index_candidates(path));
    lemma_first_target_concat(fs, files + manifest, indexes);
    lemma_first_target_concat(fs, files, manifest);
    assert(first_target(fs, manifest) is None) by {
        assert(first_target(fs, manifest.drop_first()) is None);
    }
}

/// The attempts for a package find what the walk up the `node_modules`
/// directories finds, and where they find nothing the package is not found.
pub proof fn lemma_package_attempts(fs: FsView, dir: Seq<char>, target: Seq<char>)
    ensures
        match in_node_modules(fs, dir, target) {
            Ok(file) => plan_outcome(fs, package_attempts(dir, target)) == Some(file),
            Err(error) => {
                &&& plan_outcome(fs, package_attempts(dir, target)) is None
                &&& error == ResolveErrorView::NotFound
            },
        },
    decreases dir.len(),
{
    let attempts = package_attempts(dir, target);
    let here = as_path(fs, join(modules_of(dir), target));
    lemma_path_candidates(fs, join(modules_of(dir), target));
    if !(fs.is_dir(modules_of(dir)) && here is Ok) {
        match parent(dir) {
            Some(up) if up.len() < dir.len() => {
                assert(attempts.drop_first() =~= package_attempts(up, target));
                lemma_package_attempts(fs, up, target);
            },
            _ => {
                assert(plan_outcome(fs, attempts.drop_first()) is None);
            },
        }
    }
}

/// A search begins sound: every attempt of its plan has candidates.
pub proof fn lemma_plans_are_sound(base: FileIdentityView, target: Seq<char>)
    ensures
        SearchView::begin(base, target).wf(),
{
    let attempts = SearchView::begin(base, target).attempts;
    assert forall|i: int| 0 <= i < attempts.len() implies (#[trigger] attempts[i]).candidates.len()
        > 0 by {}
}

/// A search begins with the whole resolution before it: answered as a file
/// system has it, it ends in what the specifier resolves to there.
pub proof fn lemma_begin_outcome(fs: FsView, base: FileIdentityView, target: Seq<char>)
    ensures
        SearchView::begin(base, target).outcome(fs) == resolution(fs, base, target),
{
    let search = SearchView::begin(base, target);
    match base {
        FileIdentityView::Real(path) => {
            if is_absolute(target) || is_relative(target) {
                let joined = if is_absolute(target) {
                    join("/"@, target)
                } else {
                    join(base_dir(path), target)
                };
                lemma_path_candidates(fs, joined);
                assert(search.attempts[0].candidates.skip(0) =~= search.attempts[0].candidates);
            } else {
                lemma_package_attempts(fs, base_dir(path), target);
            }
        },
        FileIdentityView::Virtual(_) => {},
    }
}

/// A search that moves on to its next attempt has the rest of the plan
/// before it.
proof fn lemma_next_attempt(search: SearchView, fs: FsView)
    requires
        search.found is None,
        search.attempt < search.attempts.len(),
    ensures
        search.next_attempt().finds(fs) == plan_outcome(
            fs,
            search.attempts.skip(search.attempt as int + 1),
        ),
{
    let after = search.next_attempt();
    let rest = search.attempts.skip(search.attempt as int + 1);
    if after.attempt < search.attempts.len() {
        let following = search.attempts[after.attempt as int];
        assert(following.candidates.skip(0) =~= following.candidates);
        assert(rest.drop_first() =~= search.attempts.skip(after.attempt as int + 1));
    }
}

/// A truthful answer loses nothing: the search ends where it would have
/// ended before the answer. Any answer leaves the plan sound and brings the
/// end nearer.
pub proof fn lemma_answer(search: SearchView, fs: FsView, exists: bool)
    requires
        search.wf(),
        search.step() is Ask,
    ensures
        search.answer(exists).wf(),
        search.answer(exists).remaining() < search.remaining(),
        exists == search.truth(fs) ==> search.answer(exists).outcome(fs) == search.outcome(fs),
{
    let current = search.attempts[search.attempt as int];
    let rest = search.attempts.skip(search.attempt as int);
    let ahead = current.candidates.skip(search.candidate as int);
    assert(rest.drop_first() =~= search.attempts.skip(search.attempt as int + 1));
    assert(ahead.drop_first() =~= current.candidates.skip(search.candidate as int + 1));
    lemma_next_attempt(search, fs);
    if !search.at_guard() && exists == search.truth(fs) && !(exists && ahead[0].role
        == Role::Target) {
        assert(first_target(fs, ahead) == first_target(fs, ahead.drop_first()));
    }
}

/// A search that asks nothing has ended: in the file it holds, or in its
/// failure, whatever the file system.
pub proof fn lemma_settled(search: SearchView, fs: FsView)
    ensures
        search.step() matches StepView::Resolved(file) ==> search.outcome(fs) == Ok::<
            FileIdentityView,
            ResolveErrorView,
        >(file),
        search.step() matches StepView::Failed(error) ==> search.outcome(fs) == Err::<
            FileIdentityView,
            ResolveErrorView,
        >(error),
{
}

/// The candidates of a list as contracts see them.
pub open spec fn candidate_views(candidates: Seq<Candidate>) -> Seq<CandidateView> {
    candidates.map_values(|candidate: Candidate| candidate@)
}

/// The attempts of a list as contracts see them.
pub open spec fn attempt_views(attempts: Seq<Attempt>) -> Seq<AttemptView> {
    attempts.map_values(|attempt: Attempt| attempt@)
}

/// The candidates for `path`, in the order in which they are looked at.
pub fn path_candidate_list(path: &str) -> (out: Vec<Candidate>)
    ensures
        candidate_views(out@) == path_candidates(path@),
{
    let files = file_candidate_list(path);
    let indexes = index_candidate_list(path);
    let mut out: Vec<Candidate> = Vec::new();
    let mut i: usize = 0;
    while i < files.len()
        invariant
            i <= files.len(),
            out.len() == i,
            forall|k: int| 0 <= k < i ==> (#[trigger] out[k])@ == targets(texts(files@))[k],
        decreases files.len() - i,
    {
        out.push(Candidate { path: files[i].clone(), role: Role::Target });
        i = i + 1;
    }
    out.push(Candidate { path: join_paths(path, "package.json"), role: Role::Manifest });
    let ghost before = out@;
    let mut j: usize = 0;
    while j < indexes.len()
        invariant
            j <= indexes.len(),
            out.len() == before.len() + j,
            out@.take(before.len() as int) == before,
            forall|k: int|
                0 <= k < j ==> (#[trigger] out[before.len() + k])@ == targets(texts(indexes@))[k],
        decreases indexes.len() - j,
    {
        out.push(Candidate { path: indexes[j].clone(), role: Role::Target });
        j = j + 1;
    }
    assert(candidate_views(out@) =~= path_candidates(path@)) by {
        assert forall|k: int| 0 <= k < out.len() implies candidate_views(out@)[k]
            == path_candidates(path@)[k] by {
            if k < before.len() {
                assert(out@.take(before.len() as int)[k] == before[k]);
            } else {
                assert(out[before.len() + (k - before.len())]@ == targets(texts(indexes@))[k
                    - before.len()]);
            }
        }
    }
    out
}

/// The attempts to find package `target` from `dir` upwards.
pub fn package_attempt_list(dir: &str, target: &str) -> (out: Vec<Attempt>)
    ensures
        attempt_views(out@) == package_attempts(dir@, target@),
{
    let mut out: Vec<Attempt> = Vec::new();
    let mut next: Option<String> = Some(dir.to_string());
    while next.is_some()
        invariant
            match next {
                Some(current) => attempt_views(out@) + package_attempts(current@, target@)
                    == package_attempts(dir@, target@),
                None => attempt_views(out@) == package_attempts(dir@, target@),
            },
        decreases
            match next {
                Some(current) => current@.len() + 1,
                None => 0,
            },
    {
        let current = next.unwrap();
        let modules = join_paths(current.as_str(), "node_modules");
        let path = join_paths(modules.as_str(), target);
        let candidates = path_candidate_list(path.as_str());
        out.push(Attempt { guard: Some(modules), candidates });
        next = parent_of(current.as_str());
        proof {
            lemma_parent_is_shorter(current@);
        }
    }
    out
}

/// A resolution in progress. See the module text for how to drive it.
pub struct Search {
    attempts: Vec<Attempt>,
    attempt: usize,
    candidate: usize,
    inside: bool,
    found: Option<String>,
    failure: ResolveError,
}

impl View for Search {
    type V = SearchView;

    closed spec fn view(&self) -> SearchView {
        SearchView {
            attempts: attempt_views(self.attempts@),
            attempt: self.attempt as nat,
            candidate: self.candidate as nat,
            inside: self.inside,
            found: match self.found {
                Some(file) => Some(file@),
                None => None,
            },
            failure: self.failure@,
        }
    }
}

impl Search {
    #[verifier::type_invariant]
    spec fn sound(&self) -> bool {
        self@.wf()
    }

    /// The search for `path` wherever it points.
    fn for_path(path: String) -> (search: Search)
        ensures
            search@ == SearchView::for_path(path@),
    {
        let mut attempts: Vec<Attempt> = Vec::new();
        attempts.push(Attempt { guard: None, candidates: path_candidate_list(path.as_str()) });
        assert(attempt_views(attempts@) =~= seq![path_attempt(path@)]);
        Search {
            attempts,
            attempt: 0,
            candidate: 0,
            inside: false,
            found: None,
            failure: ResolveError::IndexNotFound(path),
        }
    }

    /// Begins the search for specifier `target`, written in module `base`.
    /// Whatever the file system, the search ends in what the specifier
    /// resolves to there.
    pub fn begin(base: &FileIdentity, target: &str) -> (search: Search)
        ensures
            search@ == SearchView::begin(base@, target@),
            search@.wf(),
            forall|fs: FsView| #[trigger] search@.outcome(fs) == resolution(fs, base@, target@),
    {
        proof {
            assert forall|fs: FsView| #[trigger]
                SearchView::begin(base@, target@).outcome(fs) == resolution(
                fs,
                base@,
                target@,
            ) by {
                lemma_begin_outcome(fs, base@, target@);
            }
        }
        let base_path = match base {
            FileIdentity::Real(path) => path,
            FileIdentity::Virtual(_) => {
                let attempts: Vec<Attempt> = Vec::new();
                assert(attempt_views(attempts@) =~= Seq::<AttemptView>::empty());
                return Search {
                    attempts,
                    attempt: 0,
                    candidate: 0,
                    inside: false,
                    found: None,
                    failure: ResolveError::UnsupportedBase,
                };
            },
        };
        if starts_with(target, "/") {
            return Search::for_path(join_paths("/", target));
        }
        let dir = match parent_of(base_path.as_str()) {
            Some(dir) => dir,
            None => ".".to_string(),
        };
        if starts_with(target, "./") || starts_with(target, "../") {
            Search::for_path(join_paths(dir.as_str(), target))
        } else {
            Search {
                attempts: package_attempt_list(dir.as_str(), target),
                attempt: 0,
                candidate: 0,
                inside: false,
                found: None,
                failure: ResolveError::NotFound,
            }
        }
    }

    /// Where the search stands: the probe it needs answered, or how it ended.
    pub fn step(&self) -> (step: Step)
        ensures
            step@ == self@.step(),
            self@.wf(),
    {
        proof {
            use_type_invariant(self);
        }
        if let Some(file) = &self.found {
            return Step::Resolved(FileIdentity::Real(clean(file.as_str())));
        }
        if self.attempt >= self.attempts.len() {
            return Step::Failed(self.failure.clone());
        }
        let current = &self.attempts[self.attempt];
        if !self.inside {
            if let Some(dir) = &current.guard {
                return Step::Ask(Probe::Dir(dir.clone()));
            }
        }
        Step::Ask(Probe::File(current.candidates[self.candidate].path.clone()))
    }

    /// Takes the answer to the pending probe and moves on. A search that asks
    /// nothing stays as it is. A truthful answer leaves the end of the search
    /// as it was.
    pub fn answer(self, exists: bool) -> (next: Search)
        ensures
            next@ == self@.answer(exists),
            next@.wf(),
            forall|fs: FsView|
                self@.step() is Ask && exists == self@.truth(fs) ==> #[trigger] next@.outcome(fs)
                    == self@.outcome(fs),
    {
        proof {
            use_type_invariant(&self);
        }
        if self.found.is_some() || self.attempt >= self.attempts.len() {
            return self;
        }
        proof {
            assert forall|fs: FsView| exists == self@.truth(fs) implies #[trigger] self@.answer(
                exists,
            ).outcome(fs) == self@.outcome(fs) by {
                lemma_answer(self@, fs, exists);
            }
        }
        let count = self.attempts[self.attempt].candidates.len();
        let at_guard = !self.inside && self.attempts[self.attempt].guard.is_some();
        if at_guard {
            if exists {
                Search { inside: true, ..self }
            } else {
                Search { attempt: self.attempt + 1, candidate: 0, inside: false, ..self }
            }
        } else {
            let is_target = match self.attempts[self.attempt].candidates[self.candidate].role {
                Role::Target => true,
                Role::Manifest => false,
            };
            if exists && is_target {
                let file = self.attempts[self.attempt].candidates[self.candidate].path.clone();
                Search { found: Some(file), ..self }
            } else if self.candidate + 1 < count {
                Search { candidate: self.candidate + 1, inside: true, ..self }
            } else {
                Search { attempt: self.attempt + 1, candidate: 0, inside: false, ..self }
            }
        }
    }

    /// Runs the search to its end against `tree`.
    pub fn run(self, tree: &FileTree) -> (result: Result<FileIdentity, ResolveError>)
        ensures
            crate::resolver::identity_outcome(result) == self@.outcome(tree@),
    {
        let ghost start = self@;
        let mut search = self;
        loop
            invariant
                start == self@,
                search@.outcome(tree@) == start.outcome(tree@),
            decreases search@.remaining(),
        {
            let exists = match search.step() {
                Step::Resolved(file) => {
                    return Ok(file);
                },
                Step::Failed(error) => {
                    return Err(error);
                },
                Step::Ask(Probe::File(path)) => tree.is_file(path.as_str()),
                Step::Ask(Probe::Dir(path)) => tree.is_dir(path.as_str()),
            };
            proof {
                lemma_answer(search@, tree@, exists);
            }
            search = search.answer(exists);
        }
    }
}

} // verus!
