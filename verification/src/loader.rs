//! Loading a module: what is read, how it is parsed, and which transforms
//! run over it in which order.
//!
//! Reading, parsing and transforming are done by whoever drives a
//! [`Loader`]. The loader says what comes next and takes the outcome of each
//! step. A step that fails ends the load: nothing is delivered after it.

use crate::path::ends_with;
use vstd::prelude::*;

verus! {

/// The language level that sources are parsed at.
pub const ES_TARGET: u16 = 2020;

/// The place of delivery in the steps of a load: behind reading, parsing and
/// the five transforms.
pub const DELIVERY: usize = 7;

/// A transform over a parsed module.
#[derive(Clone, Copy, Debug, PartialEq, Eq, Structural)]
pub enum Pass {
    /// Marks every binding with the module's scope markers, so that merging
    /// can rename without collisions.
    ScopeMarking,
    /// Rewrites decorators into plain calls.
    DecoratorLowering,
    /// Rewrites JSX elements into calls of the element factory.
    JsxLowering,
    /// Removes everything that only TypeScript understands.
    TypeErasure,
    /// Defines, once per module, each runtime helper that an earlier pass
    /// referred to.
    HelperInjection,
}

/// How decorators are lowered.
#[derive(Clone, Copy, Debug, PartialEq, Eq, Structural)]
pub struct DecoratorOptions {
    /// Legacy decorator semantics.
    pub legacy: bool,
    /// Whether type metadata is emitted for decorated members.
    pub emit_metadata: bool,
    /// Whether class fields are defined rather than assigned.
    pub use_define_for_class_fields: bool,
}

/// How a source is parsed.
#[derive(Clone, Copy, Debug, PartialEq, Eq, Structural)]
pub struct ParseOptions {
    /// Whether the JSX grammar is on.
    pub jsx: bool,
    /// Whether the decorator grammar is on.
    pub decorators: bool,
    /// The language level, by year.
    pub target: u16,
}

/// Whether the file at `path` is JSX-flavoured: its name ends in `.tsx` or
/// `.jsx`.
pub open spec fn is_jsx(path: Seq<char>) -> bool {
    ".tsx"@.is_suffix_of(path) || ".jsx"@.is_suffix_of(path)
}

/// How the file at `path` is parsed: as TypeScript of the fixed language
/// level with decorators, and with JSX where the file is JSX-flavoured.
pub open spec fn parse_options(path: Seq<char>) -> ParseOptions {
    ParseOptions { jsx: is_jsx(path), decorators: true, target: ES_TARGET }
}

/// The transforms of a load, in the order in which they must run. Each relies
/// on what the one before it established.
pub open spec fn pipeline() -> Seq<Pass> {
    seq![
        Pass::ScopeMarking,
        Pass::DecoratorLowering,
        Pass::JsxLowering,
        Pass::TypeErasure,
        Pass::HelperInjection,
    ]
}

/// The decorator lowering of this pipeline: legacy semantics, no type
/// metadata, class fields assigned.
pub open spec fn decorator_options() -> DecoratorOptions {
    DecoratorOptions { legacy: true, emit_metadata: false, use_define_for_class_fields: false }
}

/// A step of a load.
#[derive(Debug, PartialEq, Eq)]
pub enum LoadAction {
    /// Read the file at this path.
    Read(String),
    /// Parse what was read.
    Parse(ParseOptions),
    /// Run this transform over the module.
    Apply(Pass),
    /// Hand the module over: the load is done.
    Deliver,
    /// Give up: the load has failed.
    Fail(LoadError),
}

/// A [`LoadAction`] as contracts see it.
pub enum LoadActionView {
    Read(Seq<char>),
    Parse(ParseOptions),
    Apply(Pass),
    Deliver,
    Fail(LoadErrorView),
}

/// The part of a load that failed.
#[derive(Clone, Copy, Debug, PartialEq, Eq, Structural)]
pub enum LoadStage {
    Read,
    Parse,
    Transform(Pass),
}

/// Why a load failed.
#[derive(Debug, PartialEq, Eq)]
pub struct LoadError {
    /// The file that was being loaded.
    pub file: String,
    /// The step that failed.
    pub stage: LoadStage,
    /// What the step reported.
    pub detail: String,
}

/// A [`LoadError`] as contracts see it.
pub struct LoadErrorView {
    pub file: Seq<char>,
    pub stage: LoadStage,
    pub detail: Seq<char>,
}

impl View for LoadError {
    type V = LoadErrorView;

    open spec fn view(&self) -> LoadErrorView {
        LoadErrorView { file: self.file@, stage: self.stage, detail: self.detail@ }
    }
}

impl Clone for LoadError {
    fn clone(&self) -> (copy: Self)
        ensures
            copy == *self,
    {
        LoadError { file: self.file.clone(), stage: self.stage, detail: self.detail.clone() }
    }
}

impl View for LoadAction {
    type V = LoadActionView;

    open spec fn view(&self) -> LoadActionView {
        match self {
            LoadAction::Read(path) => LoadActionView::Read(path@),
            LoadAction::Parse(options) => LoadActionView::Parse(*options),
            LoadAction::Apply(pass) => LoadActionView::Apply(*pass),
            LoadAction::Deliver => LoadActionView::Deliver,
            LoadAction::Fail(error) => LoadActionView::Fail(error@),
        }
    }
}

/// The steps of a load that meets no failure: read, parse, each transform of
/// the pipeline, deliver.
pub open spec fn script(file: Seq<char>) -> Seq<LoadActionView> {
    seq![LoadActionView::Read(file), LoadActionView::Parse(parse_options(file))]
        + pipeline().map_values(|pass: Pass| LoadActionView::Apply(pass)) + seq![
        LoadActionView::Deliver,
    ]
}

/// The part of a load that step `at` of its script belongs to.
pub open spec fn stage_at(at: nat) -> LoadStage
    recommends
        at < 2 + pipeline().len(),
{
    if at == 0 {
        LoadStage::Read
    } else if at == 1 {
        LoadStage::Parse
    } else {
        LoadStage::Transform(pipeline()[at - 2])
    }
}

/// A [`Loader`] as contracts see it.
pub struct LoaderView {
    /// The file that is being loaded.
    pub file: Seq<char>,
    /// How many steps have succeeded.
    pub done: nat,
    /// The failure that ended the load, if one did.
    pub failure: Option<LoadErrorView>,
}

impl LoaderView {
    /// The load of `file` before its first step.
    pub open spec fn begin(file: Seq<char>) -> LoaderView {
        LoaderView { file, done: 0, failure: None }
    }

    /// The last step of the script: delivery.
    pub open spec fn last() -> nat {
        (script(Seq::empty()).len() - 1) as nat
    }

    /// The load is somewhere in its script.
    pub open spec fn wf(self) -> bool {
        self.done <= Self::last()
    }

    /// Whether the load has ended, in delivery or in failure.
    pub open spec fn ended(self) -> bool {
        self.failure is Some || self.done == Self::last()
    }

    /// What is to be done now.
    pub open spec fn action(self) -> LoadActionView {
        match self.failure {
            Some(error) => LoadActionView::Fail(error),
            None => script(self.file)[self.done as int],
        }
    }

    /// The load after its pending step succeeded, or failed with a report.
    /// A load that has ended stays as it is.
    pub open spec fn advance(self, outcome: Result<(), Seq<char>>) -> LoaderView {
        if self.ended() {
            self
        } else {
            match outcome {
                Ok(_) => LoaderView { done: self.done + 1, ..self },
                Err(detail) => LoaderView {
                    failure: Some(
                        LoadErrorView { file: self.file, stage: stage_at(self.done), detail },
                    ),
                    ..self
                },
            }
        }
    }

    /// The load after each of `outcomes` in turn.
    pub open spec fn advance_all(self, outcomes: Seq<Result<(), Seq<char>>>) -> LoaderView
        decreases outcomes.len(),
    {
        if outcomes.len() == 0 {
            self
        } else {
            self.advance(outcomes[0]).advance_all(outcomes.drop_first())
        }
    }
}

/// While every step succeeds, the steps are those of the script, in its
/// order: after `count` successes the step at `count` is pending.
pub proof fn lemma_steps_follow_script(file: Seq<char>, count: nat)
    requires
        count <= LoaderView::last(),
    ensures
        LoaderView::begin(file).advance_all(Seq::new(count, |i: int| Ok::<(), Seq<char>>(()))).action()
            == script(file)[count as int],
{
    lemma_successes(LoaderView::begin(file), count);
}

/// A run of successes moves a load on by as many steps.
proof fn lemma_successes(loader: LoaderView, count: nat)
    requires
        loader.failure is None,
        loader.done + count <= LoaderView::last(),
    ensures
        loader.advance_all(Seq::new(count, |i: int| Ok::<(), Seq<char>>(()))) == (LoaderView {
            done: loader.done + count,
            ..loader
        }),
    decreases count,
{
    let outcomes = Seq::new(count, |i: int| Ok::<(), Seq<char>>(()));
    if count > 0 {
        assert(outcomes.drop_first() =~= Seq::new((count - 1) as nat, |i: int| Ok::<(), Seq<char>>(())));
        lemma_successes(loader.advance(Ok(())), (count - 1) as nat);
    }
}

/// A failure is final: whatever is reported after it, the load stays failed
/// with the same error and never delivers.
pub proof fn lemma_failure_is_final(loader: LoaderView, outcomes: Seq<Result<(), Seq<char>>>)
    requires
        loader.failure is Some,
    ensures
        loader.advance_all(outcomes) == loader,
        loader.advance_all(outcomes).action() == LoadActionView::Fail(loader.failure.unwrap()),
    decreases outcomes.len(),
{
    if outcomes.len() > 0 {
        lemma_failure_is_final(loader, outcomes.drop_first());
    }
}

/// A load in progress.
pub struct Loader {
    file: String,
    done: usize,
    failure: Option<LoadError>,
}

impl View for Loader {
    type V = LoaderView;

    closed spec fn view(&self) -> LoaderView {
        LoaderView {
            file: self.file@,
            done: self.done as nat,
            failure: match self.failure {
                Some(error) => Some(error@),
                None => None,
            },
        }
    }
}

/// Whether the file at `path` is JSX-flavoured.
pub fn detect_jsx(path: &str) -> (jsx: bool)
    ensures
        jsx == is_jsx(path@),
{
    ends_with(path, ".tsx") || ends_with(path, ".jsx")
}

/// The transforms of a load, in the order in which they must run.
pub fn pipeline_passes() -> (passes: Vec<Pass>)
    ensures
        passes@ == pipeline(),
{
    let passes = vec![
        Pass::ScopeMarking,
        Pass::DecoratorLowering,
        Pass::JsxLowering,
        Pass::TypeErasure,
        Pass::HelperInjection,
    ];
    passes
}

/// The transform that runs at place `at` of the pipeline.
fn pass_at(at: usize) -> (pass: Pass)
    requires
        at < pipeline().len(),
    ensures
        pass == pipeline()[at as int],
{
    if at == 0 {
        Pass::ScopeMarking
    } else if at == 1 {
        Pass::DecoratorLowering
    } else if at == 2 {
        Pass::JsxLowering
    } else if at == 3 {
        Pass::TypeErasure
    } else {
        Pass::HelperInjection
    }
}

/// The decorator lowering of this pipeline.
pub fn decorator_lowering() -> (options: DecoratorOptions)
    ensures
        options == decorator_options(),
{
    DecoratorOptions { legacy: true, emit_metadata: false, use_define_for_class_fields: false }
}

impl Loader {
    #[verifier::type_invariant]
    spec fn sound(&self) -> bool {
        self@.wf()
    }

    /// Begins the load of `file`.
    pub fn begin(file: &str) -> (loader: Loader)
        ensures
            loader@ == LoaderView::begin(file@),
    {
        Loader { file: file.to_string(), done: 0, failure: None }
    }

    /// What is to be done now.
    pub fn action(&self) -> (action: LoadAction)
        ensures
            action@ == self@.action(),
    {
        proof {
            use_type_invariant(self);
        }
        if let Some(error) = &self.failure {
            return LoadAction::Fail(error.clone());
        }
        if self.done == 0 {
            LoadAction::Read(self.file.clone())
        } else if self.done == 1 {
            LoadAction::Parse(
                ParseOptions {
                    jsx: detect_jsx(self.file.as_str()),
                    decorators: true,
                    target: ES_TARGET,
                },
            )
        } else if self.done < DELIVERY {
            LoadAction::Apply(pass_at(self.done - 2))
        } else {
            LoadAction::Deliver
        }
    }

    /// Takes the outcome of the pending step: success, or failure with a
    /// report. A load that has ended stays as it is.
    pub fn advance(self, outcome: Result<(), String>) -> (next: Loader)
        ensures
            next@ == self@.advance(
                match outcome {
                    Ok(_) => Ok(()),
                    Err(detail) => Err(detail@),
                },
            ),
    {
        proof {
            use_type_invariant(&self);
        }
        if self.failure.is_some() || self.done >= DELIVERY {
            return self;
        }
        match outcome {
            Ok(_) => Loader { done: self.done + 1, ..self },
            Err(detail) => {
                let stage = if self.done == 0 {
                    LoadStage::Read
                } else if self.done == 1 {
                    LoadStage::Parse
                } else {
                    LoadStage::Transform(pass_at(self.done - 2))
                };
                let error = LoadError { file: self.file.clone(), stage, detail };
                Loader { failure: Some(error), ..self }
            },
        }
    }
}

} // verus!
