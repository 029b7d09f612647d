//! Loading a `tsconfig.json` with what it extends and references, as a walk
//! that tells its caller what to load next and is told when that is done:
//! first the paths of the configs it extends are found (an entry that is a
//! path stands as it is or against the config's folder; any other names a
//! package, which the caller looks up), all before any is loaded; then each
//! is loaded and extended from in order; then the references are set up as
//! the option asks, and each referenced config is loaded.
use vstd::prelude::*;

use crate::error::{ErrorView, ResolveError};
use crate::exports::texts;
use crate::path::normalized_join;
use crate::resolver::{extended_config, ExtendedConfig};
use crate::tsconfig::{ExtendsField, ExtendsText};

verus! {

/// Where an `extends` entry of a config in the folder `dir` points: an
/// empty entry is an error; an absolute one is the path itself; one starting
/// with `.` resolves against the folder; any other names a package.
pub enum ExtendsTarget {
    Empty,
    Path(Seq<char>),
    Package,
}

/// Where the `extends` entry `s` of a config in `dir` points.
pub open spec fn extends_target(dir: Seq<char>, s: Seq<char>) -> ExtendsTarget {
    if s.len() == 0 {
        ExtendsTarget::Empty
    } else if s[0] == '/' {
        ExtendsTarget::Path(s)
    } else if s[0] == '.' {
        ExtendsTarget::Path(normalized_join(dir, s))
    } else {
        ExtendsTarget::Package
    }
}

/// The entries of an `extends` field, in order.
pub open spec fn extends_entries(e: Option<ExtendsText>) -> Seq<Seq<char>> {
    match e {
        None => Seq::empty(),
        Some(ExtendsText::Single(s)) => seq![s],
        Some(ExtendsText::Multiple(v)) => v,
    }
}

/// What the load waits to be told.
#[derive(Clone, Copy, PartialEq, Eq, Structural)]
pub enum TsLoadStage {
    Begin,
    /// Where the package an `extends` entry names holds its config.
    FindPackage,
    /// That the config extended from has been loaded and extended from.
    Extend,
    /// The paths of the referenced configs, once the option is applied.
    References,
    /// That the referenced config has been loaded and recorded.
    Reference,
    Finished,
}

/// What the caller tells the load.
pub enum TsLoadAnswer {
    Begin,
    /// Where the package config was found, or why not.
    Found(Result<String, ResolveError>),
    /// The config asked for was loaded and used.
    Done,
    /// The paths of the referenced configs (see
    /// [`crate::tsconfig::TsConfig::reference_config_paths`]).
    ReferencePaths(Vec<String>),
}

/// [`TsLoadAnswer`] with its strings as character sequences.
pub enum TsLoadAnswerText {
    Begin,
    Found(Result<Seq<char>, ErrorView>),
    Done,
    ReferencePaths(Seq<Seq<char>>),
}

impl View for TsLoadAnswer {
    type V = TsLoadAnswerText;

    open spec fn view(&self) -> TsLoadAnswerText {
        match self {
            TsLoadAnswer::Begin => TsLoadAnswerText::Begin,
            TsLoadAnswer::Found(r) => TsLoadAnswerText::Found(
                match r {
                    Ok(p) => Ok(p@),
                    Err(e) => Err(e@),
                },
            ),
            TsLoadAnswer::Done => TsLoadAnswerText::Done,
            TsLoadAnswer::ReferencePaths(v) => TsLoadAnswerText::ReferencePaths(texts(v@)),
        }
    }
}

/// What the load asks of the caller next.
#[derive(Debug, PartialEq, Eq)]
pub enum TsLoadQuery {
    /// Find the config the package `specifier` holds, from `directory` (as
    /// the resolver does, with `.json` the extension and `tsconfig.json` the
    /// main file).
    FindPackage { directory: String, specifier: String },
    /// Load the config at this path (not as a root, without references) and
    /// extend the config from it.
    LoadExtended(String),
    /// Apply the references option to the config and give the paths of its
    /// referenced configs.
    ApplyReferences,
    /// Load the config at this path (as a root), check that it is not the
    /// config itself, and record it as the `index`-th reference.
    LoadReference { index: usize, path: String },
    /// The config is loaded, or the error.
    Done(Result<(), ResolveError>),
}

/// [`TsLoadQuery`] with its strings as character sequences.
pub enum TsLoadQueryText {
    FindPackage(Seq<char>, Seq<char>),
    LoadExtended(Seq<char>),
    ApplyReferences,
    LoadReference(int, Seq<char>),
    Done(Result<(), ErrorView>),
}

impl View for TsLoadQuery {
    type V = TsLoadQueryText;

    open spec fn view(&self) -> TsLoadQueryText {
        match self {
            TsLoadQuery::FindPackage { directory, specifier } => TsLoadQueryText::FindPackage(directory@, specifier@),
            TsLoadQuery::LoadExtended(p) => TsLoadQueryText::LoadExtended(p@),
            TsLoadQuery::ApplyReferences => TsLoadQueryText::ApplyReferences,
            TsLoadQuery::LoadReference { index, path } => TsLoadQueryText::LoadReference(*index as int, path@),
            TsLoadQuery::Done(r) => TsLoadQueryText::Done(
                match r {
                    Ok(()) => Ok(()),
                    Err(e) => Err(e@),
                },
            ),
        }
    }
}

/// The state of a load: the config's folder, its `extends` entries, the
/// paths of the configs extended from found so far, the paths of the
/// referenced configs, the current index, and what it waits to be told.
pub struct TsLoadText {
    pub directory: Seq<char>,
    pub entries: Seq<Seq<char>>,
    pub paths: Seq<Seq<char>>,
    pub references: Seq<Seq<char>>,
    pub index: int,
    pub stage: TsLoadStage,
}

/// The load ends with `r`.
pub open spec fn ts_done(w: TsLoadText, r: Result<(), ErrorView>) -> (TsLoadText, TsLoadQueryText) {
    (TsLoadText { stage: TsLoadStage::Finished, ..w }, TsLoadQueryText::Done(r))
}

/// Loads the configs extended from, from the `i`-th on; then the
/// references.
pub open spec fn ts_extend_from(w: TsLoadText, i: int) -> (TsLoadText, TsLoadQueryText) {
    if 0 <= i < w.paths.len() {
        (TsLoadText { stage: TsLoadStage::Extend, index: i, ..w }, TsLoadQueryText::LoadExtended(w.paths[i]))
    } else {
        (TsLoadText { stage: TsLoadStage::References, ..w }, TsLoadQueryText::ApplyReferences)
    }
}

/// Finds the paths of the `extends` entries from the `i`-th on; then loads
/// them.
pub open spec fn ts_find_from(w: TsLoadText, i: int) -> (TsLoadText, TsLoadQueryText)
    decreases w.entries.len() - i,
{
    if 0 <= i < w.entries.len() {
        match extends_target(w.directory, w.entries[i]) {
            ExtendsTarget::Empty => ts_done(w, Err(ErrorView::EmptySpecifier(w.entries[i]))),
            ExtendsTarget::Path(p) => ts_find_from(TsLoadText { paths: w.paths.push(p), ..w }, i + 1),
            ExtendsTarget::Package => (
                TsLoadText { stage: TsLoadStage::FindPackage, index: i, ..w },
                TsLoadQueryText::FindPackage(w.directory, w.entries[i]),
            ),
        }
    } else {
        ts_extend_from(w, 0)
    }
}

/// Loads the referenced configs from the `i`-th on; then the load is done.
pub open spec fn ts_reference_from(w: TsLoadText, i: int) -> (TsLoadText, TsLoadQueryText) {
    if 0 <= i < w.references.len() {
        (
            TsLoadText { stage: TsLoadStage::Reference, index: i, ..w },
            TsLoadQueryText::LoadReference(i, w.references[i]),
        )
    } else {
        ts_done(w, Ok(()))
    }
}

/// The answer the load waits for; once over, it waits for none.
pub open spec fn ts_expects(stage: TsLoadStage, a: TsLoadAnswerText) -> bool {
    match stage {
        TsLoadStage::Begin => a is Begin,
        TsLoadStage::FindPackage => a is Found,
        TsLoadStage::References => a is ReferencePaths,
        TsLoadStage::Finished => false,
        _ => a is Done,
    }
}

/// The next state of the load and its next question, once told `a`. A
/// package config that is not found fails the load as such, naming the
/// entry; any other error stands.
pub open spec fn ts_next(w: TsLoadText, a: TsLoadAnswerText) -> (TsLoadText, TsLoadQueryText) {
    match w.stage {
        TsLoadStage::Begin => ts_find_from(w, 0),
        TsLoadStage::FindPackage => match a {
            TsLoadAnswerText::Found(Ok(p)) => ts_find_from(TsLoadText { paths: w.paths.push(p), ..w }, w.index + 1),
            TsLoadAnswerText::Found(Err(ErrorView::NotFound(_))) => ts_done(
                w,
                Err(ErrorView::TsconfigNotFound(w.entries[w.index])),
            ),
            TsLoadAnswerText::Found(Err(e)) => ts_done(w, Err(e)),
            _ => ts_done(w, Err(ErrorView::TsconfigNotFound(w.entries[w.index]))),
        },
        TsLoadStage::Extend => ts_extend_from(w, w.index + 1),
        TsLoadStage::References => match a {
            TsLoadAnswerText::ReferencePaths(v) => ts_reference_from(TsLoadText { references: v, ..w }, 0),
            _ => ts_reference_from(TsLoadText { references: Seq::empty(), ..w }, 0),
        },
        TsLoadStage::Reference => ts_reference_from(w, w.index + 1),
        TsLoadStage::Finished => (w, TsLoadQueryText::Done(Ok(()))),
    }
}

/// One load of a `tsconfig.json`'s extended and referenced configs.
pub struct TsconfigLoad {
    directory: String,
    entries: Vec<String>,
    paths: Vec<String>,
    references: Vec<String>,
    index: usize,
    stage: TsLoadStage,
}

impl View for TsconfigLoad {
    type V = TsLoadText;

    closed spec fn view(&self) -> TsLoadText {
        TsLoadText {
            directory: self.directory@,
            entries: texts(self.entries@),
            paths: texts(self.paths@),
            references: texts(self.references@),
            index: self.index as int,
            stage: self.stage,
        }
    }
}

/// The entries of an `extends` field (see [`extends_entries`]).
fn entries_of(extends: &Option<ExtendsField>) -> (r: Vec<String>)
    ensures
        texts(r@) == extends_entries(crate::tsconfig::opt_extends(*extends)),
{
    match extends {
        None => {
            let r: Vec<String> = Vec::new();
            proof {
                assert(texts(r@) =~= Seq::<Seq<char>>::empty());
            }
            r
        },
        Some(ExtendsField::Single(s)) => {
            let mut r: Vec<String> = Vec::new();
            r.push(s.clone());
            proof {
                assert(texts(r@) =~= seq![s@]);
            }
            r
        },
        Some(ExtendsField::Multiple(v)) => {
            let mut r: Vec<String> = Vec::new();
            let mut i: usize = 0;
            while i < v.len()
                invariant
                    i <= v@.len(),
                    texts(r@) == texts(v@).take(i as int),
                decreases v@.len() - i,
            {
                let ghost before = r@;
                r.push(v[i].clone());
                proof {
                    assert(texts(r@) =~= texts(before).push(v@[i as int]@));
                    assert(texts(v@).take(i as int + 1) =~= texts(v@).take(i as int).push(v@[i as int]@));
                }
                i = i + 1;
            }
            proof {
                assert(texts(v@).take(v@.len() as int) =~= texts(v@));
            }
            r
        },
    }
}

impl TsconfigLoad {
    /// While the load waits on an entry or a config, there is one.
    pub closed spec fn wf(&self) -> bool {
        &&& self.stage == TsLoadStage::FindPackage ==> self.index < self.entries@.len()
        &&& self.stage == TsLoadStage::Extend ==> self.index < self.paths@.len()
        &&& self.stage == TsLoadStage::Reference ==> self.index < self.references@.len()
    }

    /// A load for the config in the folder `directory` whose `extends` field
    /// is `extends`, not begun.
    pub fn new(directory: &str, extends: &Option<ExtendsField>) -> (w: Self)
        ensures
            w.wf(),
            w@ == (TsLoadText {
                directory: directory@,
                entries: extends_entries(crate::tsconfig::opt_extends(*extends)),
                paths: Seq::empty(),
                references: Seq::empty(),
                index: 0,
                stage: TsLoadStage::Begin,
            }),
    {
        let w = TsconfigLoad {
            directory: directory.to_owned(),
            entries: entries_of(extends),
            paths: Vec::new(),
            references: Vec::new(),
            index: 0,
            stage: TsLoadStage::Begin,
        };
        proof {
            assert(texts(w.paths@) =~= Seq::<Seq<char>>::empty());
            assert(texts(w.references@) =~= Seq::<Seq<char>>::empty());
        }
        w
    }

    /// Whether `answer` is what the load waits for (see [`ts_expects`]).
    pub fn expects(&self, answer: &TsLoadAnswer) -> (r: bool)
        ensures
            r == ts_expects(self@.stage, answer@),
    {
        match self.stage {
            TsLoadStage::Begin => matches!(answer, TsLoadAnswer::Begin),
            TsLoadStage::FindPackage => matches!(answer, TsLoadAnswer::Found(_)),
            TsLoadStage::References => matches!(answer, TsLoadAnswer::ReferencePaths(_)),
            TsLoadStage::Finished => false,
            _ => matches!(answer, TsLoadAnswer::Done),
        }
    }

    /// Ends with `r` (see [`ts_done`]).
    fn done(&mut self, r: Result<(), ResolveError>) -> (q: TsLoadQuery)
        ensures
            final(self).wf(),
            (final(self)@, q@) == ts_done(
                old(self)@,
                match r {
                    Ok(()) => Ok(()),
                    Err(e) => Err(e@),
                },
            ),
    {
        self.stage = TsLoadStage::Finished;
        TsLoadQuery::Done(r)
    }

    /// Loads the extended configs from the `i`-th on (see [`ts_extend_from`]).
    fn extend_from(&mut self, i: usize) -> (q: TsLoadQuery)
        ensures
            final(self).wf(),
            (final(self)@, q@) == ts_extend_from(old(self)@, i as int),
    {
        if i < self.paths.len() {
            self.stage = TsLoadStage::Extend;
            self.index = i;
            TsLoadQuery::LoadExtended(self.paths[i].clone())
        } else {
            self.stage = TsLoadStage::References;
            TsLoadQuery::ApplyReferences
        }
    }

    /// Loads the referenced configs from the `i`-th on (see
    /// [`ts_reference_from`]).
    fn reference_from(&mut self, i: usize) -> (q: TsLoadQuery)
        ensures
            final(self).wf(),
            (final(self)@, q@) == ts_reference_from(old(self)@, i as int),
    {
        if i < self.references.len() {
            self.stage = TsLoadStage::Reference;
            self.index = i;
            TsLoadQuery::LoadReference { index: i, path: self.references[i].clone() }
        } else {
            self.done(Ok(()))
        }
    }

    /// Finds the paths of the entries from the `i`-th on (see
    /// [`ts_find_from`]).
    fn find_from(&mut self, start: usize) -> (q: TsLoadQuery)
        requires
            start <= old(self).entries@.len(),
        ensures
            final(self).wf(),
            (final(self)@, q@) == ts_find_from(old(self)@, start as int),
    {
        let mut i = start;
        loop
            invariant
                i <= self.entries@.len(),
                ts_find_from(self@, i as int) == ts_find_from(old(self)@, start as int),
            decreases self.entries@.len() - i,
        {
            if i >= self.entries.len() {
                return self.extend_from(0);
            }
            proof {
                assert(self@.entries[i as int] == self.entries@[i as int]@);
            }
            match extended_config(self.directory.as_str(), self.entries[i].as_str()) {
                ExtendedConfig::EmptySpecifier => {
                    let e = ResolveError::EmptySpecifier(self.entries[i].clone());
                    return self.done(Err(e));
                },
                ExtendedConfig::Path(p) => {
                    let ghost before = self@;
                    self.paths.push(p);
                    proof {
                        assert(texts(self.paths@) =~= before.paths.push(p@));
                    }
                    i = i + 1;
                },
                ExtendedConfig::Package => {
                    self.stage = TsLoadStage::FindPackage;
                    self.index = i;
                    return TsLoadQuery::FindPackage {
                        directory: self.directory.clone(),
                        specifier: self.entries[i].clone(),
                    };
                },
            }
        }
    }

    /// Tells the load `answer` and returns its next question (see
    /// [`ts_next`]).
    pub fn next(&mut self, answer: TsLoadAnswer) -> (q: TsLoadQuery)
        requires
            old(self).wf(),
            ts_expects(old(self)@.stage, answer@),
        ensures
            final(self).wf(),
            (final(self)@, q@) == ts_next(old(self)@, answer@),
    {
        match self.stage {
            TsLoadStage::Begin => self.find_from(0),
            TsLoadStage::FindPackage => {
                let i = self.index;
                // the index is below this length, so the next index fits
                let _n: usize = self.entries.len();
                proof {
                    assert(self@.entries[i as int] == self.entries@[i as int]@);
                }
                match answer {
                    TsLoadAnswer::Found(Ok(p)) => {
                        let ghost before = self@;
                        self.paths.push(p);
                        proof {
                            assert(texts(self.paths@) =~= before.paths.push(p@));
                        }
                        self.find_from(i + 1)
                    },
                    TsLoadAnswer::Found(Err(ResolveError::NotFound(_))) => {
                        let e = ResolveError::TsconfigNotFound(self.entries[i].clone());
                        self.done(Err(e))
                    },
                    TsLoadAnswer::Found(Err(e)) => self.done(Err(e)),
                    _ => {
                        let e = ResolveError::TsconfigNotFound(self.entries[i].clone());
                        self.done(Err(e))
                    },
                }
            },
            TsLoadStage::Extend => {
                let i = self.index;
                // the index is below this length, so the next index fits
                let _n: usize = self.paths.len();
                self.extend_from(i + 1)
            },
            TsLoadStage::References => {
                let refs = match answer {
                    TsLoadAnswer::ReferencePaths(v) => v,
                    _ => {
                        let none: Vec<String> = Vec::new();
                        proof {
                            assert(texts(none@) =~= Seq::<Seq<char>>::empty());
                        }
                        none
                    },
                };
                self.references = refs;
                self.reference_from(0)
            },
            TsLoadStage::Reference => {
                let i = self.index;
                // the index is below this length, so the next index fits
                let _n: usize = self.references.len();
                self.reference_from(i + 1)
            },
            TsLoadStage::Finished => self.done(Ok(())),
        }
    }
}

} // verus!
