//! A resolution from a folder and a specifier to a file, as a walk that asks
//! its caller about the file system and is told the answers. It sequences the
//! other walks: a path specifier is loaded as a file or directory
//! ([`crate::file_load`]); a bare one goes through the builtin check and the
//! module folders ([`crate::node_modules`]), each package's exports and each
//! candidate path; an imports specifier (`#x`) is first looked up in the
//! package's imports by the caller. What is found is canonicalized when
//! symbolic links are followed.
use vstd::prelude::*;

use crate::alias::{
    alias_expects, alias_next, aliases_text, AliasAction, AliasActionText, AliasEvent, AliasText, AliasValue,
    AliasValueText, AliasWaitingText, AliasWalk,
};
use crate::error::{ErrorView, Outcome, ResolveError};
use crate::exports::{exports_outcome, package_exports_resolve, texts};
use crate::file_load::{
    aliased_extensions, copy_ext_aliases, file_candidates, index_candidates, load_expects, load_next, load_try,
    main_file_candidates, main_measure, main_path, next_main, package_mains, try_measure, with_fully_specified,
    FileLoad, FileLoadText, LoadAnswer, LoadOptions, LoadOptionsText, LoadQuery, LoadQueryText, LoadWaiting,
    Round,
};
use crate::file_system::FileMetadata;
use crate::json::{obj_get, object_get, JsonValue};
use crate::node_modules::{
    walk_next, NodeModulesWalk, WaitingText, WalkAction, WalkActionText, WalkEvent, WalkEventText, WalkText,
};
use crate::path::{join_onto, join_path, normalize_with, normalized_join, parent_of, parent_path};
use crate::request::{package_subpath_of, package_tail, parse_package_specifier, strip_package_name};
use crate::resolver::{
    classify_specifier, is_builtin, query_prefixes, query_split_candidates, require_core, specifier_kind,
    SpecifierKind,
};

verus! {

/// The options a resolution runs with.
#[derive(Clone)]
pub struct ResolveOptions {
    /// How paths are loaded as files or directories.
    pub load: LoadOptions,
    /// The module folder names, in order (`node_modules`).
    pub modules: Vec<String>,
    /// The conditions of `exports` targets that apply.
    pub condition_names: Vec<String>,
    /// Whether a specifier naming a Node.js builtin module fails as one.
    pub builtin_modules: bool,
    /// The names of the Node.js builtin modules.
    pub builtins: Vec<String>,
    /// Whether what is found is canonicalized (symbolic links followed).
    pub symlinks: bool,
    /// The aliases tried before anything else (raw keys and values).
    pub alias: Vec<(String, Vec<AliasValue>)>,
    /// The aliases tried when the resolution fails otherwise than by being
    /// ignored.
    pub fallback: Vec<(String, Vec<AliasValue>)>,
    /// Whether a `tsconfig.json` maps specifiers through its path aliases.
    pub tsconfig: bool,
    /// Whether a bare specifier is first tried as a relative path.
    pub prefer_relative: bool,
}

/// [`ResolveOptions`] with its strings as character sequences.
pub struct ResolveOptionsText {
    pub load: LoadOptionsText,
    pub modules: Seq<Seq<char>>,
    pub condition_names: Seq<Seq<char>>,
    pub builtin_modules: bool,
    pub builtins: Seq<Seq<char>>,
    pub symlinks: bool,
    pub alias: Seq<(Seq<char>, Seq<AliasValueText>)>,
    pub fallback: Seq<(Seq<char>, Seq<AliasValueText>)>,
    pub tsconfig: bool,
    pub prefer_relative: bool,
}

impl View for ResolveOptions {
    type V = ResolveOptionsText;

    open spec fn view(&self) -> ResolveOptionsText {
        ResolveOptionsText {
            load: self.load@,
            modules: texts(self.modules@),
            condition_names: texts(self.condition_names@),
            builtin_modules: self.builtin_modules,
            builtins: texts(self.builtins@),
            symlinks: self.symlinks,
            alias: aliases_text(self.alias@),
            fallback: aliases_text(self.fallback@),
            tsconfig: self.tsconfig,
            prefer_relative: self.prefer_relative,
        }
    }
}

/// What the resolution is doing.
#[derive(Clone, Copy, PartialEq, Eq, Structural)]
pub enum Phase {
    /// Not begun.
    Begin,
    /// Waiting for the paths the `tsconfig.json` maps the specifier to.
    TsconfigPaths,
    /// Loading one of the paths the `tsconfig.json` mapped the specifier to.
    LoadTsconfigPath,
    /// In the aliases, waiting to hear whether a value's path is a file.
    AliasIsFile,
    /// In the aliases, waiting for the resolution of what a value maps to.
    AliasRequire,
    /// Waiting for the package imports of an imports specifier.
    Imports,
    /// Waiting for the nearest `package.json` of the folder, to resolve the
    /// specifier within its own package.
    PackageScope,
    /// In the module folders, waiting to hear whether a path is a directory.
    WalkIsDirectory,
    /// In the module folders, waiting to hear whether a module folder exists.
    WalkModuleFolder,
    /// In the module folders, waiting for a package's `package.json`.
    WalkExports,
    /// Loading the path a path specifier names.
    LoadPath,
    /// Loading a path inside a module folder.
    LoadInModules,
    /// Loading the path an `exports` or `imports` target gave.
    LoadMatch,
    /// Loading a bare specifier as a relative path, before the module
    /// folders.
    LoadPreferRelative,
    /// Loading the path a target gave with a query cut off.
    LoadMatchPrefix,
    /// Waiting for the canonical path of what was found.
    Canonical,
    /// Over.
    Finished,
}

/// What the caller tells the resolution.
pub enum FsAnswer {
    /// Begin the resolution.
    Begin,
    /// The metadata of the path asked about, if it exists.
    Metadata(Option<FileMetadata>),
    /// The value of the `package.json` asked about, if there is one.
    PackageJson(Option<JsonValue>),
    /// The canonical path of the path asked about.
    Canonical(String),
    /// What the package imports gave for the imports specifier.
    Imports(Result<Option<String>, ResolveError>),
    /// Whether the path asked about passes the function restrictions.
    Allowed(bool),
    /// What the resolution asked for gave.
    Required(Result<String, ResolveError>),
    /// The paths the `tsconfig.json` maps the specifier to, in order.
    TsconfigPaths(Vec<String>),
}

/// [`FsAnswer`] with its strings as character sequences.
pub enum FsAnswerText {
    Begin,
    Metadata(Option<FileMetadata>),
    PackageJson(Option<JsonValue>),
    Canonical(Seq<char>),
    Imports(Outcome),
    Allowed(bool),
    Required(Result<Seq<char>, ErrorView>),
    TsconfigPaths(Seq<Seq<char>>),
}

impl View for FsAnswer {
    type V = FsAnswerText;

    open spec fn view(&self) -> FsAnswerText {
        match self {
            FsAnswer::Begin => FsAnswerText::Begin,
            FsAnswer::Metadata(m) => FsAnswerText::Metadata(*m),
            FsAnswer::PackageJson(v) => FsAnswerText::PackageJson(*v),
            FsAnswer::Canonical(p) => FsAnswerText::Canonical(p@),
            FsAnswer::Imports(r) => FsAnswerText::Imports(crate::error::outcome_of(*r)),
            FsAnswer::Allowed(b) => FsAnswerText::Allowed(*b),
            FsAnswer::TsconfigPaths(v) => FsAnswerText::TsconfigPaths(texts(v@)),
            FsAnswer::Required(r) => FsAnswerText::Required(
                match r {
                    Ok(p) => Ok(p@),
                    Err(e) => Err(e@),
                },
            ),
        }
    }
}

/// What the resolution asks of the caller next.
#[derive(Debug, PartialEq, Eq)]
pub enum FsQuery {
    /// Give the metadata of this path.
    Metadata(String),
    /// Give the value of the `package.json` in this directory.
    ReadPackageJson(String),
    /// Give the canonical path of this path.
    Canonicalize(String),
    /// Say whether this path passes the function restrictions.
    CheckRestrictions(String),
    /// Give the paths the `tsconfig.json` maps `specifier` to, from
    /// `directory` (see [`crate::tsconfig::TsConfig::resolve`]).
    TsconfigPaths { directory: String, specifier: String },
    /// Resolve `specifier` from `directory` (not fully specified, and
    /// without following symbolic links), as an alias maps to it.
    Require { directory: String, specifier: String },
    /// Resolve the imports specifier through the imports of the package
    /// that holds the directory (LOAD_PACKAGE_IMPORTS).
    LoadPackageImports { directory: String, specifier: String },
    /// The resolution is over: the path found, or the error.
    Done(Result<String, ResolveError>),
}

/// [`FsQuery`] with its strings as character sequences.
pub enum FsQueryText {
    Metadata(Seq<char>),
    ReadPackageJson(Seq<char>),
    Canonicalize(Seq<char>),
    CheckRestrictions(Seq<char>),
    Require(Seq<char>, Seq<char>),
    TsconfigPaths(Seq<char>, Seq<char>),
    LoadPackageImports(Seq<char>, Seq<char>),
    Done(Result<Seq<char>, ErrorView>),
}

impl View for FsQuery {
    type V = FsQueryText;

    open spec fn view(&self) -> FsQueryText {
        match self {
            FsQuery::Metadata(p) => FsQueryText::Metadata(p@),
            FsQuery::ReadPackageJson(p) => FsQueryText::ReadPackageJson(p@),
            FsQuery::Canonicalize(p) => FsQueryText::Canonicalize(p@),
            FsQuery::CheckRestrictions(p) => FsQueryText::CheckRestrictions(p@),
            FsQuery::Require { directory, specifier } => FsQueryText::Require(directory@, specifier@),
            FsQuery::TsconfigPaths { directory, specifier } => FsQueryText::TsconfigPaths(directory@, specifier@),
            FsQuery::LoadPackageImports { directory, specifier } => FsQueryText::LoadPackageImports(
                directory@,
                specifier@,
            ),
            FsQuery::Done(r) => FsQueryText::Done(
                match r {
                    Ok(p) => Ok(p@),
                    Err(e) => Err(e@),
                },
            ),
        }
    }
}

/// The state of a resolution: its options, the folder and specifier, what
/// it is doing, the path and subpath of the package being looked at, the
/// walk through the module folders, the current load, the walk through the
/// aliases, whether those are the fallback aliases, and the error they stand
/// in for.
pub struct ResolveText {
    pub options: ResolveOptionsText,
    pub directory: Seq<char>,
    pub specifier: Seq<char>,
    pub phase: Phase,
    pub pending_path: Seq<char>,
    pub pending_subpath: Seq<char>,
    pub walk: WalkText,
    pub load: FileLoadText,
    pub alias: AliasText,
    pub in_fallback: bool,
    pub fallback_error: ErrorView,
    pub ts_paths: Seq<Seq<char>>,
    pub ts_index: int,
    pub match_path: Seq<char>,
    pub match_prefixes: Seq<Seq<char>>,
    pub match_index: int,
}

/// `w` doing `p`.
pub open spec fn with_phase(w: ResolveText, p: Phase) -> ResolveText {
    ResolveText { phase: p, ..w }
}

/// `w` with the walk `k`.
pub open spec fn with_walk(w: ResolveText, k: WalkText) -> ResolveText {
    ResolveText { walk: k, ..w }
}

/// `w` with the load `l`.
pub open spec fn with_load(w: ResolveText, l: FileLoadText) -> ResolveText {
    ResolveText { load: l, ..w }
}

/// The resolution ends with the error `e`.
pub open spec fn finish_err(w: ResolveText, e: ErrorView) -> (ResolveText, FsQueryText) {
    (with_phase(w, Phase::Finished), FsQueryText::Done(Err(e)))
}

/// An alias walk over `aliases` for `w`'s specifier, not begun.
pub open spec fn fresh_alias(w: ResolveText, aliases: Seq<(Seq<char>, Seq<AliasValueText>)>) -> AliasText {
    AliasText {
        directory: w.directory,
        specifier: w.specifier,
        aliases,
        entry: 0,
        value: 0,
        should_stop: false,
        waiting: AliasWaitingText::Begin,
    }
}

/// Serves the action `a` of the fallback aliases (already in `w`): with
/// nothing from them, the error they stand in for stands.
pub open spec fn serve_fallback(w: ResolveText, a: AliasActionText) -> (ResolveText, FsQueryText) {
    match a {
        AliasActionText::IsFile(p) => (with_phase(w, Phase::AliasIsFile), FsQueryText::Metadata(p)),
        AliasActionText::Require(s) => (with_phase(w, Phase::AliasRequire), FsQueryText::Require(w.directory, s)),
        AliasActionText::Fail(e) => finish_err(w, e),
        AliasActionText::NoAlias => finish_err(w, w.fallback_error),
    }
}

/// Tries the fallback aliases in place of the error `e`.
pub open spec fn start_fallback(w: ResolveText, e: ErrorView) -> (ResolveText, FsQueryText) {
    let k = fresh_alias(w, w.options.fallback);
    let (k2, a) = alias_next(k, AliasEvent::Begin);
    serve_fallback(ResolveText { in_fallback: true, fallback_error: e, alias: k2, ..w }, a)
}

/// The resolution fails with `e`: unless `e` says the specifier is ignored,
/// or the fallback aliases are already being tried, they are tried first.
pub open spec fn resolve_fail(w: ResolveText, e: ErrorView) -> (ResolveText, FsQueryText) {
    if !w.in_fallback && !(e is Ignored) {
        start_fallback(w, e)
    } else {
        finish_err(w, e)
    }
}

/// `p` was found: it is the result, canonicalized first when symbolic links
/// are followed.
pub open spec fn resolve_found(w: ResolveText, p: Seq<char>) -> (ResolveText, FsQueryText) {
    if w.options.symlinks {
        (with_phase(w, Phase::Canonical), FsQueryText::Canonicalize(p))
    } else {
        (with_phase(w, Phase::Finished), FsQueryText::Done(Ok(p)))
    }
}

/// A load of `path` for the request `specifier`, not begun.
pub open spec fn fresh_load(o: ResolveOptionsText, path: Seq<char>, specifier: Seq<char>) -> FileLoadText {
    FileLoadText {
        options: o.load,
        path,
        specifier,
        candidates: Seq::empty(),
        index: 0,
        waiting: LoadWaiting::Begin,
        aliased: Seq::empty(),
        file: path,
        mains: Seq::empty(),
        main_index: 0,
    }
}

/// The path a load's first question is about (it always asks about one).
pub open spec fn first_load_question(l: FileLoadText) -> Seq<char> {
    match load_next(l, LoadAnswer::Begin).1 {
        LoadQueryText::Metadata(p) => p,
        _ => l.path,
    }
}

/// Begins loading `path` for `specifier`, as `phase`.
pub open spec fn start_load(w: ResolveText, path: Seq<char>, specifier: Seq<char>, phase: Phase) -> (
    ResolveText,
    FsQueryText,
) {
    let l = fresh_load(w.options, path, specifier);
    (
        with_phase(with_load(w, load_next(l, LoadAnswer::Begin).0), phase),
        FsQueryText::Metadata(first_load_question(l)),
    )
}

/// Serves the action `a` of the walk (already in `w`): its questions become
/// questions about the file system; a module folder is asked for as the
/// folder joined with its name; a path in a module folder is loaded; and a
/// walk that finds nothing fails the resolution as not found.
pub open spec fn serve_walk(w: ResolveText, a: WalkActionText) -> (ResolveText, FsQueryText) {
    match a {
        WalkActionText::IsDirectory(p) => (with_phase(w, Phase::WalkIsDirectory), FsQueryText::Metadata(p)),
        WalkActionText::FindModuleFolder(folder, name) => {
            let m = join_path(folder, name);
            (
                ResolveText { phase: Phase::WalkModuleFolder, pending_path: m, ..w },
                FsQueryText::Metadata(m),
            )
        },
        WalkActionText::LoadPackageExports(package_folder, subpath) => (
            ResolveText { phase: Phase::WalkExports, pending_path: package_folder, pending_subpath: subpath, ..w },
            FsQueryText::ReadPackageJson(package_folder),
        ),
        WalkActionText::LoadAsFileOrDirectory(p) => start_load(w, p, w.specifier, Phase::LoadInModules),
        WalkActionText::NotFound => resolve_fail(w, ErrorView::NotFound(w.specifier)),
    }
}

/// Tells the walk `e` and serves its next action.
pub open spec fn walk_on(w: ResolveText, e: WalkEventText) -> (ResolveText, FsQueryText) {
    let (k, a) = walk_next(w.walk, e);
    serve_walk(with_walk(w, k), a)
}

/// Serves the question `q` of the load (already in `w`): a path found is
/// the result; a load that finds nothing lets the walk go on when it was
/// inside a module folder, and otherwise fails as not found. A load that
/// fails fails the resolution, except a load of a path the `tsconfig.json`
/// gave or of a bare specifier tried as a relative path, which is passed
/// over.
pub open spec fn serve_load(w: ResolveText, q: LoadQueryText) -> (ResolveText, FsQueryText) {
    match q {
        LoadQueryText::Metadata(p) => (w, FsQueryText::Metadata(p)),
        LoadQueryText::ReadPackageJson(p) => (w, FsQueryText::ReadPackageJson(p)),
        LoadQueryText::CheckRestrictions(p) => (w, FsQueryText::CheckRestrictions(p)),
        LoadQueryText::Done(Some(p)) => if w.phase == Phase::LoadMatchPrefix {
            resolve_found(w, w.match_path)
        } else {
            resolve_found(w, p)
        },
        LoadQueryText::Done(None) => load_none(after_load(w)),
        LoadQueryText::Failed(e) => load_failed(after_load(w), e),
    }
}

/// A load that found nothing lets the walk go on when it was inside a
/// module folder, and otherwise fails as not found.
pub open spec fn load_none(w: ResolveText) -> (ResolveText, FsQueryText) {
    if w.phase == Phase::LoadInModules {
        walk_on(w, WalkEventText::NothingFound)
    } else if w.phase == Phase::LoadTsconfigPath {
        ts_try(w, w.ts_index + 1)
    } else if w.phase == Phase::LoadPreferRelative {
        start_self(w)
    } else if w.phase == Phase::LoadMatch {
        match_try(
            ResolveText {
                match_path: w.load.path,
                match_prefixes: query_prefixes(w.load.path, w.load.path.len() as int),
                ..w
            },
            0,
        )
    } else if w.phase == Phase::LoadMatchPrefix {
        match_try(w, w.match_index + 1)
    } else {
        resolve_fail(w, ErrorView::NotFound(w.specifier))
    }
}

/// A load that failed fails the resolution, except a load of a path the
/// `tsconfig.json` gave or of a bare specifier tried as a relative path,
/// which is passed over.
pub open spec fn load_failed(w: ResolveText, e: ErrorView) -> (ResolveText, FsQueryText) {
    if w.phase == Phase::LoadTsconfigPath {
        ts_try(w, w.ts_index + 1)
    } else if w.phase == Phase::LoadPreferRelative {
        start_self(w)
    } else {
        resolve_fail(w, e)
    }
}

/// Once a load ends without a file, the request is as fully specified as
/// the load left it: trying a path through its extension aliases makes it
/// fully specified, and finding nothing there makes it no longer so.
pub open spec fn after_load(w: ResolveText) -> ResolveText {
    ResolveText {
        options: ResolveOptionsText {
            load: LoadOptionsText { fully_specified: w.load.options.fully_specified, ..w.options.load },
            ..w.options
        },
        ..w
    }
}

/// Tries the paths the `tsconfig.json` gave from the `i`-th on, each loaded
/// as a file or directory (as the request `.` from it); past the last, the
/// aliases are tried.
pub open spec fn ts_try(w: ResolveText, i: int) -> (ResolveText, FsQueryText) {
    if 0 <= i < w.ts_paths.len() {
        start_load(
            ResolveText { ts_index: i, ..w },
            normalized_join(w.ts_paths[i], seq!['.']),
            seq!['.'],
            Phase::LoadTsconfigPath,
        )
    } else {
        alias_on(past_tsconfig(w), AliasEvent::Begin)
    }
}

/// The resolution once the `tsconfig.json` paths are behind it: they are
/// dropped, and it goes on from its beginning, with the aliases.
pub open spec fn past_tsconfig(w: ResolveText) -> ResolveText {
    ResolveText { phase: Phase::Begin, ts_paths: Seq::empty(), ts_index: 0, ..w }
}

/// Tsconfig paths that load nothing are passed over: when a path the
/// `tsconfig.json` gave for the specifier is loaded and nothing is found,
/// the resolution asks what it asks when the `tsconfig.json` gives only the
/// paths after that one; after the last, it takes the very step it takes
/// when the `tsconfig.json` gives no paths at all (from the state the load
/// left).
pub proof fn lemma_tsconfig_paths_that_find_nothing_are_passed_over(w: ResolveText, a: FsAnswerText)
    requires
        w.phase == Phase::LoadTsconfigPath,
        0 <= w.ts_index < w.ts_paths.len(),
        load_next(w.load, as_load_answer(a)).1 == LoadQueryText::Done(None),
    ensures
        resolve_step(w, a).1 == resolve_step(
            with_phase(after_load(with_load(w, load_next(w.load, as_load_answer(a)).0)), Phase::TsconfigPaths),
            FsAnswerText::TsconfigPaths(w.ts_paths.skip(w.ts_index + 1)),
        ).1,
        w.ts_index + 1 == w.ts_paths.len() ==> resolve_step(w, a) == resolve_step(
            with_phase(after_load(with_load(w, load_next(w.load, as_load_answer(a)).0)), Phase::TsconfigPaths),
            FsAnswerText::TsconfigPaths(Seq::empty()),
        ),
{
    let u = after_load(with_load(w, load_next(w.load, as_load_answer(a)).0));
    let rest = w.ts_paths.skip(w.ts_index + 1);
    let b = ResolveText { ts_paths: rest, ..with_phase(u, Phase::TsconfigPaths) };
    if w.ts_index + 1 == w.ts_paths.len() {
        assert(rest =~= Seq::<Seq<char>>::empty());
        assert(past_tsconfig(u) == past_tsconfig(b));
    } else {
        assert(rest[0] == w.ts_paths[w.ts_index + 1]);
    }
}

/// Tries the path a target gave cut before each `?`, from the `i`-th cut
/// on (the last `?` first), as it may carry a query: when a cut is found,
/// the path as the target gave it is the result; past the last cut, the
/// specifier is not found.
pub open spec fn match_try(w: ResolveText, i: int) -> (ResolveText, FsQueryText) {
    if 0 <= i < w.match_prefixes.len() {
        start_load(ResolveText { match_index: i, ..w }, w.match_prefixes[i], Seq::empty(), Phase::LoadMatchPrefix)
    } else {
        resolve_fail(w, ErrorView::NotFound(w.specifier))
    }
}

/// A walk for `w`'s specifier from its folder, not begun.
pub open spec fn fresh_walk(w: ResolveText) -> WalkText {
    WalkText {
        specifier: w.specifier,
        modules: w.options.modules,
        start: w.directory,
        module: 0,
        folder: w.directory,
        waiting: WaitingText::Begin,
    }
}

/// `w`, no longer fully specified when its specifier has no subpath.
pub open spec fn unspecified_without_subpath(w: ResolveText) -> ResolveText {
    if package_subpath_of(w.specifier).len() == 0 {
        ResolveText {
            options: ResolveOptionsText { load: LoadOptionsText { fully_specified: false, ..w.options.load }, ..w.options },
            ..w
        }
    } else {
        w
    }
}

/// Begins the walk through the module folders.
pub open spec fn start_walk(w: ResolveText) -> (ResolveText, FsQueryText) {
    walk_on(with_walk(w, fresh_walk(w)), WalkEventText::Begin)
}

/// Begins resolving a bare or imports specifier within its own package,
/// then in the module folders; a specifier without a subpath is no longer
/// fully specified from here on.
pub open spec fn start_self(w: ResolveText) -> (ResolveText, FsQueryText) {
    (
        ResolveText { pending_path: w.directory, ..with_phase(unspecified_without_subpath(w), Phase::PackageScope) },
        FsQueryText::ReadPackageJson(w.directory),
    )
}

/// LOOKUP_PACKAGE_SCOPE: the `package.json` of the folder asked about
/// (`w.pending_path`), if it has one, is the nearest; otherwise its parent
/// folder is asked about, and past the root there is none.
pub open spec fn scope_step(w: ResolveText, package_json: Option<JsonValue>) -> (ResolveText, FsQueryText) {
    match package_json {
        Some(v) => self_step(w, Some((w.pending_path, v))),
        None => match parent_path(w.pending_path) {
            Some(p) => (ResolveText { pending_path: p, ..w }, FsQueryText::ReadPackageJson(p)),
            None => self_step(w, None),
        },
    }
}

/// What the nearest `package.json` (its folder and value) does with the
/// specifier: when its `name` is the specifier's package name, its
/// `exports` resolve the rest (after `.`), and the target is loaded; with
/// nothing from them the module folders are searched.
pub open spec fn self_step(w: ResolveText, scope: Option<(Seq<char>, JsonValue)>) -> (ResolveText, FsQueryText) {
    match scope {
        Some((dir, JsonValue::Object(entries))) => match obj_get(entries@, "name"@) {
            Some(JsonValue::String(name)) => match package_tail(w.specifier, name@) {
                Some(sub) => match obj_get(entries@, "exports"@) {
                    Some(exports) => match exports_outcome(
                        dir,
                        seq!['.'] + sub,
                        exports,
                        w.options.condition_names,
                        None,
                        None,
                    ) {
                        Ok(Some(p)) => start_load(w, p, Seq::empty(), Phase::LoadMatch),
                        Ok(None) => start_walk(w),
                        Err(e) => resolve_fail(w, e),
                    },
                    None => start_walk(w),
                },
                None => start_walk(w),
            },
            _ => start_walk(w),
        },
        _ => start_walk(w),
    }
}

/// The `exports` field of a `package.json` value, if it has one.
pub open spec fn exports_field(package_json: Option<JsonValue>) -> Option<JsonValue> {
    match package_json {
        Some(JsonValue::Object(entries)) => obj_get(entries@, "exports"@),
        _ => None,
    }
}

/// A resolution of `specifier` from the folder `directory`, not begun.
pub open spec fn resolve_start(options: ResolveOptionsText, directory: Seq<char>, specifier: Seq<char>) -> ResolveText {
    let w = ResolveText {
        options,
        directory,
        specifier,
        phase: Phase::Begin,
        pending_path: Seq::empty(),
        pending_subpath: Seq::empty(),
        walk: WalkText {
            specifier,
            modules: options.modules,
            start: directory,
            module: 0,
            folder: directory,
            waiting: WaitingText::Begin,
        },
        load: fresh_load(options, directory, specifier),
        alias: AliasText {
            directory,
            specifier,
            aliases: options.alias,
            entry: 0,
            value: 0,
            should_stop: false,
            waiting: AliasWaitingText::Begin,
        },
        in_fallback: false,
        fallback_error: ErrorView::NotFound(specifier),
        ts_paths: Seq::empty(),
        ts_index: 0,
        match_path: Seq::empty(),
        match_prefixes: Seq::empty(),
        match_index: 0,
    };
    w
}

/// The load answer an answer stands for.
pub open spec fn as_load_answer(a: FsAnswerText) -> LoadAnswer {
    match a {
        FsAnswerText::Metadata(m) => LoadAnswer::Metadata(m),
        FsAnswerText::PackageJson(v) => LoadAnswer::PackageJson(v),
        FsAnswerText::Allowed(b) => LoadAnswer::Allowed(b),
        _ => LoadAnswer::Begin,
    }
}

/// Whether a phase loads a path.
pub open spec fn is_loading(p: Phase) -> bool {
    p == Phase::LoadPath || p == Phase::LoadInModules || p == Phase::LoadMatch || p == Phase::LoadTsconfigPath
        || p == Phase::LoadPreferRelative || p == Phase::LoadMatchPrefix
}

/// The answer that the resolution waits for; once over, it waits for none.
pub open spec fn resolve_expects(w: ResolveText, a: FsAnswerText) -> bool {
    match w.phase {
        Phase::Begin => a is Begin,
        Phase::TsconfigPaths => a is TsconfigPaths,
        Phase::AliasIsFile => a is Metadata,
        Phase::AliasRequire => a is Required,
        Phase::Imports => a is Imports,
        Phase::PackageScope => a is PackageJson,
        Phase::WalkIsDirectory => a is Metadata,
        Phase::WalkModuleFolder => a is Metadata,
        Phase::WalkExports => a is PackageJson,
        Phase::Canonical => a is Canonical,
        Phase::Finished => false,
        _ => (a is Metadata || a is PackageJson || a is Allowed) && load_expects(
            w.load.waiting,
            as_load_answer(a),
        ),
    }
}

/// Resolves the specifier by its kind: an absolute specifier is loaded as
/// it is and a relative one against the folder; an imports specifier is
/// first resolved through the package's imports, whose path is loaded, and
/// without one the module folders are searched; a bare specifier that names
/// a builtin module (with builtin modules on) fails as one, and otherwise the
/// module folders are searched, after trying it as a relative path when that
/// is preferred.
pub open spec fn dispatch(w: ResolveText) -> (ResolveText, FsQueryText) {
    match specifier_kind(w.specifier) {
        SpecifierKind::Absolute => start_load(w, w.specifier, w.specifier, Phase::LoadPath),
        SpecifierKind::Relative => start_load(
            w,
            normalized_join(w.directory, w.specifier),
            w.specifier,
            Phase::LoadPath,
        ),
        SpecifierKind::Hash => (
            with_phase(w, Phase::Imports),
            FsQueryText::LoadPackageImports(w.directory, w.specifier),
        ),
        SpecifierKind::Bare => if w.options.builtin_modules && is_builtin(w.specifier, w.options.builtins) {
            resolve_fail(
                w,
                ErrorView::Builtin(
                    if crate::text::starts_with(w.specifier, "node:"@) {
                        w.specifier
                    } else {
                        "node:"@ + w.specifier
                    },
                ),
            )
        } else if w.options.prefer_relative {
            start_load(w, normalized_join(w.directory, w.specifier), w.specifier, Phase::LoadPreferRelative)
        } else {
            start_self(w)
        },
    }
}

/// Serves the action `a` of the aliases (already in `w`): an alias that
/// fails ends the resolution with its error, and with nothing from the
/// aliases the specifier is resolved by its kind.
pub open spec fn serve_main_alias(w: ResolveText, a: AliasActionText) -> (ResolveText, FsQueryText) {
    match a {
        AliasActionText::IsFile(p) => (with_phase(w, Phase::AliasIsFile), FsQueryText::Metadata(p)),
        AliasActionText::Require(s) => (with_phase(w, Phase::AliasRequire), FsQueryText::Require(w.directory, s)),
        AliasActionText::Fail(e) => finish_err(w, e),
        AliasActionText::NoAlias => dispatch(w),
    }
}

/// Tells the alias walk `e` and serves its next action.
pub open spec fn alias_on(w: ResolveText, e: AliasEvent) -> (ResolveText, FsQueryText) {
    let (k, a) = alias_next(w.alias, e);
    if w.in_fallback {
        serve_fallback(ResolveText { alias: k, ..w }, a)
    } else {
        serve_main_alias(ResolveText { alias: k, ..w }, a)
    }
}

/// A failure of an aliased resolution that lets the next alias value be
/// tried.
pub open spec fn not_found_error(e: ErrorView) -> bool {
    e is NotFound || e is MatchedAliasNotFound
}

/// The next state of the resolution and its next question, once told `a`.
///
/// At the start, when a `tsconfig.json` is in use, the paths it maps the
/// specifier to are loaded in turn (see [`ts_try`]); then the aliases are tried (see [`crate::alias::alias_next`]); a
/// value that maps the specifier to another has that resolved by the
/// caller, and what it gives is the result, unless it is not found, in which
/// case the next value is tried. With nothing from the aliases, the specifier
/// is resolved by its kind (see [`dispatch`]). In the module folders, a package's `exports` are resolved with
/// the subpath after `.`, and the target found is loaded; a package without
/// `exports` lets the walk go on.
pub open spec fn resolve_step(w: ResolveText, a: FsAnswerText) -> (ResolveText, FsQueryText) {
    match w.phase {
        Phase::Begin => if w.options.tsconfig {
            (with_phase(w, Phase::TsconfigPaths), FsQueryText::TsconfigPaths(w.directory, w.specifier))
        } else {
            alias_on(w, AliasEvent::Begin)
        },
        Phase::TsconfigPaths => match a {
            FsAnswerText::TsconfigPaths(v) => ts_try(ResolveText { ts_paths: v, ..w }, 0),
            _ => ts_try(ResolveText { ts_paths: Seq::empty(), ..w }, 0),
        },
        Phase::AliasIsFile => match a {
            FsAnswerText::Metadata(Some(m)) => alias_on(w, AliasEvent::IsFile(m.is_file)),
            _ => alias_on(w, AliasEvent::IsFile(false)),
        },
        Phase::AliasRequire => match a {
            FsAnswerText::Required(Ok(p)) => resolve_found(w, p),
            FsAnswerText::Required(Err(e)) => if not_found_error(e) {
                alias_on(w, AliasEvent::NothingFound)
            } else {
                finish_err(w, e)
            },
            _ => alias_on(w, AliasEvent::NothingFound),
        },
        Phase::Imports => match a {
            FsAnswerText::Imports(Ok(Some(p))) => start_load(w, p, Seq::empty(), Phase::LoadMatch),
            FsAnswerText::Imports(Err(e)) => resolve_fail(w, e),
            _ => start_self(w),
        },
        Phase::PackageScope => match a {
            FsAnswerText::PackageJson(v) => scope_step(w, v),
            _ => start_walk(w),
        },
        Phase::WalkIsDirectory => match a {
            FsAnswerText::Metadata(Some(m)) => walk_on(w, WalkEventText::IsDirectory(m.is_dir)),
            _ => walk_on(w, WalkEventText::IsDirectory(false)),
        },
        Phase::WalkModuleFolder => match a {
            FsAnswerText::Metadata(Some(m)) => walk_on(
                w,
                WalkEventText::ModuleFolder(
                    if m.is_dir {
                        Some(w.pending_path)
                    } else {
                        None
                    },
                ),
            ),
            _ => walk_on(w, WalkEventText::ModuleFolder(None)),
        },
        Phase::WalkExports => match a {
            FsAnswerText::PackageJson(v) => match exports_field(v) {
                Some(exports) => match exports_outcome(
                    w.pending_path,
                    seq!['.'] + w.pending_subpath,
                    exports,
                    w.options.condition_names,
                    None,
                    None,
                ) {
                    Ok(Some(p)) => start_load(w, p, Seq::empty(), Phase::LoadMatch),
                    Ok(None) => walk_on(w, WalkEventText::NothingFound),
                    Err(e) => resolve_fail(w, e),
                },
                None => walk_on(w, WalkEventText::NothingFound),
            },
            _ => walk_on(w, WalkEventText::NothingFound),
        },
        Phase::Canonical => match a {
            FsAnswerText::Canonical(c) => (with_phase(w, Phase::Finished), FsQueryText::Done(Ok(c))),
            _ => resolve_fail(w, ErrorView::NotFound(w.specifier)),
        },
        Phase::Finished => (w, FsQueryText::Done(Err(ErrorView::NotFound(w.specifier)))),
        _ => {
            let (l, q) = load_next(w.load, as_load_answer(a));
            serve_load(with_load(w, l), q)
        },
    }
}

/// The question a walk's action puts is the one its state waits on.
pub open spec fn walk_action_fits(waiting: WaitingText, a: WalkActionText) -> bool {
    match a {
        WalkActionText::IsDirectory(_) => waiting is Folder || waiting is PackageFolder || waiting is ScopeFolder,
        WalkActionText::FindModuleFolder(_, _) => waiting is ModuleFolder,
        WalkActionText::LoadPackageExports(_, _) => waiting is Exports,
        WalkActionText::LoadAsFileOrDirectory(_) => waiting is FileOrDirectory,
        WalkActionText::NotFound => waiting is Finished,
    }
}

proof fn lemma_walk_action_fits(w: WalkText, e: WalkEventText)
    ensures
        walk_action_fits(walk_next(w, e).0.waiting, walk_next(w, e).1),
{
}

/// The question a load asks is the one its state waits on.
pub open spec fn load_query_fits(waiting: LoadWaiting, q: LoadQueryText) -> bool {
    match q {
        LoadQueryText::Metadata(_) => waiting == LoadWaiting::Context || waiting is Candidate || waiting
            == LoadWaiting::Directory || waiting is AliasCandidate || waiting is AliasFile,
        LoadQueryText::ReadPackageJson(_) => waiting == LoadWaiting::PackageJson,
        LoadQueryText::CheckRestrictions(_) => waiting is Restriction || waiting is AliasRestriction
            || waiting is AliasFileRestriction,
        LoadQueryText::Done(_) => waiting == LoadWaiting::Finished,
        LoadQueryText::Failed(_) => waiting == LoadWaiting::Finished,
    }
}

proof fn lemma_try_fits(w: FileLoadText, cands: Seq<Seq<char>>, i: int, round: Round)
    ensures
        load_query_fits(load_try(w, cands, i, round).0.waiting, load_try(w, cands, i, round).1),
    decreases try_measure(w, round),
{
    if !(0 <= i < cands.len()) && round == Round::Main {
        let at = FileLoadText { candidates: cands, index: i, waiting: LoadWaiting::Candidate { round }, ..w };
        lemma_main_fits(at, w.main_index + 1);
    }
}

proof fn lemma_main_fits(w: FileLoadText, k: int)
    ensures
        load_query_fits(next_main(w, k).0.waiting, next_main(w, k).1),
    decreases main_measure(w.mains.len() as int, k),
{
    if 0 <= k < w.mains.len() {
        let m = main_path(w, k);
        let u = FileLoadText { main_index: k, file: m, ..w };
        if aliased_extensions(u.options, m) is None {
            lemma_try_fits(u, main_file_candidates(u.options, m), 0, Round::Main);
        }
    } else {
        lemma_try_fits(w, index_candidates(w.options, w.path), 0, Round::Index);
    }
}

proof fn lemma_load_query_fits(l: FileLoadText, a: LoadAnswer)
    requires
        !(l.waiting == LoadWaiting::Finished),
    ensures
        load_query_fits(load_next(l, a).0.waiting, load_next(l, a).1),
        l.waiting == LoadWaiting::Begin ==> load_next(l, a).1 is Metadata,
{
    match l.waiting {
        LoadWaiting::Begin => {
            let u = FileLoadText { file: l.path, ..l };
            lemma_try_fits(u, file_candidates(u.options, u.path), 0, Round::Path);
        },
        LoadWaiting::Candidate { round } => lemma_try_fits(l, l.candidates, l.index + 1, round),
        LoadWaiting::Restriction { round } => lemma_try_fits(l, l.candidates, l.index + 1, round),
        LoadWaiting::Directory => lemma_main_fits(FileLoadText { mains: Seq::empty(), ..l }, 0),
        LoadWaiting::PackageJson => {
            lemma_main_fits(FileLoadText { mains: Seq::empty(), ..l }, 0);
            if a is PackageJson {
                lemma_main_fits(FileLoadText { mains: package_mains(l.options, a->PackageJson_0), ..l }, 0);
            }
        },
        LoadWaiting::AliasFile { main } => {
            let u = with_fully_specified(l, false);
            lemma_try_fits(u, main_file_candidates(u.options, u.file), 0, Round::Main);
            lemma_try_fits(u, file_candidates(u.options, u.file), 0, Round::Path);
            lemma_try_fits(l, index_candidates(l.options, l.file), 0, Round::Main);
        },
        LoadWaiting::AliasFileRestriction { main } => {
            let u = with_fully_specified(l, false);
            lemma_try_fits(u, main_file_candidates(u.options, u.file), 0, Round::Main);
            lemma_try_fits(u, file_candidates(u.options, u.file), 0, Round::Path);
            lemma_try_fits(l, index_candidates(l.options, l.file), 0, Round::Main);
        },
        _ => {},
    }
}

/// A copy of a list of strings.
fn copy_strings(v: &Vec<String>) -> (r: Vec<String>)
    ensures
        texts(r@) == texts(v@),
{
    let mut out: Vec<String> = Vec::new();
    let mut i: usize = 0;
    while i < v.len()
        invariant
            i <= v@.len(),
            texts(out@) == texts(v@).take(i as int),
        decreases v@.len() - i,
    {
        let ghost before = out@;
        out.push(v[i].clone());
        proof {
            assert(texts(out@) =~= texts(before).push(v@[i as int]@));
            assert(texts(v@).take(i as int + 1) =~= texts(v@).take(i as int).push(v@[i as int]@));
        }
        i = i + 1;
    }
    proof {
        assert(texts(v@).take(v@.len() as int) =~= texts(v@));
    }
    out
}

/// A copy of load options.
fn copy_load_options(o: &LoadOptions) -> (r: LoadOptions)
    ensures
        r@ == o@,
{
    LoadOptions {
        extensions: copy_strings(&o.extensions),
        main_files: copy_strings(&o.main_files),
        main_fields: copy_strings(&o.main_fields),
        description_files: o.description_files,
        enforce_extension: o.enforce_extension,
        fully_specified: o.fully_specified,
        resolve_to_context: o.resolve_to_context,
        restrictions: copy_strings(&o.restrictions),
        function_restrictions: o.function_restrictions,
        extension_alias: copy_ext_aliases(&o.extension_alias),
    }
}

/// A copy of a list of aliases.
fn copy_aliases(v: &Vec<(String, Vec<AliasValue>)>) -> (r: Vec<(String, Vec<AliasValue>)>)
    ensures
        aliases_text(r@) == aliases_text(v@),
{
    let mut out: Vec<(String, Vec<AliasValue>)> = Vec::new();
    let mut i: usize = 0;
    while i < v.len()
        invariant
            i <= v@.len(),
            aliases_text(out@) == aliases_text(v@).take(i as int),
        decreases v@.len() - i,
    {
        let mut values: Vec<AliasValue> = Vec::new();
        let mut j: usize = 0;
        while j < v[i].1.len()
            invariant
                i < v@.len(),
                j <= v@[i as int].1@.len(),
                values@.map_values(|x: AliasValue| x@) == v@[i as int].1@.map_values(|x: AliasValue| x@).take(j as int),
            decreases v@[i as int].1@.len() - j,
        {
            let copy = match &v[i].1[j] {
                AliasValue::Path(p) => AliasValue::Path(p.clone()),
                AliasValue::Ignore => AliasValue::Ignore,
            };
            let ghost before = values@;
            values.push(copy);
            proof {
                assert(values@.map_values(|x: AliasValue| x@) =~= before.map_values(|x: AliasValue| x@).push(
                    v@[i as int].1@[j as int]@,
                ));
                assert(v@[i as int].1@.map_values(|x: AliasValue| x@).take(j as int + 1) =~= v@[i as int].1@.map_values(
                    |x: AliasValue| x@,
                ).take(j as int).push(v@[i as int].1@[j as int]@));
            }
            j = j + 1;
        }
        proof {
            assert(v@[i as int].1@.map_values(|x: AliasValue| x@).take(v@[i as int].1@.len() as int)
                =~= v@[i as int].1@.map_values(|x: AliasValue| x@));
        }
        let ghost before = out@;
        out.push((v[i].0.clone(), values));
        proof {
            assert(aliases_text(out@) =~= aliases_text(before).push(aliases_text(v@)[i as int]));
            assert(aliases_text(v@).take(i as int + 1) =~= aliases_text(v@).take(i as int).push(
                aliases_text(v@)[i as int],
            ));
        }
        i = i + 1;
    }
    proof {
        assert(aliases_text(v@).take(v@.len() as int) =~= aliases_text(v@));
    }
    out
}

/// One resolution of a specifier from a folder.
pub struct ResolveWalk {
    options: ResolveOptions,
    directory: String,
    specifier: String,
    phase: Phase,
    pending_path: String,
    pending_subpath: String,
    walk: NodeModulesWalk,
    load: FileLoad,
    alias: AliasWalk,
    in_fallback: bool,
    fallback_error: ResolveError,
    ts_paths: Vec<String>,
    ts_index: usize,
    match_path: String,
    match_prefixes: Vec<String>,
    match_index: usize,
}

impl View for ResolveWalk {
    type V = ResolveText;

    closed spec fn view(&self) -> ResolveText {
        ResolveText {
            options: self.options@,
            directory: self.directory@,
            specifier: self.specifier@,
            phase: self.phase,
            pending_path: self.pending_path@,
            pending_subpath: self.pending_subpath@,
            walk: self.walk@,
            load: self.load@,
            alias: self.alias@,
            in_fallback: self.in_fallback,
            fallback_error: self.fallback_error@,
            ts_paths: texts(self.ts_paths@),
            ts_index: self.ts_index as int,
            match_path: self.match_path@,
            match_prefixes: texts(self.match_prefixes@),
            match_index: self.match_index as int,
        }
    }
}

/// A resolution in order: while it waits on the walk or a load, they wait
/// on the question put to the caller.
pub open spec fn resolve_in_order(w: ResolveText) -> bool {
    &&& w.phase == Phase::WalkIsDirectory ==> (w.walk.waiting is Folder || w.walk.waiting is PackageFolder
        || w.walk.waiting is ScopeFolder)
    &&& w.phase == Phase::WalkModuleFolder ==> w.walk.waiting is ModuleFolder
    &&& w.phase == Phase::WalkExports ==> w.walk.waiting is Exports
    &&& w.phase == Phase::LoadInModules ==> w.walk.waiting is FileOrDirectory
    &&& (w.phase == Phase::Begin || w.phase == Phase::TsconfigPaths || w.phase == Phase::LoadTsconfigPath)
        ==> w.alias.waiting is Begin && !w.in_fallback
    &&& w.phase == Phase::AliasIsFile ==> w.alias.waiting is FileCheck
    &&& w.phase == Phase::AliasRequire ==> w.alias.waiting is Resolution
    &&& is_loading(w.phase) ==> !(w.load.waiting == LoadWaiting::Begin) && !(w.load.waiting
        == LoadWaiting::Finished)
}

impl ResolveWalk {
    /// The resolution, its walk and its load are in order.
    pub closed spec fn wf(&self) -> bool {
        &&& self.walk.wf()
        &&& self.load.wf()
        &&& self.alias.wf()
        &&& resolve_in_order(self@)
    }

    /// A resolution of `specifier` from the folder `directory`, not begun.
    pub fn new(options: ResolveOptions, directory: &str, specifier: &str) -> (w: Self)
        ensures
            w.wf(),
            w@ == resolve_start(options@, directory@, specifier@),
    {
        let walk = NodeModulesWalk::new(directory, specifier, copy_strings(&options.modules));
        let load = FileLoad::new(copy_load_options(&options.load), directory, specifier);
        let alias = AliasWalk::new(directory, specifier, copy_aliases(&options.alias));
        let ts_paths: Vec<String> = Vec::new();
        let match_prefixes: Vec<String> = Vec::new();
        proof {
            assert(texts(ts_paths@) =~= Seq::<Seq<char>>::empty());
            assert(texts(match_prefixes@) =~= Seq::<Seq<char>>::empty());
        }
        ResolveWalk {
            options,
            directory: directory.to_owned(),
            specifier: specifier.to_owned(),
            phase: Phase::Begin,
            pending_path: String::new(),
            pending_subpath: String::new(),
            walk,
            load,
            alias,
            in_fallback: false,
            fallback_error: ResolveError::NotFound(specifier.to_owned()),
            ts_paths,
            ts_index: 0,
            match_path: String::new(),
            match_prefixes,
            match_index: 0,
        }
    }

    /// Whether `answer` is what the resolution waits for (see
    /// [`resolve_expects`]).
    pub fn expects(&self, answer: &FsAnswer) -> (r: bool)
        ensures
            r == resolve_expects(self@, answer@),
    {
        match self.phase {
            Phase::Begin => matches!(answer, FsAnswer::Begin),
            Phase::TsconfigPaths => matches!(answer, FsAnswer::TsconfigPaths(_)),
            Phase::AliasIsFile => matches!(answer, FsAnswer::Metadata(_)),
            Phase::AliasRequire => matches!(answer, FsAnswer::Required(_)),
            Phase::Imports => matches!(answer, FsAnswer::Imports(_)),
            Phase::PackageScope => matches!(answer, FsAnswer::PackageJson(_)),
            Phase::WalkIsDirectory => matches!(answer, FsAnswer::Metadata(_)),
            Phase::WalkModuleFolder => matches!(answer, FsAnswer::Metadata(_)),
            Phase::WalkExports => matches!(answer, FsAnswer::PackageJson(_)),
            Phase::Canonical => matches!(answer, FsAnswer::Canonical(_)),
            Phase::Finished => false,
            _ => match answer {
                FsAnswer::Metadata(m) => self.load.expects(&LoadAnswer::Metadata(*m)),
                FsAnswer::PackageJson(_) => self.load.expects(&LoadAnswer::PackageJson(None)),
                FsAnswer::Allowed(b) => self.load.expects(&LoadAnswer::Allowed(*b)),
                _ => false,
            },
        }
    }

    /// Ends with the error `e` (see [`finish_err`]).
    fn finish_err(&mut self, e: ResolveError) -> (q: FsQuery)
        requires
            old(self).walk.wf(),
            old(self).load.wf(),
            old(self).alias.wf(),
        ensures
            final(self).wf(),
            (final(self)@, q@) == finish_err(old(self)@, e@),
    {
        self.phase = Phase::Finished;
        FsQuery::Done(Err(e))
    }

    /// Serves the fallback aliases' action `a` (see [`serve_fallback`]).
    fn serve_fallback(&mut self, a: AliasAction) -> (q: FsQuery)
        requires
            old(self).walk.wf(),
            old(self).load.wf(),
            old(self).alias.wf(),
            crate::alias::alias_action_fits(old(self)@.alias.waiting, a@),
        ensures
            final(self).wf(),
            (final(self)@, q@) == serve_fallback(old(self)@, a@),
    {
        match a {
            AliasAction::IsFile(p) => {
                self.phase = Phase::AliasIsFile;
                FsQuery::Metadata(p)
            },
            AliasAction::Require(s) => {
                self.phase = Phase::AliasRequire;
                FsQuery::Require { directory: self.directory.clone(), specifier: s }
            },
            AliasAction::Fail(e) => self.finish_err(e),
            AliasAction::NoAlias => {
                let e = self.fallback_error.duplicate();
                self.finish_err(e)
            },
        }
    }

    /// Tries the fallback aliases in place of `e` (see [`start_fallback`]).
    fn start_fallback(&mut self, e: ResolveError) -> (q: FsQuery)
        requires
            old(self).walk.wf(),
            old(self).load.wf(),
        ensures
            final(self).wf(),
            (final(self)@, q@) == start_fallback(old(self)@, e@),
    {
        self.in_fallback = true;
        self.fallback_error = e;
        let mut alias = AliasWalk::new(
            self.directory.as_str(),
            self.specifier.as_str(),
            copy_aliases(&self.options.fallback),
        );
        proof {
            crate::alias::lemma_alias_action_fits(alias@, AliasEvent::Begin);
        }
        let a = alias.next(AliasEvent::Begin);
        self.alias = alias;
        self.serve_fallback(a)
    }

    /// Fails with `e` (see [`resolve_fail`]).
    fn fail(&mut self, e: ResolveError) -> (q: FsQuery)
        requires
            old(self).walk.wf(),
            old(self).load.wf(),
            old(self).alias.wf(),
        ensures
            final(self).wf(),
            (final(self)@, q@) == resolve_fail(old(self)@, e@),
    {
        let ignored = match &e {
            ResolveError::Ignored(_) => true,
            _ => false,
        };
        if !self.in_fallback && !ignored {
            self.start_fallback(e)
        } else {
            self.finish_err(e)
        }
    }

    /// Found `p` (see [`resolve_found`]).
    fn found(&mut self, p: String) -> (q: FsQuery)
        requires
            old(self).walk.wf(),
            old(self).load.wf(),
            old(self).alias.wf(),
        ensures
            final(self).wf(),
            (final(self)@, q@) == resolve_found(old(self)@, p@),
    {
        if self.options.symlinks {
            self.phase = Phase::Canonical;
            FsQuery::Canonicalize(p)
        } else {
            self.phase = Phase::Finished;
            FsQuery::Done(Ok(p))
        }
    }

    /// Begins loading `path` for `specifier` (see [`start_load`]).
    fn start_load(&mut self, path: &str, specifier: &str, phase: Phase) -> (q: FsQuery)
        requires
            old(self).walk.wf(),
            old(self).alias.wf(),
            is_loading(phase),
            phase == Phase::LoadInModules ==> old(self)@.walk.waiting is FileOrDirectory,
            phase == Phase::LoadTsconfigPath ==> old(self)@.alias.waiting is Begin && !old(self)@.in_fallback,
        ensures
            final(self).wf(),
            (final(self)@, q@) == start_load(old(self)@, path@, specifier@, phase),
    {
        let mut load = FileLoad::new(copy_load_options(&self.options.load), path, specifier);
        let ghost l = load@;
        proof {
            lemma_load_query_fits(l, LoadAnswer::Begin);
        }
        let q = load.next(LoadAnswer::Begin);
        self.load = load;
        self.phase = phase;
        match q {
            LoadQuery::Metadata(p) => FsQuery::Metadata(p),
            _ => {
                proof {
                    assert(false);
                }
                FsQuery::Metadata(String::new())
            },
        }
    }

    /// Serves the walk's action `a` (see [`serve_walk`]).
    fn serve_walk(&mut self, a: WalkAction) -> (q: FsQuery)
        requires
            old(self).walk.wf(),
            old(self).load.wf(),
            old(self).alias.wf(),
            walk_action_fits(old(self)@.walk.waiting, a@),
        ensures
            final(self).wf(),
            (final(self)@, q@) == serve_walk(old(self)@, a@),
    {
        match a {
            WalkAction::IsDirectory(p) => {
                self.phase = Phase::WalkIsDirectory;
                FsQuery::Metadata(p)
            },
            WalkAction::FindModuleFolder { folder, module_name } => {
                let m = join_onto(folder.as_str(), module_name.as_str());
                self.pending_path = m.clone();
                self.phase = Phase::WalkModuleFolder;
                FsQuery::Metadata(m)
            },
            WalkAction::LoadPackageExports { package_folder, subpath } => {
                self.pending_path = package_folder.clone();
                self.pending_subpath = subpath;
                self.phase = Phase::WalkExports;
                FsQuery::ReadPackageJson(package_folder)
            },
            WalkAction::LoadAsFileOrDirectory(p) => {
                let specifier = self.specifier.clone();
                self.start_load(p.as_str(), specifier.as_str(), Phase::LoadInModules)
            },
            WalkAction::NotFound => {
                let e = ResolveError::NotFound(self.specifier.clone());
                self.fail(e)
            },
        }
    }

    /// Tells the walk `e` and serves its next action (see [`walk_on`]).
    fn walk_on(&mut self, e: WalkEvent) -> (q: FsQuery)
        requires
            old(self).walk.wf(),
            old(self).load.wf(),
            old(self).alias.wf(),
            crate::node_modules::expects(old(self)@.walk.waiting, e@),
        ensures
            final(self).wf(),
            (final(self)@, q@) == walk_on(old(self)@, e@),
    {
        proof {
            lemma_walk_action_fits(self@.walk, e@);
        }
        let a = self.walk.next(e);
        self.serve_walk(a)
    }

    /// Serves the load's question `q` (see [`serve_load`]).
    fn serve_load(&mut self, q: LoadQuery) -> (r: FsQuery)
        requires
            old(self).walk.wf(),
            old(self).load.wf(),
            old(self).alias.wf(),
            load_query_fits(old(self)@.load.waiting, q@),
            is_loading(old(self)@.phase),
            old(self)@.phase == Phase::LoadInModules ==> old(self)@.walk.waiting is FileOrDirectory,
            old(self)@.phase == Phase::LoadTsconfigPath ==> old(self)@.alias.waiting is Begin
                && !old(self)@.in_fallback,
        ensures
            final(self).wf(),
            (final(self)@, r@) == serve_load(old(self)@, q@),
    {
        match q {
            LoadQuery::Metadata(p) => FsQuery::Metadata(p),
            LoadQuery::ReadPackageJson(p) => FsQuery::ReadPackageJson(p),
            LoadQuery::CheckRestrictions(p) => FsQuery::CheckRestrictions(p),
            LoadQuery::Done(Some(p)) => {
                if self.phase == Phase::LoadMatchPrefix {
                    let m = self.match_path.clone();
                    self.found(m)
                } else {
                    self.found(p)
                }
            },
            LoadQuery::Done(None) => {
                self.after_load();
                self.load_none()
            },
            LoadQuery::Failed(e) => {
                self.after_load();
                self.load_failed(e)
            },
        }
    }

    /// Takes over how fully specified the ended load left the request (see
    /// [`after_load`]).
    fn after_load(&mut self)
        ensures
            final(self)@ == after_load(old(self)@),
            final(self).walk == old(self).walk,
            final(self).load == old(self).load,
            final(self).alias == old(self).alias,
    {
        self.options.load.fully_specified = self.load.fully_specified();
    }

    /// Goes on after a load that found nothing (see [`load_none`]).
    fn load_none(&mut self) -> (r: FsQuery)
        requires
            old(self).walk.wf(),
            old(self).load.wf(),
            old(self).alias.wf(),
            is_loading(old(self)@.phase),
            old(self)@.phase == Phase::LoadInModules ==> old(self)@.walk.waiting is FileOrDirectory,
            old(self)@.phase == Phase::LoadTsconfigPath ==> old(self)@.alias.waiting is Begin
                && !old(self)@.in_fallback,
        ensures
            final(self).wf(),
            (final(self)@, r@) == load_none(old(self)@),
    {
        if self.phase == Phase::LoadInModules {
            self.walk_on(WalkEvent::NothingFound)
        } else if self.phase == Phase::LoadPreferRelative {
            self.start_self()
        } else if self.phase == Phase::LoadMatch {
            let path = self.load.path_text();
            self.match_prefixes = query_split_candidates(path.as_str());
            self.match_path = path;
            self.match_try(0)
        } else if self.phase == Phase::LoadMatchPrefix {
            let i = self.match_index;
            proof {
                assert(self.match_prefixes.len() == self.match_prefixes@.len());
            }
            if i < self.match_prefixes.len() {
                self.match_try(i + 1)
            } else {
                self.match_try(i)
            }
        } else if self.phase == Phase::LoadTsconfigPath {
            let i = self.ts_index;
            proof {
                assert(self.ts_paths.len() == self.ts_paths@.len());
            }
            if i < self.ts_paths.len() {
                self.ts_try(i + 1)
            } else {
                self.ts_try(i)
            }
        } else {
            let e = ResolveError::NotFound(self.specifier.clone());
            self.fail(e)
        }
    }

    /// Goes on after a load that failed (see [`load_failed`]).
    fn load_failed(&mut self, e: ResolveError) -> (r: FsQuery)
        requires
            old(self).walk.wf(),
            old(self).load.wf(),
            old(self).alias.wf(),
            is_loading(old(self)@.phase),
            old(self)@.phase == Phase::LoadInModules ==> old(self)@.walk.waiting is FileOrDirectory,
            old(self)@.phase == Phase::LoadTsconfigPath ==> old(self)@.alias.waiting is Begin
                && !old(self)@.in_fallback,
        ensures
            final(self).wf(),
            (final(self)@, r@) == load_failed(old(self)@, e@),
    {
        if self.phase == Phase::LoadTsconfigPath {
            let i = self.ts_index;
            proof {
                assert(self.ts_paths.len() == self.ts_paths@.len());
            }
            if i < self.ts_paths.len() {
                self.ts_try(i + 1)
            } else {
                self.ts_try(i)
            }
        } else if self.phase == Phase::LoadPreferRelative {
            self.start_self()
        } else {
            self.fail(e)
        }
    }

    /// Resolves the specifier by its kind (see [`dispatch`]).
    fn dispatch(&mut self) -> (q: FsQuery)
        requires
            old(self).walk.wf(),
            old(self).load.wf(),
            old(self).alias.wf(),
        ensures
            final(self).wf(),
            (final(self)@, q@) == dispatch(old(self)@),
    {
        let specifier = self.specifier.clone();
        match classify_specifier(specifier.as_str()) {
            SpecifierKind::Absolute => self.start_load(specifier.as_str(), specifier.as_str(), Phase::LoadPath),
            SpecifierKind::Relative => {
                let path = normalize_with(self.directory.as_str(), specifier.as_str());
                self.start_load(path.as_str(), specifier.as_str(), Phase::LoadPath)
            },
            SpecifierKind::Hash => {
                self.phase = Phase::Imports;
                FsQuery::LoadPackageImports { directory: self.directory.clone(), specifier }
            },
            SpecifierKind::Bare => {
                match require_core(specifier.as_str(), self.options.builtin_modules, &self.options.builtins) {
                    Err(e) => self.fail(e),
                    Ok(()) => {
                        if self.options.prefer_relative {
                            let path = normalize_with(self.directory.as_str(), specifier.as_str());
                            self.start_load(path.as_str(), specifier.as_str(), Phase::LoadPreferRelative)
                        } else {
                            self.start_self()
                        }
                    },
                }
            },
        }
    }

    /// Serves the aliases' action `a` (see [`serve_main_alias`]).
    fn serve_main_alias(&mut self, a: AliasAction) -> (q: FsQuery)
        requires
            old(self).walk.wf(),
            old(self).load.wf(),
            old(self).alias.wf(),
            crate::alias::alias_action_fits(old(self)@.alias.waiting, a@),
        ensures
            final(self).wf(),
            (final(self)@, q@) == serve_main_alias(old(self)@, a@),
    {
        match a {
            AliasAction::IsFile(p) => {
                self.phase = Phase::AliasIsFile;
                FsQuery::Metadata(p)
            },
            AliasAction::Require(s) => {
                self.phase = Phase::AliasRequire;
                FsQuery::Require { directory: self.directory.clone(), specifier: s }
            },
            AliasAction::Fail(e) => self.finish_err(e),
            AliasAction::NoAlias => self.dispatch(),
        }
    }

    /// Tells the alias walk `e` and serves its next action (see [`alias_on`]).
    fn alias_on(&mut self, e: AliasEvent) -> (q: FsQuery)
        requires
            old(self).walk.wf(),
            old(self).load.wf(),
            old(self).alias.wf(),
            alias_expects(old(self)@.alias.waiting, e),
        ensures
            final(self).wf(),
            (final(self)@, q@) == alias_on(old(self)@, e),
    {
        proof {
            crate::alias::lemma_alias_action_fits(self@.alias, e);
        }
        let a = self.alias.next(e);
        if self.in_fallback {
            self.serve_fallback(a)
        } else {
            self.serve_main_alias(a)
        }
    }

    /// Tries the `tsconfig.json` paths from the `i`-th on (see [`ts_try`]).
    fn ts_try(&mut self, i: usize) -> (q: FsQuery)
        requires
            old(self).walk.wf(),
            old(self).load.wf(),
            old(self).alias.wf(),
            old(self)@.alias.waiting is Begin,
            !old(self)@.in_fallback,
        ensures
            final(self).wf(),
            (final(self)@, q@) == ts_try(old(self)@, i as int),
    {
        if i < self.ts_paths.len() {
            self.ts_index = i;
            let path = normalize_with(self.ts_paths[i].as_str(), ".");
            proof {
                reveal_strlit(".");
                assert("."@ =~= seq!['.']);
                assert(self@.ts_paths[i as int] == self.ts_paths@[i as int]@);
            }
            self.start_load(path.as_str(), ".", Phase::LoadTsconfigPath)
        } else {
            self.phase = Phase::Begin;
            self.ts_paths = Vec::new();
            self.ts_index = 0;
            proof {
                assert(texts(self.ts_paths@) =~= Seq::<Seq<char>>::empty());
            }
            self.alias_on(AliasEvent::Begin)
        }
    }

    /// Tries the cuts of the target's path from the `i`-th on (see
    /// [`match_try`]).
    fn match_try(&mut self, i: usize) -> (q: FsQuery)
        requires
            old(self).walk.wf(),
            old(self).load.wf(),
            old(self).alias.wf(),
        ensures
            final(self).wf(),
            (final(self)@, q@) == match_try(old(self)@, i as int),
    {
        if i < self.match_prefixes.len() {
            self.match_index = i;
            let path = self.match_prefixes[i].clone();
            proof {
                reveal_strlit("");
                assert(""@ =~= Seq::<char>::empty());
                assert(self@.match_prefixes[i as int] == path@);
            }
            self.start_load(path.as_str(), "", Phase::LoadMatchPrefix)
        } else {
            let e = ResolveError::NotFound(self.specifier.clone());
            self.fail(e)
        }
    }

    /// Begins resolving within the specifier's own package (see
    /// [`start_self`]).
    fn start_self(&mut self) -> (q: FsQuery)
        requires
            old(self).walk.wf(),
            old(self).load.wf(),
            old(self).alias.wf(),
        ensures
            final(self).wf(),
            (final(self)@, q@) == start_self(old(self)@),
    {
        let (_, subpath) = parse_package_specifier(self.specifier.as_str());
        if subpath.as_str().is_empty() {
            self.options.load.fully_specified = false;
        }
        self.phase = Phase::PackageScope;
        self.pending_path = self.directory.clone();
        FsQuery::ReadPackageJson(self.directory.clone())
    }

    /// Looks for the nearest `package.json` (see [`scope_step`]).
    fn scope_step(&mut self, package_json: Option<JsonValue>) -> (q: FsQuery)
        requires
            old(self).wf(),
            old(self)@.phase == Phase::PackageScope,
        ensures
            final(self).wf(),
            (final(self)@, q@) == scope_step(old(self)@, package_json),
    {
        match package_json {
            Some(v) => {
                let dir = self.pending_path.clone();
                self.self_step(Some((dir, v)))
            },
            None => match parent_of(self.pending_path.as_str()) {
                Some(p) => {
                    self.pending_path = p.clone();
                    FsQuery::ReadPackageJson(p)
                },
                None => self.self_step(None),
            },
        }
    }

    /// Resolves within the nearest package (see [`self_step`]).
    fn self_step(&mut self, scope: Option<(String, JsonValue)>) -> (q: FsQuery)
        requires
            old(self).walk.wf(),
            old(self).load.wf(),
            old(self).alias.wf(),
        ensures
            final(self).wf(),
            (final(self)@, q@) == self_step(
                old(self)@,
                match scope {
                    Some((d, v)) => Some((d@, v)),
                    None => None,
                },
            ),
    {
        let (dir, entries) = match &scope {
            Some((d, JsonValue::Object(entries))) => (d, entries),
            _ => return self.start_walk(),
        };
        let name = match object_get(entries, "name") {
            Some(JsonValue::String(name)) => name,
            _ => return self.start_walk(),
        };
        let sub = match strip_package_name(self.specifier.as_str(), name.as_str()) {
            Some(sub) => sub,
            None => return self.start_walk(),
        };
        let exports = match object_get(entries, "exports") {
            Some(e) => e,
            None => return self.start_walk(),
        };
        let mut subpath = ".".to_owned();
        subpath.append(sub.as_str());
        proof {
            reveal_strlit(".");
            assert(subpath@ =~= seq!['.'] + sub@);
        }
        let r = package_exports_resolve(dir.as_str(), subpath.as_str(), exports, &self.options.condition_names, &None, &None);
        match r {
            Ok(Some(p)) => {
                proof {
                    reveal_strlit("");
                    assert(""@ =~= Seq::<char>::empty());
                }
                self.start_load(p.as_str(), "", Phase::LoadMatch)
            },
            Ok(None) => self.start_walk(),
            Err(e) => self.fail(e),
        }
    }

    /// Begins the walk through the module folders (see [`start_walk`]).
    fn start_walk(&mut self) -> (q: FsQuery)
        requires
            old(self).load.wf(),
            old(self).alias.wf(),
        ensures
            final(self).wf(),
            (final(self)@, q@) == start_walk(old(self)@),
    {
        self.walk = NodeModulesWalk::new(
            self.directory.as_str(),
            self.specifier.as_str(),
            copy_strings(&self.options.modules),
        );
        self.walk_on(WalkEvent::Begin)
    }
}

impl ResolveWalk {
    /// Tells the resolution `answer` and returns its next question (see
    /// [`resolve_step`]).
    pub fn next(&mut self, answer: FsAnswer) -> (q: FsQuery)
        requires
            old(self).wf(),
            resolve_expects(old(self)@, answer@),
        ensures
            final(self).wf(),
            (final(self)@, q@) == resolve_step(old(self)@, answer@),
    {
        match self.phase {
            Phase::Begin => {
                if self.options.tsconfig {
                    self.phase = Phase::TsconfigPaths;
                    FsQuery::TsconfigPaths { directory: self.directory.clone(), specifier: self.specifier.clone() }
                } else {
                    self.alias_on(AliasEvent::Begin)
                }
            },
            Phase::TsconfigPaths => {
                let paths = match answer {
                    FsAnswer::TsconfigPaths(v) => v,
                    _ => {
                        let none: Vec<String> = Vec::new();
                        proof {
                            assert(texts(none@) =~= Seq::<Seq<char>>::empty());
                        }
                        none
                    },
                };
                self.ts_paths = paths;
                self.ts_try(0)
            },
            Phase::AliasIsFile => {
                let is_file = match answer {
                    FsAnswer::Metadata(Some(m)) => m.is_file,
                    _ => false,
                };
                self.alias_on(AliasEvent::IsFile(is_file))
            },
            Phase::AliasRequire => match answer {
                FsAnswer::Required(Ok(p)) => self.found(p),
                FsAnswer::Required(Err(e)) => {
                    let not_found = match &e {
                        ResolveError::NotFound(_) => true,
                        ResolveError::MatchedAliasNotFound(_, _) => true,
                        _ => false,
                    };
                    if not_found {
                        self.alias_on(AliasEvent::NothingFound)
                    } else {
                        self.finish_err(e)
                    }
                },
                _ => self.alias_on(AliasEvent::NothingFound),
            },
            Phase::Imports => match answer {
                FsAnswer::Imports(Ok(Some(p))) => {
                    proof {
                        reveal_strlit("");
                        assert(""@ =~= Seq::<char>::empty());
                    }
                    self.start_load(p.as_str(), "", Phase::LoadMatch)
                },
                FsAnswer::Imports(Err(e)) => self.fail(e),
                _ => self.start_self(),
            },
            Phase::PackageScope => match answer {
                FsAnswer::PackageJson(v) => self.scope_step(v),
                _ => self.start_walk(),
            },
            Phase::WalkIsDirectory => {
                let is_dir = match answer {
                    FsAnswer::Metadata(Some(m)) => m.is_dir,
                    _ => false,
                };
                self.walk_on(WalkEvent::IsDirectory(is_dir))
            },
            Phase::WalkModuleFolder => {
                let is_dir = match answer {
                    FsAnswer::Metadata(Some(m)) => m.is_dir,
                    _ => false,
                };
                if is_dir {
                    let m = self.pending_path.clone();
                    self.walk_on(WalkEvent::ModuleFolder(Some(m)))
                } else {
                    self.walk_on(WalkEvent::ModuleFolder(None))
                }
            },
            Phase::WalkExports => {
                let v = match answer {
                    FsAnswer::PackageJson(v) => v,
                    _ => None,
                };
                let exports = match &v {
                    Some(JsonValue::Object(entries)) => object_get(entries, "exports"),
                    _ => None,
                };
                match exports {
                    Some(e) => {
                        let mut subpath = ".".to_owned();
                        subpath.append(self.pending_subpath.as_str());
                        proof {
                            reveal_strlit(".");
                            assert(subpath@ =~= seq!['.'] + self.pending_subpath@);
                        }
                        let r = package_exports_resolve(
                            self.pending_path.as_str(),
                            subpath.as_str(),
                            e,
                            &self.options.condition_names,
                            &None,
                            &None,
                        );
                        match r {
                            Ok(Some(p)) => {
                                proof {
                                    reveal_strlit("");
                        assert(""@ =~= Seq::<char>::empty());
                                }
                                self.start_load(p.as_str(), "", Phase::LoadMatch)
                            },
                            Ok(None) => self.walk_on(WalkEvent::NothingFound),
                            Err(err) => self.fail(err),
                        }
                    },
                    None => self.walk_on(WalkEvent::NothingFound),
                }
            },
            Phase::Canonical => match answer {
                FsAnswer::Canonical(c) => {
                    self.phase = Phase::Finished;
                    FsQuery::Done(Ok(c))
                },
                _ => {
                    let e = ResolveError::NotFound(self.specifier.clone());
                    self.fail(e)
                },
            },
            Phase::Finished => FsQuery::Done(Err(ResolveError::NotFound(self.specifier.clone()))),
            _ => {
                let la = match answer {
                    FsAnswer::Metadata(m) => LoadAnswer::Metadata(m),
                    FsAnswer::PackageJson(v) => LoadAnswer::PackageJson(v),
                    FsAnswer::Allowed(b) => LoadAnswer::Allowed(b),
                    _ => LoadAnswer::Begin,
                };
                proof {
                    lemma_load_query_fits(self@.load, la);
                }
                let lq = self.load.next(la);
                self.serve_load(lq)
            },
        }
    }
}

} // verus!
