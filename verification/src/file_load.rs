//! LOAD_AS_FILE_OR_DIRECTORY: loading a path as a file (the path itself,
//! then with each extension), else as a directory (through the `main`
//! fields of its `package.json`, then its index files). The load asks its
//! caller about the file system and is told the answers; every file it may
//! find is a candidate, tried in order until one is a file inside the
//! restrictions.
use vstd::prelude::*;

use crate::error::{ErrorView, ResolveError};
use crate::exports::texts;
use crate::file_system::FileMetadata;
use crate::json::{obj_get, object_get, JsonValue};
use crate::path::{check_restrictions, normalize_with, normalized_join, restriction_holds};
use crate::path::parent_path;
use crate::resolver::{
    alias_index_from, extension_alias_candidates, extension_alias_error, extension_candidates, file_name_of,
    find_extension_alias, joined_names, main_field_request, main_field_request_text, path_extension, stem_of,
    trim_leading_dots, without_extension,
};
use crate::text::{chars_of, ends_with};

verus! {

/// What a load takes from the resolver's options and the request.
#[derive(Clone)]
pub struct LoadOptions {
    /// The extensions tried after the path itself, in order.
    pub extensions: Vec<String>,
    /// The index files of a directory, in order.
    pub main_files: Vec<String>,
    /// The `package.json` fields that name a directory's main file, in order.
    pub main_fields: Vec<String>,
    /// Whether `package.json` files are read at all.
    pub description_files: bool,
    /// Whether a path is only tried with an extension.
    pub enforce_extension: bool,
    /// Whether the request is fully specified, so that no extension is tried.
    pub fully_specified: bool,
    /// Whether a directory is what is resolved, rather than a file.
    pub resolve_to_context: bool,
    /// The folders a file found must lie inside.
    pub restrictions: Vec<String>,
    /// Whether there are also restrictions that are functions of the path,
    /// which the caller checks.
    pub function_restrictions: bool,
    /// The extensions each extension stands for: a file whose extension has
    /// an alias is tried with each aliased extension in its place first.
    pub extension_alias: Vec<(String, Vec<String>)>,
}

/// [`LoadOptions`] with its strings as character sequences.
pub struct LoadOptionsText {
    pub extensions: Seq<Seq<char>>,
    pub main_files: Seq<Seq<char>>,
    pub main_fields: Seq<Seq<char>>,
    pub description_files: bool,
    pub enforce_extension: bool,
    pub fully_specified: bool,
    pub resolve_to_context: bool,
    pub restrictions: Seq<Seq<char>>,
    pub function_restrictions: bool,
    pub extension_alias: Seq<(Seq<char>, Seq<Seq<char>>)>,
}

impl View for LoadOptions {
    type V = LoadOptionsText;

    open spec fn view(&self) -> LoadOptionsText {
        LoadOptionsText {
            extensions: texts(self.extensions@),
            main_files: texts(self.main_files@),
            main_fields: texts(self.main_fields@),
            description_files: self.description_files,
            enforce_extension: self.enforce_extension,
            fully_specified: self.fully_specified,
            resolve_to_context: self.resolve_to_context,
            restrictions: texts(self.restrictions@),
            function_restrictions: self.function_restrictions,
            extension_alias: ext_aliases_text(self.extension_alias@),
        }
    }
}

/// Extension aliases with their strings as character sequences.
pub open spec fn ext_aliases_text(v: Seq<(String, Vec<String>)>) -> Seq<(Seq<char>, Seq<Seq<char>>)> {
    v.map_values(|a: (String, Vec<String>)| (a.0@, texts(a.1@)))
}

/// The extensions the alias for the extension `e` stands for, looking from
/// the `i`-th alias on: the first whose extension, leading dots aside, is
/// `e`.
pub open spec fn aliased_from(aliases: Seq<(Seq<char>, Seq<Seq<char>>)>, e: Seq<char>, i: int) -> Option<
    Seq<Seq<char>>,
>
    decreases aliases.len() - i,
{
    if i < 0 || i >= aliases.len() {
        None
    } else if trim_leading_dots(aliases[i].0) == e {
        Some(aliases[i].1)
    } else {
        aliased_from(aliases, e, i + 1)
    }
}

/// The extensions the extension of `p` stands for, when it has an alias.
pub open spec fn aliased_extensions(o: LoadOptionsText, p: Seq<char>) -> Option<Seq<Seq<char>>> {
    match path_extension(p) {
        Some(e) => aliased_from(o.extension_alias, e, 0),
        None => None,
    }
}

/// The files tried for the aliased extensions of `p`: `p` without its
/// extension, with each aliased extension.
pub open spec fn alias_candidates(p: Seq<char>, exts: Seq<Seq<char>>) -> Seq<Seq<char>> {
    exts.map_values(|e: Seq<char>| without_extension(p) + e)
}

/// The error for the file `p` that exists while none of the files for its
/// aliased extensions `exts` do.
pub open spec fn alias_error(p: Seq<char>, exts: Seq<Seq<char>>) -> ErrorView {
    ErrorView::ExtensionAlias(
        file_name_of(p).unwrap(),
        joined_names(stem_of(file_name_of(p).unwrap()), exts),
        parent_path(p).unwrap(),
    )
}

proof fn lemma_aliased_from(raw: Seq<(String, Vec<String>)>, e: Seq<char>, i: int)
    requires
        0 <= i <= raw.len(),
    ensures
        match alias_index_from(raw, e, i) {
            Some(k) => 0 <= k < raw.len() && aliased_from(ext_aliases_text(raw), e, i) == Some(
                texts(raw[k].1@),
            ),
            None => aliased_from(ext_aliases_text(raw), e, i) is None,
        },
    decreases raw.len() - i,
{
    if i < raw.len() {
        lemma_aliased_from(raw, e, i + 1);
    }
}

/// The files tried for a path: the path itself unless an extension is
/// enforced, then the path with each extension unless the request is fully
/// specified.
pub open spec fn file_candidates(o: LoadOptionsText, p: Seq<char>) -> Seq<Seq<char>> {
    (if o.enforce_extension {
        Seq::empty()
    } else {
        seq![p]
    }) + (if o.fully_specified {
        Seq::empty()
    } else {
        o.extensions.map_values(|e: Seq<char>| p + e)
    })
}

/// The files tried for the first `n` index files of the directory `dir`.
pub open spec fn index_candidates_upto(o: LoadOptionsText, dir: Seq<char>, n: int) -> Seq<Seq<char>>
    decreases n,
{
    if n <= 0 || n > o.main_files.len() {
        Seq::empty()
    } else {
        index_candidates_upto(o, dir, n - 1) + file_candidates(o, normalized_join(dir, o.main_files[n - 1]))
    }
}

/// The files tried for the index files of the directory `dir`, in order.
pub open spec fn index_candidates(o: LoadOptionsText, dir: Seq<char>) -> Seq<Seq<char>> {
    index_candidates_upto(o, dir, o.main_files.len() as int)
}

/// The values of the first `n` main fields that are strings in the object
/// `entries`, in the order of the fields.
pub open spec fn main_values_upto(o: LoadOptionsText, entries: Seq<(String, JsonValue)>, n: int) -> Seq<Seq<char>>
    decreases n,
{
    if n <= 0 || n > o.main_fields.len() {
        Seq::empty()
    } else {
        let rest = main_values_upto(o, entries, n - 1);
        match obj_get(entries, o.main_fields[n - 1]) {
            Some(JsonValue::String(s)) => rest.push(s@),
            _ => rest,
        }
    }
}

/// The main files a `package.json` (its value, if there is one) names.
pub open spec fn package_mains(o: LoadOptionsText, package_json: Option<JsonValue>) -> Seq<Seq<char>> {
    match package_json {
        Some(JsonValue::Object(entries)) => main_values_upto(o, entries@, o.main_fields.len() as int),
        _ => Seq::empty(),
    }
}

/// The main files named by the first `m` fields come first, in the same
/// order, among those named by the first `n`.
proof fn lemma_main_values_prefix(o: LoadOptionsText, entries: Seq<(String, JsonValue)>, m: int, n: int)
    requires
        0 <= m <= n <= o.main_fields.len(),
    ensures
        main_values_upto(o, entries, m).len() <= main_values_upto(o, entries, n).len(),
        main_values_upto(o, entries, n).take(main_values_upto(o, entries, m).len() as int) == main_values_upto(
            o,
            entries,
            m,
        ),
    decreases n - m,
{
    if m < n {
        lemma_main_values_prefix(o, entries, m, n - 1);
        let a = main_values_upto(o, entries, m);
        let b = main_values_upto(o, entries, n - 1);
        let c = main_values_upto(o, entries, n);
        assert(c.take(a.len() as int) =~= b.take(a.len() as int));
    }
}

/// The main file that the `i`-th main field of the object `entries` names,
/// when its value there is a string.
pub open spec fn field_file(o: LoadOptionsText, entries: Seq<(String, JsonValue)>, i: int) -> Option<Seq<char>> {
    match obj_get(entries, o.main_fields[i]) {
        Some(JsonValue::String(s)) => Some(s@),
        _ => None,
    }
}

/// The main files of a directory are tried in the order of the main fields
/// option: the first field that names a file gives the first main file, and
/// of two fields that name files, the earlier one's file comes earlier.
pub proof fn lemma_main_files_follow_field_order(o: LoadOptionsText, entries: Vec<(String, JsonValue)>)
    ensures
        o.main_fields.len() > 0 && field_file(o, entries@, 0) is Some ==> package_mains(
            o,
            Some(JsonValue::Object(entries)),
        ).len() > 0 && package_mains(o, Some(JsonValue::Object(entries)))[0] == field_file(o, entries@, 0).unwrap(),
        forall|i: int, j: int|
            0 <= i < j < o.main_fields.len() && #[trigger] field_file(o, entries@, i) is Some && #[trigger] field_file(
                o,
                entries@,
                j,
            ) is Some ==> exists|a: int, b: int|
                0 <= a < b < package_mains(o, Some(JsonValue::Object(entries))).len() && package_mains(
                    o,
                    Some(JsonValue::Object(entries)),
                )[a] == field_file(o, entries@, i).unwrap() && package_mains(o, Some(JsonValue::Object(entries)))[b]
                    == field_file(o, entries@, j).unwrap(),
{
    let e = entries@;
    let n = o.main_fields.len() as int;
    let all = package_mains(o, Some(JsonValue::Object(entries)));
    assert(all == main_values_upto(o, e, n));
    if n > 0 {
        lemma_main_values_prefix(o, e, 1, n);
        assert(main_values_upto(o, e, 0).len() == 0);
        if field_file(o, e, 0) is Some {
            let u1 = main_values_upto(o, e, 1);
            assert(u1[0] == field_file(o, e, 0).unwrap());
            assert(all.take(u1.len() as int)[0] == u1[0]);
        }
    }
    assert forall|i: int, j: int|
        0 <= i < j < o.main_fields.len() && #[trigger] field_file(o, e, i) is Some && #[trigger] field_file(
            o,
            e,
            j,
        ) is Some implies exists|a: int, b: int|
        0 <= a < b < all.len() && all[a] == field_file(o, e, i).unwrap() && all[b] == field_file(o, e, j).unwrap() by {
        lemma_main_values_prefix(o, e, i + 1, n);
        lemma_main_values_prefix(o, e, j + 1, n);
        lemma_main_values_prefix(o, e, i + 1, j);
        let a = main_values_upto(o, e, i).len() as int;
        let b = main_values_upto(o, e, j).len() as int;
        let ui = main_values_upto(o, e, i + 1);
        let uj = main_values_upto(o, e, j + 1);
        assert(ui[a] == field_file(o, e, i).unwrap());
        assert(uj[b] == field_file(o, e, j).unwrap());
        assert(all.take(ui.len() as int)[a] == ui[a]);
        assert(all.take(uj.len() as int)[b] == uj[b]);
    }
}

/// The files tried for a main file `m`: as a file, then its index files.
pub open spec fn main_file_candidates(o: LoadOptionsText, m: Seq<char>) -> Seq<Seq<char>> {
    file_candidates(o, m) + index_candidates(o, m)
}

/// A file found is inside every restriction.
pub open spec fn allowed(o: LoadOptionsText, p: Seq<char>) -> bool {
    forall|i: int| 0 <= i < o.restrictions.len() ==> restriction_holds(#[trigger] o.restrictions[i], p)
}

/// Which candidates a load is trying.
#[derive(Clone, Copy, PartialEq, Eq, Structural)]
pub enum Round {
    /// Those of the path as a file.
    Path,
    /// Those of the current main file of the directory: as a file, then
    /// its index files.
    Main,
    /// Those of the directory's index files.
    Index,
}

/// What the load waits to be told.
#[derive(Clone, Copy, PartialEq, Eq, Structural)]
pub enum LoadWaiting {
    /// The load has not begun.
    Begin,
    /// Whether the path is a directory, to resolve to it as such.
    Context,
    /// Whether the current candidate of the round is a file.
    Candidate { round: Round },
    /// Whether the path is a directory.
    Directory,
    /// The directory's `package.json`.
    PackageJson,
    /// Whether the current candidate, a file inside the folder
    /// restrictions, passes the function restrictions.
    Restriction { round: Round },
    /// Whether the current file for an aliased extension is a file; `main`
    /// when the file loaded is a main file of the directory.
    AliasCandidate { main: bool },
    /// Whether the current file for an aliased extension, a file inside the
    /// folder restrictions, passes the function restrictions.
    AliasRestriction { main: bool },
    /// Whether the file loaded is itself a file, none for its aliased
    /// extensions having been found.
    AliasFile { main: bool },
    /// Whether the file loaded, a file inside the folder restrictions,
    /// passes the function restrictions.
    AliasFileRestriction { main: bool },
    /// Nothing: the load is over.
    Finished,
}

/// What the caller tells the load.
pub enum LoadAnswer {
    /// Begin the load.
    Begin,
    /// The metadata of the path asked about, if it exists.
    Metadata(Option<FileMetadata>),
    /// The value of the `package.json` asked about, if there is one.
    PackageJson(Option<JsonValue>),
    /// Whether the path asked about passes the function restrictions.
    Allowed(bool),
}

/// What the load asks of the caller next.
#[derive(Debug, PartialEq, Eq)]
pub enum LoadQuery {
    /// Give the metadata of this path.
    Metadata(String),
    /// Give the value of the `package.json` in this directory.
    ReadPackageJson(String),
    /// Say whether this path passes the function restrictions.
    CheckRestrictions(String),
    /// The load is over: the file or directory found, if any.
    Done(Option<String>),
    /// The load failed.
    Failed(ResolveError),
}

/// [`LoadQuery`] with its paths as character sequences.
pub enum LoadQueryText {
    Metadata(Seq<char>),
    ReadPackageJson(Seq<char>),
    CheckRestrictions(Seq<char>),
    Done(Option<Seq<char>>),
    Failed(ErrorView),
}

impl View for LoadQuery {
    type V = LoadQueryText;

    open spec fn view(&self) -> LoadQueryText {
        match self {
            LoadQuery::Metadata(p) => LoadQueryText::Metadata(p@),
            LoadQuery::ReadPackageJson(p) => LoadQueryText::ReadPackageJson(p@),
            LoadQuery::CheckRestrictions(p) => LoadQueryText::CheckRestrictions(p@),
            LoadQuery::Done(r) => LoadQueryText::Done(
                match r {
                    Some(p) => Some(p@),
                    None => None,
                },
            ),
            LoadQuery::Failed(e) => LoadQueryText::Failed(e@),
        }
    }
}

/// The state of a load: its options, the path, the specifier it stands
/// for, the candidates being tried and the index of the current one, what
/// it waits to be told, the aliased extensions of the file being loaded,
/// that file (the path or a main file), and the directory's main files with
/// the index of the current one.
pub struct FileLoadText {
    pub options: LoadOptionsText,
    pub path: Seq<char>,
    pub specifier: Seq<char>,
    pub candidates: Seq<Seq<char>>,
    pub index: int,
    pub waiting: LoadWaiting,
    pub aliased: Seq<Seq<char>>,
    pub file: Seq<char>,
    pub mains: Seq<Seq<char>>,
    pub main_index: int,
}

/// `w` waiting for `x`.
pub open spec fn load_waiting(w: FileLoadText, x: LoadWaiting) -> FileLoadText {
    FileLoadText { waiting: x, ..w }
}

/// The load is over with `r`.
pub open spec fn load_done(w: FileLoadText, r: Option<Seq<char>>) -> (FileLoadText, LoadQueryText) {
    (load_waiting(w, LoadWaiting::Finished), LoadQueryText::Done(r))
}

/// Asks whether the path is a directory.
pub open spec fn load_directory(w: FileLoadText) -> (FileLoadText, LoadQueryText) {
    (load_waiting(w, LoadWaiting::Directory), LoadQueryText::Metadata(w.path))
}

/// The `k`-th main file of the directory.
pub open spec fn main_path(w: FileLoadText, k: int) -> Seq<char> {
    normalized_join(w.path, main_field_request_text(w.mains[k]))
}

/// What bounds the main files still to try from the `k`-th on.
pub open spec fn main_measure(len: int, k: int) -> nat {
    if k <= len {
        (2 * (len - k) + 1) as nat
    } else {
        1
    }
}

/// What bounds the main files a round may still go on to.
pub open spec fn try_measure(w: FileLoadText, round: Round) -> nat {
    if round == Round::Main {
        main_measure(w.mains.len() as int, w.main_index + 1) + 1
    } else {
        0
    }
}

/// Tries the candidates `cands` of `round` from the `i`-th on; past the
/// last, the path's round goes on with the path as a directory, a main
/// file's round with the next main file, and the index round ends with
/// nothing found.
pub open spec fn load_try(w: FileLoadText, cands: Seq<Seq<char>>, i: int, round: Round) -> (
    FileLoadText,
    LoadQueryText,
)
    decreases try_measure(w, round),
{
    let at = FileLoadText { candidates: cands, index: i, waiting: LoadWaiting::Candidate { round }, ..w };
    if 0 <= i < cands.len() {
        (at, LoadQueryText::Metadata(cands[i]))
    } else {
        match round {
            Round::Path => load_directory(at),
            Round::Main => next_main(at, w.main_index + 1),
            Round::Index => load_done(at, None),
        }
    }
}

/// Loads the directory's main files from the `k`-th on, each as a file
/// (through its extension aliases first, when its extension has one) and
/// then through its index files; past the last, the directory's index
/// files are tried.
pub open spec fn next_main(w: FileLoadText, k: int) -> (FileLoadText, LoadQueryText)
    decreases main_measure(w.mains.len() as int, k),
{
    if 0 <= k < w.mains.len() {
        let m = main_path(w, k);
        let u = FileLoadText { main_index: k, file: m, ..w };
        match aliased_extensions(u.options, m) {
            Some(exts) => alias_try(
                FileLoadText { candidates: alias_candidates(m, exts), aliased: exts, ..with_fully_specified(u, true) },
                0,
                true,
            ),
            None => load_try(u, main_file_candidates(u.options, m), 0, Round::Main),
        }
    } else {
        load_try(w, index_candidates(w.options, w.path), 0, Round::Index)
    }
}

/// `w` with the request fully specified or not.
pub open spec fn with_fully_specified(w: FileLoadText, b: bool) -> FileLoadText {
    FileLoadText { options: LoadOptionsText { fully_specified: b, ..w.options }, ..w }
}

/// Tries the files for the aliased extensions from the `i`-th on; past the
/// last, asks whether the file loaded is itself a file.
pub open spec fn alias_try(w: FileLoadText, i: int, main: bool) -> (FileLoadText, LoadQueryText) {
    if 0 <= i < w.candidates.len() {
        (
            FileLoadText { index: i, waiting: LoadWaiting::AliasCandidate { main }, ..w },
            LoadQueryText::Metadata(w.candidates[i]),
        )
    } else {
        (FileLoadText { index: i, waiting: LoadWaiting::AliasFile { main }, ..w }, LoadQueryText::Metadata(w.file))
    }
}

/// Loads the path as a file: when its extension has an alias, the request
/// becomes fully specified and the files for the aliased extensions are
/// tried first; otherwise its file candidates are (see [`file_candidates`]).
pub open spec fn load_file(w: FileLoadText) -> (FileLoadText, LoadQueryText) {
    let u = FileLoadText { file: w.path, ..w };
    match aliased_extensions(u.options, u.path) {
        Some(exts) => alias_try(
            FileLoadText { candidates: alias_candidates(u.path, exts), aliased: exts, ..with_fully_specified(u, true) },
            0,
            false,
        ),
        None => load_try(u, file_candidates(u.options, u.path), 0, Round::Path),
    }
}

/// No file for an aliased extension was found, and the file loaded does
/// not stand in the way: the request is no longer fully specified, and the
/// file's own candidates are tried.
pub open spec fn alias_passed(w: FileLoadText, main: bool) -> (FileLoadText, LoadQueryText) {
    let u = with_fully_specified(w, false);
    if main {
        load_try(u, main_file_candidates(u.options, u.file), 0, Round::Main)
    } else {
        load_try(u, file_candidates(u.options, u.file), 0, Round::Path)
    }
}

/// The file loaded is itself a file while none for its aliased extensions
/// is: loading the path, the load fails; loading a main file, that failure
/// is passed over and the main file's index files are tried, the request
/// still fully specified.
pub open spec fn alias_hit(w: FileLoadText, main: bool) -> (FileLoadText, LoadQueryText) {
    if main {
        load_try(w, index_candidates(w.options, w.file), 0, Round::Main)
    } else {
        (load_waiting(w, LoadWaiting::Finished), LoadQueryText::Failed(alias_error(w.file, w.aliased)))
    }
}

/// The event that the load waits for; once over, it waits for none.
pub open spec fn load_expects(waiting: LoadWaiting, a: LoadAnswer) -> bool {
    match waiting {
        LoadWaiting::Begin => a is Begin,
        LoadWaiting::PackageJson => a is PackageJson,
        LoadWaiting::Restriction { .. } => a is Allowed,
        LoadWaiting::AliasRestriction { .. } => a is Allowed,
        LoadWaiting::AliasFileRestriction { .. } => a is Allowed,
        LoadWaiting::Finished => false,
        _ => a is Metadata,
    }
}

/// The next state of the load and its next question, once told `a`.
///
/// Resolving to a directory, the path is found when it is a directory.
/// Otherwise, unless the specifier ends with `/`, the path is loaded as a
/// file (see [`load_file`]): when its extension has an alias, the files for
/// the aliased extensions come first, and when none of them is found while
/// the path itself is a file that would be found, the load fails (see
/// [`alias_error`]); then the path's own file candidates are tried (see
/// [`file_candidates`]). After that, when it is a directory, its main files
/// are loaded in turn (see [`next_main`]), reading its `package.json` first
/// when `package.json` files are read, and then its index files are tried.
/// A candidate is found when it is a file inside the folder restrictions
/// that, when there are function restrictions, passes them too.
pub open spec fn load_next(w: FileLoadText, a: LoadAnswer) -> (FileLoadText, LoadQueryText) {
    let o = w.options;
    match w.waiting {
        LoadWaiting::Begin => if o.resolve_to_context {
            (load_waiting(w, LoadWaiting::Context), LoadQueryText::Metadata(w.path))
        } else if !ends_with(w.specifier, "/"@) {
            load_file(w)
        } else {
            load_directory(w)
        },
        LoadWaiting::Context => match a {
            LoadAnswer::Metadata(Some(m)) => if m.is_dir {
                load_done(w, Some(w.path))
            } else {
                load_done(w, None)
            },
            _ => load_done(w, None),
        },
        LoadWaiting::Candidate { round } => match a {
            LoadAnswer::Metadata(Some(m)) => if m.is_file && allowed(o, w.candidates[w.index]) {
                if o.function_restrictions {
                    (
                        load_waiting(w, LoadWaiting::Restriction { round }),
                        LoadQueryText::CheckRestrictions(w.candidates[w.index]),
                    )
                } else {
                    load_done(w, Some(w.candidates[w.index]))
                }
            } else {
                load_try(w, w.candidates, w.index + 1, round)
            },
            _ => load_try(w, w.candidates, w.index + 1, round),
        },
        LoadWaiting::Directory => match a {
            LoadAnswer::Metadata(Some(m)) => if !m.is_dir {
                load_done(w, None)
            } else if o.description_files {
                (load_waiting(w, LoadWaiting::PackageJson), LoadQueryText::ReadPackageJson(w.path))
            } else {
                next_main(FileLoadText { mains: Seq::empty(), ..w }, 0)
            },
            _ => load_done(w, None),
        },
        LoadWaiting::PackageJson => match a {
            LoadAnswer::PackageJson(v) => next_main(FileLoadText { mains: package_mains(o, v), ..w }, 0),
            _ => next_main(FileLoadText { mains: Seq::empty(), ..w }, 0),
        },
        LoadWaiting::Restriction { round } => match a {
            LoadAnswer::Allowed(true) => load_done(w, Some(w.candidates[w.index])),
            _ => load_try(w, w.candidates, w.index + 1, round),
        },
        LoadWaiting::AliasCandidate { main } => match a {
            LoadAnswer::Metadata(Some(m)) => if m.is_file && allowed(o, w.candidates[w.index]) {
                if o.function_restrictions {
                    (
                        load_waiting(w, LoadWaiting::AliasRestriction { main }),
                        LoadQueryText::CheckRestrictions(w.candidates[w.index]),
                    )
                } else {
                    load_done(with_fully_specified(w, false), Some(w.candidates[w.index]))
                }
            } else {
                alias_try(w, w.index + 1, main)
            },
            _ => alias_try(w, w.index + 1, main),
        },
        LoadWaiting::AliasRestriction { main } => match a {
            LoadAnswer::Allowed(true) => load_done(with_fully_specified(w, false), Some(w.candidates[w.index])),
            _ => alias_try(w, w.index + 1, main),
        },
        LoadWaiting::AliasFile { main } => match a {
            LoadAnswer::Metadata(Some(m)) => if m.is_file && allowed(o, w.file) {
                if o.function_restrictions {
                    (load_waiting(w, LoadWaiting::AliasFileRestriction { main }), LoadQueryText::CheckRestrictions(w.file))
                } else {
                    alias_hit(w, main)
                }
            } else {
                alias_passed(w, main)
            },
            _ => alias_passed(w, main),
        },
        LoadWaiting::AliasFileRestriction { main } => match a {
            LoadAnswer::Allowed(true) => alias_hit(w, main),
            _ => alias_passed(w, main),
        },
        LoadWaiting::Finished => (w, LoadQueryText::Done(None)),
    }
}

/// A copy of a list of strings.
pub(crate) fn copy_strings(v: &Vec<String>) -> (r: Vec<String>)
    ensures
        texts(r@) == texts(v@),
{
    let mut out: Vec<String> = Vec::new();
    let mut i: usize = 0;
    while i < v.len()
        invariant
            i <= v@.len(),
            texts(out@) == texts(v@).take(i as int),
        decreases v@.len() - i,
    {
        let ghost before = out@;
        out.push(v[i].clone());
        proof {
            assert(texts(out@) =~= texts(before).push(v@[i as int]@));
            assert(texts(v@).take(i as int + 1) =~= texts(v@).take(i as int).push(v@[i as int]@));
        }
        i = i + 1;
    }
    proof {
        assert(texts(v@).take(v@.len() as int) =~= texts(v@));
    }
    out
}

/// A copy of a list of extension aliases.
pub(crate) fn copy_ext_aliases(v: &Vec<(String, Vec<String>)>) -> (r: Vec<(String, Vec<String>)>)
    ensures
        ext_aliases_text(r@) == ext_aliases_text(v@),
{
    let mut out: Vec<(String, Vec<String>)> = Vec::new();
    let mut i: usize = 0;
    while i < v.len()
        invariant
            i <= v@.len(),
            ext_aliases_text(out@) == ext_aliases_text(v@).take(i as int),
        decreases v@.len() - i,
    {
        let ghost before = out@;
        let key = v[i].0.clone();
        let exts = copy_strings(&v[i].1);
        out.push((key, exts));
        proof {
            assert(ext_aliases_text(out@) =~= ext_aliases_text(before).push((v@[i as int].0@, texts(v@[i as int].1@))));
            assert(ext_aliases_text(v@).take(i as int + 1) =~= ext_aliases_text(v@).take(i as int).push(
                (v@[i as int].0@, texts(v@[i as int].1@)),
            ));
        }
        i = i + 1;
    }
    proof {
        assert(ext_aliases_text(v@).take(v@.len() as int) =~= ext_aliases_text(v@));
    }
    out
}

/// Appends `more` to `out`.
fn push_all(out: &mut Vec<String>, more: Vec<String>)
    ensures
        texts(final(out)@) == texts(old(out)@) + texts(more@),
{
    let ghost before = out@;
    let ghost added = more@;
    let mut more = more;
    out.append(&mut more);
    proof {
        assert(texts(out@) =~= texts(before) + texts(added));
    }
}

/// The files tried for `p` (see [`file_candidates`]).
fn file_candidates_of(o: &LoadOptions, p: &str) -> (r: Vec<String>)
    ensures
        texts(r@) == file_candidates(o@, p@),
{
    let mut out: Vec<String> = Vec::new();
    if !o.enforce_extension {
        out.push(p.to_owned());
    }
    let exts = extension_candidates(p, &o.extensions, o.fully_specified);
    proof {
        if o.fully_specified {
            assert(texts(exts@) =~= Seq::<Seq<char>>::empty());
        }
    }
    push_all(&mut out, exts);
    proof {
        if o.enforce_extension {
            assert(texts(out@) =~= file_candidates(o@, p@));
        } else {
            assert(texts(out@) =~= file_candidates(o@, p@));
        }
    }
    out
}

/// The files tried for the index files of `dir` (see [`index_candidates`]).
fn index_candidates_of(o: &LoadOptions, dir: &str) -> (r: Vec<String>)
    ensures
        texts(r@) == index_candidates(o@, dir@),
{
    let mut out: Vec<String> = Vec::new();
    let mut i: usize = 0;
    while i < o.main_files.len()
        invariant
            i <= o.main_files@.len(),
            texts(out@) == index_candidates_upto(o@, dir@, i as int),
        decreases o.main_files@.len() - i,
    {
        let mp = normalize_with(dir, o.main_files[i].as_str());
        let c = file_candidates_of(o, mp.as_str());
        push_all(&mut out, c);
        proof {
            assert(o@.main_files[i as int] == o.main_files@[i as int]@);
        }
        i = i + 1;
    }
    out
}

/// The main files `package_json` names (see [`package_mains`]).
fn package_mains_of(o: &LoadOptions, package_json: &Option<JsonValue>) -> (r: Vec<String>)
    ensures
        texts(r@) == package_mains(o@, *package_json),
{
    let mut out: Vec<String> = Vec::new();
    let entries = match package_json {
        Some(JsonValue::Object(entries)) => entries,
        _ => {
            proof {
                assert(texts(out@) =~= Seq::<Seq<char>>::empty());
            }
            return out;
        },
    };
    let mut i: usize = 0;
    proof {
        assert(texts(out@) =~= Seq::<Seq<char>>::empty());
    }
    while i < o.main_fields.len()
        invariant
            i <= o.main_fields@.len(),
            texts(out@) == main_values_upto(o@, entries@, i as int),
        decreases o.main_fields@.len() - i,
    {
        proof {
            assert(o@.main_fields[i as int] == o.main_fields@[i as int]@);
        }
        match object_get(entries, o.main_fields[i].as_str()) {
            Some(v) => match v.as_str() {
                Some(s) => {
                    let ghost before = out@;
                    out.push(s.to_owned());
                    proof {
                        assert(texts(out@) =~= texts(before).push(s@));
                    }
                },
                None => {},
            },
            None => {},
        }
        i = i + 1;
    }
    out
}

/// The files tried for the main file `m` (see [`main_file_candidates`]).
fn main_file_candidates_of(o: &LoadOptions, m: &str) -> (r: Vec<String>)
    ensures
        texts(r@) == main_file_candidates(o@, m@),
{
    let mut out = file_candidates_of(o, m);
    let index = index_candidates_of(o, m);
    push_all(&mut out, index);
    out
}

/// One load of a path as a file or directory.
pub struct FileLoad {
    options: LoadOptions,
    path: String,
    specifier: String,
    candidates: Vec<String>,
    index: usize,
    waiting: LoadWaiting,
    aliased: Vec<String>,
    file: String,
    mains: Vec<String>,
    main_index: usize,
}

impl View for FileLoad {
    type V = FileLoadText;

    closed spec fn view(&self) -> FileLoadText {
        FileLoadText {
            options: self.options@,
            path: self.path@,
            specifier: self.specifier@,
            candidates: texts(self.candidates@),
            index: self.index as int,
            waiting: self.waiting,
            aliased: texts(self.aliased@),
            file: self.file@,
            mains: texts(self.mains@),
            main_index: self.main_index as int,
        }
    }
}

/// The load is in a main file's round.
pub open spec fn in_main(waiting: LoadWaiting) -> bool {
    match waiting {
        LoadWaiting::Candidate { round } => round == Round::Main,
        LoadWaiting::Restriction { round } => round == Round::Main,
        LoadWaiting::AliasCandidate { main } => main,
        LoadWaiting::AliasRestriction { main } => main,
        LoadWaiting::AliasFile { main } => main,
        LoadWaiting::AliasFileRestriction { main } => main,
        _ => false,
    }
}

impl FileLoad {
    /// While the load waits on a candidate, there is one; while it tries
    /// aliased extensions, the file loaded has a name; while it loads a main
    /// file, there is one.
    pub closed spec fn wf(&self) -> bool {
        &&& self.waiting is Candidate || self.waiting is Restriction || self.waiting is AliasCandidate
            || self.waiting is AliasRestriction ==> self.index < self.candidates@.len()
        &&& self.waiting is AliasCandidate || self.waiting is AliasRestriction || self.waiting is AliasFile
            || self.waiting is AliasFileRestriction ==> file_name_of(self.file@) is Some
        &&& in_main(self.waiting) ==> self.main_index < self.mains@.len()
    }

    /// A load of `path`, which the request `specifier` stands for, not
    /// begun.
    pub fn new(options: LoadOptions, path: &str, specifier: &str) -> (w: Self)
        ensures
            w.wf(),
            w@ == (FileLoadText {
                options: options@,
                path: path@,
                specifier: specifier@,
                candidates: Seq::empty(),
                index: 0,
                waiting: LoadWaiting::Begin,
                aliased: Seq::empty(),
                file: path@,
                mains: Seq::empty(),
                main_index: 0,
            }),
    {
        let w = FileLoad {
            options,
            path: path.to_owned(),
            specifier: specifier.to_owned(),
            candidates: Vec::new(),
            index: 0,
            waiting: LoadWaiting::Begin,
            aliased: Vec::new(),
            file: path.to_owned(),
            mains: Vec::new(),
            main_index: 0,
        };
        proof {
            assert(texts(w.candidates@) =~= Seq::<Seq<char>>::empty());
            assert(texts(w.aliased@) =~= Seq::<Seq<char>>::empty());
            assert(texts(w.mains@) =~= Seq::<Seq<char>>::empty());
        }
        w
    }

    /// The path being loaded.
    pub fn path_text(&self) -> (r: String)
        ensures
            r@ == self@.path,
    {
        self.path.clone()
    }

    /// Whether the request is, at this point of the load, fully specified.
    pub fn fully_specified(&self) -> (r: bool)
        ensures
            r == self@.options.fully_specified,
    {
        self.options.fully_specified
    }

    /// Whether `answer` is what the load waits for (see [`load_expects`]).
    pub fn expects(&self, answer: &LoadAnswer) -> (r: bool)
        ensures
            r == load_expects(self@.waiting, *answer),
    {
        match (self.waiting, answer) {
            (LoadWaiting::Begin, LoadAnswer::Begin) => true,
            (LoadWaiting::PackageJson, LoadAnswer::PackageJson(_)) => true,
            (LoadWaiting::Restriction { .. }, LoadAnswer::Allowed(_)) => true,
            (LoadWaiting::AliasRestriction { .. }, LoadAnswer::Allowed(_)) => true,
            (LoadWaiting::AliasFileRestriction { .. }, LoadAnswer::Allowed(_)) => true,
            (LoadWaiting::Finished, _) => false,
            (LoadWaiting::Begin, _) => false,
            (LoadWaiting::PackageJson, _) => false,
            (LoadWaiting::Restriction { .. }, _) => false,
            (LoadWaiting::AliasRestriction { .. }, _) => false,
            (LoadWaiting::AliasFileRestriction { .. }, _) => false,
            (_, LoadAnswer::Metadata(_)) => true,
            _ => false,
        }
    }

    /// The load is over with `r` (see [`load_done`]).
    fn done(&mut self, r: Option<String>) -> (q: LoadQuery)
        ensures
            final(self).wf(),
            (final(self)@, q@) == load_done(
                old(self)@,
                match r {
                    Some(p) => Some(p@),
                    None => None,
                },
            ),
    {
        self.waiting = LoadWaiting::Finished;
        LoadQuery::Done(r)
    }

    /// Asks whether the path is a directory (see [`load_directory`]).
    fn directory(&mut self) -> (q: LoadQuery)
        ensures
            final(self).wf(),
            (final(self)@, q@) == load_directory(old(self)@),
    {
        self.waiting = LoadWaiting::Directory;
        LoadQuery::Metadata(self.path.clone())
    }

    /// Tries the directory's index files (see [`load_try`] in the index
    /// round).
    fn index_round(&mut self) -> (q: LoadQuery)
        ensures
            final(self).wf(),
            (final(self)@, q@) == load_try(old(self)@, index_candidates(old(self)@.options, old(self)@.path), 0, Round::Index),
    {
        let cands = index_candidates_of(&self.options, self.path.as_str());
        let n = cands.len();
        self.candidates = cands;
        self.index = 0;
        self.waiting = LoadWaiting::Candidate { round: Round::Index };
        if 0 < n {
            proof {
                assert(self@.candidates[0] == self.candidates@[0]@);
            }
            LoadQuery::Metadata(self.candidates[0].clone())
        } else {
            self.done(None)
        }
    }

    /// Loads the main files from the `start`-th on (see [`next_main`]).
    fn next_main(&mut self, start: usize) -> (q: LoadQuery)
        requires
            start <= old(self).mains@.len(),
        ensures
            final(self).wf(),
            (final(self)@, q@) == next_main(old(self)@, start as int),
    {
        let mut k = start;
        loop
            invariant
                k <= self.mains@.len(),
                next_main(self@, k as int) == next_main(old(self)@, start as int),
            decreases self.mains@.len() - k,
        {
            if k >= self.mains.len() {
                return self.index_round();
            }
            proof {
                assert(self@.mains[k as int] == self.mains@[k as int]@);
            }
            let request = main_field_request(self.mains[k].as_str());
            let m = normalize_with(self.path.as_str(), request.as_str());
            self.main_index = k;
            self.file = m.clone();
            let found = find_extension_alias(m.as_str(), &self.options.extension_alias);
            proof {
                if path_extension(m@) is Some {
                    lemma_aliased_from(self.options.extension_alias@, path_extension(m@).unwrap(), 0);
                }
            }
            match found {
                Some(j) => {
                    let exts = copy_strings(&self.options.extension_alias[j].1);
                    let cands = extension_alias_candidates(m.as_str(), &exts);
                    self.options.fully_specified = true;
                    self.candidates = cands;
                    self.aliased = exts;
                    return self.alias_try(0, true);
                },
                None => {},
            }
            let cands = main_file_candidates_of(&self.options, m.as_str());
            let n = cands.len();
            self.candidates = cands;
            self.index = 0;
            self.waiting = LoadWaiting::Candidate { round: Round::Main };
            if 0 < n {
                proof {
                    assert(self@.candidates[0] == self.candidates@[0]@);
                }
                return LoadQuery::Metadata(self.candidates[0].clone());
            }
            k = k + 1;
        }
    }

    /// Tries `cands` of `round` from the `i`-th on (see [`load_try`]).
    fn try_from(&mut self, cands: Vec<String>, i: usize, round: Round) -> (q: LoadQuery)
        requires
            round == Round::Main ==> old(self).main_index < old(self).mains@.len(),
        ensures
            final(self).wf(),
            (final(self)@, q@) == load_try(old(self)@, texts(cands@), i as int, round),
    {
        let n = cands.len();
        self.candidates = cands;
        self.index = i;
        self.waiting = LoadWaiting::Candidate { round };
        if i < n {
            proof {
                assert(self@.candidates[i as int] == self.candidates@[i as int]@);
            }
            LoadQuery::Metadata(self.candidates[i].clone())
        } else {
            match round {
                Round::Path => self.directory(),
                Round::Main => {
                    proof {
                        assert(self.mains.len() == self.mains@.len());
                    }
                    let k = self.main_index + 1;
                    self.next_main(k)
                },
                Round::Index => self.done(None),
            }
        }
    }

    /// Whether `p` lies inside every folder restriction (see [`allowed`]).
    fn inside(&self, p: &str) -> (r: bool)
        ensures
            r == allowed(self@.options, p@),
    {
        let r = check_restrictions(p, &self.options.restrictions);
        proof {
            let o = self@.options;
            let rs = self.options.restrictions@;
            if r {
                assert forall|k: int| 0 <= k < o.restrictions.len() implies restriction_holds(
                    #[trigger] o.restrictions[k],
                    p@,
                ) by {
                    assert(o.restrictions[k] == rs[k]@);
                }
            } else {
                let k = choose|k: int| 0 <= k < rs.len() && !restriction_holds(#[trigger] rs[k]@, p@);
                assert(o.restrictions[k] == rs[k]@);
            }
        }
        r
    }

    /// Tries the files for the aliased extensions from the `i`-th on (see
    /// [`alias_try`]).
    fn alias_try(&mut self, i: usize, main: bool) -> (q: LoadQuery)
        requires
            file_name_of(old(self)@.file) is Some,
            main ==> old(self).main_index < old(self).mains@.len(),
        ensures
            final(self).wf(),
            (final(self)@, q@) == alias_try(old(self)@, i as int, main),
    {
        self.index = i;
        if i < self.candidates.len() {
            self.waiting = LoadWaiting::AliasCandidate { main };
            proof {
                assert(self@.candidates[i as int] == self.candidates@[i as int]@);
            }
            LoadQuery::Metadata(self.candidates[i].clone())
        } else {
            self.waiting = LoadWaiting::AliasFile { main };
            LoadQuery::Metadata(self.file.clone())
        }
    }

    /// Loads the path as a file (see [`load_file`]).
    fn load_file(&mut self) -> (q: LoadQuery)
        ensures
            final(self).wf(),
            (final(self)@, q@) == load_file(old(self)@),
    {
        self.file = self.path.clone();
        let found = find_extension_alias(self.path.as_str(), &self.options.extension_alias);
        proof {
            if path_extension(self.path@) is Some {
                lemma_aliased_from(self.options.extension_alias@, path_extension(self.path@).unwrap(), 0);
            }
        }
        match found {
            Some(k) => {
                let exts = copy_strings(&self.options.extension_alias[k].1);
                let cands = extension_alias_candidates(self.path.as_str(), &exts);
                self.options.fully_specified = true;
                self.candidates = cands;
                self.aliased = exts;
                self.alias_try(0, false)
            },
            None => {
                let cands = file_candidates_of(&self.options, self.path.as_str());
                self.try_from(cands, 0, Round::Path)
            },
        }
    }

    /// Goes on with the file's own candidates (see [`alias_passed`]).
    fn alias_passed(&mut self, main: bool) -> (q: LoadQuery)
        requires
            main ==> old(self).main_index < old(self).mains@.len(),
        ensures
            final(self).wf(),
            (final(self)@, q@) == alias_passed(old(self)@, main),
    {
        self.options.fully_specified = false;
        if main {
            let cands = main_file_candidates_of(&self.options, self.file.as_str());
            self.try_from(cands, 0, Round::Main)
        } else {
            let cands = file_candidates_of(&self.options, self.file.as_str());
            self.try_from(cands, 0, Round::Path)
        }
    }

    /// The file loaded is itself a file (see [`alias_hit`]).
    fn alias_hit(&mut self, main: bool) -> (q: LoadQuery)
        requires
            file_name_of(old(self)@.file) is Some,
            main ==> old(self).main_index < old(self).mains@.len(),
        ensures
            final(self).wf(),
            (final(self)@, q@) == alias_hit(old(self)@, main),
    {
        if main {
            let cands = index_candidates_of(&self.options, self.file.as_str());
            self.try_from(cands, 0, Round::Main)
        } else {
            let e = extension_alias_error(self.file.as_str(), &self.aliased);
            self.waiting = LoadWaiting::Finished;
            LoadQuery::Failed(e)
        }
    }

    /// Ends having found the current file for an aliased extension.
    fn alias_found(&mut self) -> (q: LoadQuery)
        requires
            old(self).index < old(self).candidates@.len(),
        ensures
            final(self).wf(),
            (final(self)@, q@) == load_done(
                with_fully_specified(old(self)@, false),
                Some(old(self)@.candidates[old(self)@.index]),
            ),
    {
        proof {
            assert(self@.candidates[self.index as int] == self.candidates@[self.index as int]@);
        }
        self.options.fully_specified = false;
        let p = self.candidates[self.index].clone();
        self.done(Some(p))
    }

    /// Tells the load `answer` and returns its next question (see
    /// [`load_next`]).
    pub fn next(&mut self, answer: LoadAnswer) -> (q: LoadQuery)
        requires
            old(self).wf(),
            load_expects(old(self)@.waiting, answer),
        ensures
            final(self).wf(),
            (final(self)@, q@) == load_next(old(self)@, answer),
    {
        match self.waiting {
            LoadWaiting::Begin => {
                if self.options.resolve_to_context {
                    self.waiting = LoadWaiting::Context;
                    LoadQuery::Metadata(self.path.clone())
                } else {
                    let sc = chars_of(self.specifier.as_str());
                    let slash = sc.len() > 0 && sc[sc.len() - 1] == '/';
                    proof {
                        reveal_strlit("/");
                        let s = self.specifier@;
                        if s.len() > 0 && s.last() == '/' {
                            assert(s.skip(s.len() - 1) =~= "/"@);
                        }
                        if ends_with(s, "/"@) {
                            assert(s.skip(s.len() - 1)[0] == s.last());
                        }
                    }
                    if !slash {
                        self.load_file()
                    } else {
                        self.directory()
                    }
                }
            },
            LoadWaiting::Context => {
                let found = match answer {
                    LoadAnswer::Metadata(Some(m)) => m.is_dir,
                    _ => false,
                };
                if found {
                    let p = self.path.clone();
                    self.done(Some(p))
                } else {
                    self.done(None)
                }
            },
            LoadWaiting::Candidate { round } => {
                let is_file = match answer {
                    LoadAnswer::Metadata(Some(m)) => m.is_file,
                    _ => false,
                };
                let i = self.index;
                proof {
                    assert(self.candidates.len() == self.candidates@.len());
                    assert(self@.candidates[i as int] == self.candidates@[i as int]@);
                }
                if is_file && self.inside(self.candidates[i].as_str()) {
                    if self.options.function_restrictions {
                        self.waiting = LoadWaiting::Restriction { round };
                        LoadQuery::CheckRestrictions(self.candidates[i].clone())
                    } else {
                        let p = self.candidates[i].clone();
                        self.done(Some(p))
                    }
                } else {
                    let mut cands: Vec<String> = Vec::new();
                    std::mem::swap(&mut cands, &mut self.candidates);
                    self.try_from(cands, i + 1, round)
                }
            },
            LoadWaiting::Directory => {
                match answer {
                    LoadAnswer::Metadata(Some(m)) => {
                        if !m.is_dir {
                            self.done(None)
                        } else if self.options.description_files {
                            self.waiting = LoadWaiting::PackageJson;
                            LoadQuery::ReadPackageJson(self.path.clone())
                        } else {
                            self.mains = Vec::new();
                            proof {
                                assert(texts(self.mains@) =~= Seq::<Seq<char>>::empty());
                            }
                            self.next_main(0)
                        }
                    },
                    _ => self.done(None),
                }
            },
            LoadWaiting::PackageJson => {
                let v = match answer {
                    LoadAnswer::PackageJson(v) => v,
                    _ => None,
                };
                self.mains = package_mains_of(&self.options, &v);
                self.next_main(0)
            },
            LoadWaiting::Restriction { round } => {
                let i = self.index;
                proof {
                    assert(self.candidates.len() == self.candidates@.len());
                    assert(self@.candidates[i as int] == self.candidates@[i as int]@);
                }
                let ok = match answer {
                    LoadAnswer::Allowed(b) => b,
                    _ => false,
                };
                if ok {
                    let p = self.candidates[i].clone();
                    self.done(Some(p))
                } else {
                    let mut cands: Vec<String> = Vec::new();
                    std::mem::swap(&mut cands, &mut self.candidates);
                    self.try_from(cands, i + 1, round)
                }
            },
            LoadWaiting::AliasCandidate { main } => {
                let is_file = match answer {
                    LoadAnswer::Metadata(Some(m)) => m.is_file,
                    _ => false,
                };
                let i = self.index;
                proof {
                    assert(self.candidates.len() == self.candidates@.len());
                    assert(self@.candidates[i as int] == self.candidates@[i as int]@);
                }
                if is_file && self.inside(self.candidates[i].as_str()) {
                    if self.options.function_restrictions {
                        self.waiting = LoadWaiting::AliasRestriction { main };
                        LoadQuery::CheckRestrictions(self.candidates[i].clone())
                    } else {
                        self.alias_found()
                    }
                } else {
                    self.alias_try(i + 1, main)
                }
            },
            LoadWaiting::AliasRestriction { main } => {
                let ok = match answer {
                    LoadAnswer::Allowed(b) => b,
                    _ => false,
                };
                if ok {
                    self.alias_found()
                } else {
                    let i = self.index;
                    proof {
                        assert(self.candidates.len() == self.candidates@.len());
                    }
                    self.alias_try(i + 1, main)
                }
            },
            LoadWaiting::AliasFile { main } => {
                let is_file = match answer {
                    LoadAnswer::Metadata(Some(m)) => m.is_file,
                    _ => false,
                };
                if is_file && self.inside(self.file.as_str()) {
                    if self.options.function_restrictions {
                        self.waiting = LoadWaiting::AliasFileRestriction { main };
                        LoadQuery::CheckRestrictions(self.file.clone())
                    } else {
                        self.alias_hit(main)
                    }
                } else {
                    self.alias_passed(main)
                }
            },
            LoadWaiting::AliasFileRestriction { main } => {
                let ok = match answer {
                    LoadAnswer::Allowed(b) => b,
                    _ => false,
                };
                if ok {
                    self.alias_hit(main)
                } else {
                    self.alias_passed(main)
                }
            },
            LoadWaiting::Finished => self.done(None),
        }
    }
}

} // verus!
