//! `tsconfig.json`: reading its `extends`, `compilerOptions` and
//! `references`, merging an extended config, and mapping a specifier
//! through `compilerOptions.paths` and `baseUrl`.
use vstd::prelude::*;

use std::hash::BuildHasherDefault;
use std::sync::Arc;

use indexmap::IndexMap;
use rustc_hash::FxHasher;

use crate::error::{ErrorView, JsonParseError, ResolveError};
use crate::exports::{replace_star, texts};
use crate::json::{obj_get, object_get, JsonValue};
use crate::path::{join_onto, join_path, normalize_with, normalized_join, parent_of, parent_path, path_starts_with, starts_with_path};
use crate::pattern::{index_of, lemma_index_of_from, star_index, utf8_len};
use crate::text::{chars_end_with, chars_of, chars_start_with, ends_with, starts_with, string_of, sub_chars, substring};

verus! {

#[verifier::external_type_specification]
#[verifier::external_body]
#[verifier::reject_recursive_types(K)]
#[verifier::reject_recursive_types(V)]
#[verifier::reject_recursive_types(S)]
pub struct ExIndexMap<K, V, S>(IndexMap<K, V, S>);

#[verifier::external_type_specification]
#[verifier::external_body]
#[verifier::reject_recursive_types(H)]
pub struct ExBuildHasherDefault<H>(BuildHasherDefault<H>);

#[verifier::external_type_specification]
#[verifier::external_body]
pub struct ExFxHasher(FxHasher);

/// `compilerOptions.paths`: each alias pattern with its targets, in the
/// order the document gives them.
pub type CompilerOptionsPathsMap = IndexMap<String, Vec<String>, BuildHasherDefault<FxHasher>>;

/// The entries of a paths map, in order: each key with its targets.
pub uninterp spec fn paths_entries(m: IndexMap<String, Vec<String>, BuildHasherDefault<FxHasher>>) -> Seq<(Seq<char>, Seq<Seq<char>>)>;

/// The targets of the first entry with `key`.
pub open spec fn entries_get(entries: Seq<(Seq<char>, Seq<Seq<char>>)>, key: Seq<char>) -> Option<Seq<Seq<char>>>
    decreases entries.len(),
{
    if entries.len() == 0 {
        None
    } else if entries[0].0 == key {
        Some(entries[0].1)
    } else {
        entries_get(entries.drop_first(), key)
    }
}

/// The entries after inserting `key` with `value`: an entry with this key
/// keeps its place and takes the new value; otherwise the pair goes last.
pub open spec fn entries_insert(
    entries: Seq<(Seq<char>, Seq<Seq<char>>)>,
    key: Seq<char>,
    value: Seq<Seq<char>>,
) -> Seq<(Seq<char>, Seq<Seq<char>>)>
    decreases entries.len(),
{
    if entries.len() == 0 {
        seq![(key, value)]
    } else if entries[0].0 == key {
        entries.update(0, (key, value))
    } else {
        seq![entries[0]] + entries_insert(entries.drop_first(), key, value)
    }
}

/// An empty paths map.
///
/// Calls `IndexMap::default`, which makes a map with no entries.
#[verifier::external_body]
fn paths_map_new() -> (m: CompilerOptionsPathsMap)
    ensures
        paths_entries(m) == Seq::<(Seq<char>, Seq<Seq<char>>)>::empty(),
{
    IndexMap::default()
}

/// Puts `value` under `key`.
///
/// Calls `IndexMap::insert`, which the crate documents as updating the value
/// of an existing equal key in its place, or else appending the pair last.
#[verifier::external_body]
fn paths_map_insert(m: &mut CompilerOptionsPathsMap, key: String, value: Vec<String>)
    ensures
        paths_entries(*final(m)) == entries_insert(paths_entries(*old(m)), key@, texts(value@)),
{
    m.insert(key, value);
}

/// The targets under `key`.
///
/// Calls `IndexMap::get`, which gives the value stored for an equal key.
#[verifier::external_body]
fn paths_map_get<'a>(m: &'a CompilerOptionsPathsMap, key: &str) -> (r: Option<&'a Vec<String>>)
    ensures
        match r {
            Some(v) => entries_get(paths_entries(*m), key@) == Some(texts(v@)),
            None => entries_get(paths_entries(*m), key@).is_none(),
        },
{
    m.get(key)
}

/// The number of entries.
///
/// Calls `IndexMap::len`, the number of key-value pairs.
#[verifier::external_body]
fn paths_map_len(m: &CompilerOptionsPathsMap) -> (r: usize)
    ensures
        r == paths_entries(*m).len(),
{
    m.len()
}

/// The `i`-th entry.
///
/// Calls `IndexMap::get_index`, which gives the pair at that position of the
/// order.
#[verifier::external_body]
fn paths_map_get_index<'a>(m: &'a CompilerOptionsPathsMap, i: usize) -> (r: Option<(&'a String, &'a Vec<String>)>)
    ensures
        i < paths_entries(*m).len() ==> r is Some && r.unwrap().0@ == paths_entries(*m)[i as int].0 && texts(
            r.unwrap().1@,
        ) == paths_entries(*m)[i as int].1,
        i >= paths_entries(*m).len() ==> r is None,
{
    m.get_index(i)
}

/// The map with the targets of its `i`-th entry replaced by `value`.
///
/// Calls `IndexMap::get_index_mut`, which gives the pair at that position,
/// and stores `value` there.
#[verifier::external_body]
fn paths_map_set_index(m: &mut CompilerOptionsPathsMap, i: usize, value: Vec<String>)
    requires
        i < paths_entries(*old(m)).len(),
    ensures
        paths_entries(*final(m)) == paths_entries(*old(m)).update(
            i as int,
            (paths_entries(*old(m))[i as int].0, texts(value@)),
        ),
{
    if let Some((_, v)) = m.get_index_mut(i) {
        *v = value;
    }
}

/// A copy of the map.
///
/// Calls `IndexMap::clone`, which copies every pair in order.
#[verifier::external_body]
fn paths_map_clone(m: &CompilerOptionsPathsMap) -> (r: CompilerOptionsPathsMap)
    ensures
        paths_entries(r) == paths_entries(*m),
{
    m.clone()
}

/// What `tsconfig.json` extends: one config or several.
#[derive(Debug, Clone, PartialEq, Eq)]
pub enum ExtendsField {
    Single(String),
    Multiple(Vec<String>),
}

/// The `compilerOptions` the resolver reads.
#[derive(Debug)]
pub struct CompilerOptions {
    base_url: Option<String>,
    /// Path aliases.
    paths: Option<CompilerOptionsPathsMap>,
    /// The folder path aliases resolve from.
    paths_base: String,
}

/// A project reference: the path of another config, and that config once
/// loaded.
#[derive(Debug)]
pub struct ProjectReference {
    pub path: String,
    pub tsconfig: Option<Arc<TsConfig>>,
}

/// A `tsconfig.json`.
#[derive(Debug)]
pub struct TsConfig {
    /// Whether this is the config the resolution starts from, whose template
    /// variables are substituted once everything is merged.
    root: bool,
    /// The path of the file itself.
    pub path: String,
    pub extends: Option<ExtendsField>,
    pub compiler_options: CompilerOptions,
    /// The project references, each with its config once loaded.
    pub references: Vec<ProjectReference>,
}

/// The texts of what a config extends.
pub enum ExtendsText {
    Single(Seq<char>),
    Multiple(Seq<Seq<char>>),
}

impl View for ExtendsField {
    type V = ExtendsText;

    open spec fn view(&self) -> ExtendsText {
        match self {
            ExtendsField::Single(s) => ExtendsText::Single(s@),
            ExtendsField::Multiple(v) => ExtendsText::Multiple(texts(v@)),
        }
    }
}

/// The paths entries of an optional map.
pub open spec fn opt_entries(m: Option<CompilerOptionsPathsMap>) -> Option<Seq<(Seq<char>, Seq<Seq<char>>)>> {
    match m {
        Some(m) => Some(paths_entries(m)),
        None => None,
    }
}

/// The text an optional string holds.
pub open spec fn opt_string(s: Option<String>) -> Option<Seq<char>> {
    match s {
        Some(t) => Some(t@),
        None => None,
    }
}

/// What a config holds, as texts: whether it is the root config, its path,
/// what it extends, its `baseUrl`, its path aliases, the folder the aliases
/// resolve from, and the paths of its references.
pub struct TsText {
    pub root: bool,
    pub path: Seq<char>,
    pub extends: Option<ExtendsText>,
    pub base_url: Option<Seq<char>>,
    pub paths: Option<Seq<(Seq<char>, Seq<Seq<char>>)>>,
    pub paths_base: Seq<char>,
    pub references: Seq<Seq<char>>,
}

/// The paths of a list of references.
pub open spec fn reference_paths(refs: Seq<ProjectReference>) -> Seq<Seq<char>> {
    refs.map_values(|r: ProjectReference| r.path@)
}

impl CompilerOptions {
    pub closed spec fn spec_base_url(&self) -> Option<Seq<char>> {
        opt_string(self.base_url)
    }

    pub closed spec fn spec_paths(&self) -> Option<Seq<(Seq<char>, Seq<Seq<char>>)>> {
        opt_entries(self.paths)
    }

    pub closed spec fn spec_paths_base(&self) -> Seq<char> {
        self.paths_base@
    }
}

impl TsConfig {
    pub closed spec fn is_root(&self) -> bool {
        self.root
    }

    pub closed spec fn spec_references(&self) -> Seq<ProjectReference> {
        self.references@
    }

    /// The config as texts.
    pub closed spec fn text(&self) -> TsText {
        TsText {
            root: self.is_root(),
            path: self.path@,
            extends: match self.extends {
                Some(e) => Some(e@),
                None => None,
            },
            base_url: self.compiler_options.spec_base_url(),
            paths: self.compiler_options.spec_paths(),
            paths_base: self.compiler_options.spec_paths_base(),
            references: reference_paths(self.references@),
        }
    }
}

/// Every item is a string.
pub open spec fn all_strings(items: Seq<JsonValue>) -> bool {
    forall|i: int| 0 <= i < items.len() ==> #[trigger] items[i] is String
}

/// The texts of string items.
pub open spec fn string_items(items: Seq<JsonValue>) -> Seq<Seq<char>> {
    items.map_values(|v: JsonValue| v->String_0@)
}

/// What `extends` reads as: nothing for `null`, one config for a string,
/// several for an array of strings; anything else is an error, with its
/// message.
pub open spec fn extends_outcome(value: JsonValue) -> Result<Option<ExtendsText>, Seq<char>> {
    match value {
        JsonValue::Null => Ok(None),
        JsonValue::String(s) => Ok(Some(ExtendsText::Single(s@))),
        JsonValue::Array(items) => if all_strings(items@) {
            Ok(Some(ExtendsText::Multiple(string_items(items@))))
        } else {
            Err("tsconfig extends array entries must be strings"@)
        },
        _ => Err("tsconfig extends must be a string or an array of strings"@),
    }
}

/// The strings of `items`, if every one is a string.
fn strings_of(items: &Vec<JsonValue>) -> (r: Option<Vec<String>>)
    ensures
        match r {
            Some(v) => all_strings(items@) && texts(v@) == string_items(items@),
            None => !all_strings(items@),
        },
{
    let mut out: Vec<String> = Vec::new();
    let mut i: usize = 0;
    while i < items.len()
        invariant
            i <= items@.len(),
            all_strings(items@.take(i as int)),
            texts(out@) == string_items(items@.take(i as int)),
        decreases items@.len() - i,
    {
        match &items[i] {
            JsonValue::String(s) => {
                let ghost before = out@;
                out.push(s.clone());
                proof {
                    assert(items@.take(i as int + 1) =~= items@.take(i as int).push(items@[i as int]));
                    assert(texts(out@) =~= texts(before).push(s@));
                    assert(string_items(items@.take(i as int + 1)) =~= string_items(items@.take(i as int)).push(s@));
                }
            },
            _ => {
                assert(!(items@[i as int] is String));
                return None;
            },
        }
        i = i + 1;
    }
    assert(items@.take(items@.len() as int) =~= items@);
    Some(out)
}

impl TsConfig {
    /// Reads `extends` (see [`extends_outcome`]).
    pub fn parse_extends(value: &JsonValue) -> (r: Result<Option<ExtendsField>, JsonParseError>)
        ensures
            match r {
                Ok(Some(e)) => extends_outcome(*value) == Ok::<Option<ExtendsText>, Seq<char>>(Some(e@)),
                Ok(None) => extends_outcome(*value) == Ok::<Option<ExtendsText>, Seq<char>>(None),
                Err(e) => extends_outcome(*value) == Err::<Option<ExtendsText>, Seq<char>>(e.message@),
            },
    {
        if value.is_null() {
            return Ok(None);
        }
        if let Some(string) = value.as_str() {
            return Ok(Some(ExtendsField::Single(string.to_owned())));
        }
        if let Some(values) = value.as_array() {
            return match strings_of(values) {
                Some(extends) => Ok(Some(ExtendsField::Multiple(extends))),
                None => Err(JsonParseError::new("tsconfig extends array entries must be strings")),
            };
        }
        Err(JsonParseError::new("tsconfig extends must be a string or an array of strings"))
    }
}

/// The path aliases of the first `n` entries of `compilerOptions.paths`,
/// each alias with its targets, later entries of an alias replacing earlier
/// ones in place; an error at the first entry that is not an array of
/// strings.
pub open spec fn paths_from(entries: Seq<(String, JsonValue)>, n: int) -> Result<
    Seq<(Seq<char>, Seq<Seq<char>>)>,
    Seq<char>,
>
    decreases n,
{
    if n <= 0 {
        Ok(Seq::empty())
    } else {
        match paths_from(entries, n - 1) {
            Err(e) => Err(e),
            Ok(acc) => match entries[n - 1].1 {
                JsonValue::Array(items) => if all_strings(items@) {
                    Ok(entries_insert(acc, entries[n - 1].0@, string_items(items@)))
                } else {
                    Err("tsconfig compilerOptions.paths entries must be strings"@)
                },
                _ => Err("tsconfig compilerOptions.paths values must be arrays"@),
            },
        }
    }
}

/// What `compilerOptions` reads as: its `baseUrl` and its path aliases, or
/// an error with its message.
pub open spec fn compiler_options_outcome(value: JsonValue) -> Result<
    (Option<Seq<char>>, Option<Seq<(Seq<char>, Seq<Seq<char>>)>>),
    Seq<char>,
> {
    match value {
        JsonValue::Object(entries) => {
            let base_url = obj_get(entries@, "baseUrl"@);
            if base_url is Some && !(base_url.unwrap() is String) {
                Err("tsconfig compilerOptions.baseUrl must be a string"@)
            } else {
                let base = match base_url {
                    Some(JsonValue::String(s)) => Some(s@),
                    _ => None,
                };
                match obj_get(entries@, "paths"@) {
                    None => Ok((base, None)),
                    Some(JsonValue::Object(pe)) => match paths_from(pe@, pe@.len() as int) {
                        Ok(m) => Ok((base, Some(m))),
                        Err(e) => Err(e),
                    },
                    Some(_) => Err("tsconfig compilerOptions.paths must be an object"@),
                }
            }
        },
        _ => Err("tsconfig compilerOptions must be an object"@),
    }
}

/// The paths of the first `n` references; an error at the first that is not
/// an object with a string `path`.
pub open spec fn references_from(items: Seq<JsonValue>, n: int) -> Result<Seq<Seq<char>>, Seq<char>>
    decreases n,
{
    if n <= 0 {
        Ok(Seq::empty())
    } else {
        match references_from(items, n - 1) {
            Err(e) => Err(e),
            Ok(acc) => match items[n - 1] {
                JsonValue::Object(e) => match obj_get(e@, "path"@) {
                    None => Err("tsconfig references entries must contain a path"@),
                    Some(JsonValue::String(s)) => Ok(acc.push(s@)),
                    Some(_) => Err("tsconfig references path must be a string"@),
                },
                _ => Err("tsconfig references entries must be objects"@),
            },
        }
    }
}

/// What `references` reads as: the paths of the references, or an error
/// with its message.
pub open spec fn references_outcome(value: JsonValue) -> Result<Seq<Seq<char>>, Seq<char>> {
    match value {
        JsonValue::Array(items) => references_from(items@, items@.len() as int),
        _ => Err("tsconfig references must be an array"@),
    }
}

/// What the root object of a `tsconfig.json` reads as, field by field in the
/// order `extends`, `compilerOptions`, `references`; the first field in error
/// decides the error.
pub open spec fn from_object_outcome(object: Seq<(String, JsonValue)>) -> Result<
    (Option<ExtendsText>, (Option<Seq<char>>, Option<Seq<(Seq<char>, Seq<Seq<char>>)>>), Seq<Seq<char>>),
    Seq<char>,
> {
    let extends = match obj_get(object, "extends"@) {
        None => Ok(None),
        Some(v) => extends_outcome(v),
    };
    match extends {
        Err(e) => Err(e),
        Ok(x) => {
            let options = match obj_get(object, "compilerOptions"@) {
                None => Ok((None, None)),
                Some(v) => compiler_options_outcome(v),
            };
            match options {
                Err(e) => Err(e),
                Ok(c) => {
                    let refs = match obj_get(object, "references"@) {
                        None => Ok(Seq::empty()),
                        Some(v) => references_outcome(v),
                    };
                    match refs {
                        Err(e) => Err(e),
                        Ok(rs) => Ok((x, c, rs)),
                    }
                },
            }
        },
    }
}

/// The template variable that stands for the folder of the root config.
pub const TEMPLATE_VARIABLE: &'static str = "${configDir}";

/// The first component of a relative path is the template variable, as
/// `Path::starts_with` tests it.
pub open spec fn starts_with_template_component(p: Seq<char>) -> bool {
    &&& !(p.len() > 0 && p[0] == '/')
    &&& match index_of(p, '/') {
        Some(i) => p.take(i) == "${configDir}"@,
        None => p == "${configDir}"@,
    }
}

/// What `tsconfig.json` at `path` reads as, given its root JSON value. A
/// `baseUrl` resolves against the config's folder unless it starts with the
/// template variable; path aliases resolve from `baseUrl`, or else from the
/// config's folder.
pub open spec fn parse_outcome(root: bool, path: Seq<char>, value: JsonValue) -> Result<TsText, Seq<char>> {
    match value {
        JsonValue::Object(object) => match from_object_outcome(object@) {
            Err(e) => Err(e),
            Ok((x, (base_url, paths), refs)) => {
                let dir = parent_path(path).unwrap();
                let base_url = match base_url {
                    Some(b) => if starts_with_template_component(b) {
                        Some(b)
                    } else {
                        Some(normalized_join(dir, b))
                    },
                    None => None,
                };
                let paths_base = if paths is Some {
                    match base_url {
                        Some(b) => b,
                        None => dir,
                    }
                } else {
                    Seq::empty()
                };
                Ok(
                    TsText {
                        root,
                        path,
                        extends: x,
                        base_url,
                        paths,
                        paths_base,
                        references: refs,
                    },
                )
            },
        },
        _ => Err("tsconfig root value must be a JSON object"@),
    }
}

proof fn lemma_paths_error_sticks(entries: Seq<(String, JsonValue)>, k: int, n: int)
    requires
        k <= n,
        paths_from(entries, k) is Err,
    ensures
        paths_from(entries, n) == paths_from(entries, k),
    decreases n - k,
{
    if k < n {
        lemma_paths_error_sticks(entries, k, n - 1);
    }
}

proof fn lemma_references_error_sticks(items: Seq<JsonValue>, k: int, n: int)
    requires
        k <= n,
        references_from(items, k) is Err,
    ensures
        references_from(items, n) == references_from(items, k),
    decreases n - k,
{
    if k < n {
        lemma_references_error_sticks(items, k, n - 1);
    }
}

impl TsConfig {
    /// Reads `compilerOptions` (see [`compiler_options_outcome`]).
    pub fn parse_compiler_options(value: &JsonValue) -> (r: Result<CompilerOptions, JsonParseError>)
        ensures
            match r {
                Ok(o) => compiler_options_outcome(*value) == Ok::<_, Seq<char>>((o.spec_base_url(), o.spec_paths()))
                    && o.spec_paths_base() == Seq::<char>::empty(),
                Err(e) => compiler_options_outcome(*value) == Err::<
                    (Option<Seq<char>>, Option<Seq<(Seq<char>, Seq<Seq<char>>)>>),
                    Seq<char>,
                >(e.message@),
            },
    {
        let object = match value.as_object() {
            Some(object) => object,
            None => return Err(JsonParseError::new("tsconfig compilerOptions must be an object")),
        };
        let mut options = CompilerOptions { base_url: None, paths: None, paths_base: String::new() };
        if let Some(base_url) = object_get(object, "baseUrl") {
            match base_url.as_str() {
                Some(b) => {
                    options.base_url = Some(b.to_owned());
                },
                None => return Err(JsonParseError::new("tsconfig compilerOptions.baseUrl must be a string")),
            }
        }
        if let Some(paths) = object_get(object, "paths") {
            let paths_object = match paths.as_object() {
                Some(p) => p,
                None => return Err(JsonParseError::new("tsconfig compilerOptions.paths must be an object")),
            };
            let mut map = paths_map_new();
            let ghost outcome = compiler_options_outcome(*value);
            let ghost base = opt_string(options.base_url);
            let mut i: usize = 0;
            while i < paths_object.len()
                invariant
                    i <= paths_object@.len(),
                    paths_from(paths_object@, i as int) == Ok::<_, Seq<char>>(paths_entries(map)),
                    outcome == compiler_options_outcome(*value),
                    base == opt_string(options.base_url),
                    outcome == match paths_from(paths_object@, paths_object@.len() as int) {
                        Ok(m) => Ok((base, Some(m))),
                        Err(e) => Err(e),
                    },
                decreases paths_object@.len() - i,
            {
                let array = match paths_object[i].1.as_array() {
                    Some(a) => a,
                    None => {
                        proof {
                            lemma_paths_error_sticks(paths_object@, i as int + 1, paths_object@.len() as int);
                        }
                        return Err(JsonParseError::new("tsconfig compilerOptions.paths values must be arrays"));
                    },
                };
                let targets = match strings_of(array) {
                    Some(t) => t,
                    None => {
                        proof {
                            lemma_paths_error_sticks(paths_object@, i as int + 1, paths_object@.len() as int);
                        }
                        return Err(JsonParseError::new("tsconfig compilerOptions.paths entries must be strings"));
                    },
                };
                paths_map_insert(&mut map, paths_object[i].0.clone(), targets);
                i = i + 1;
            }
            options.paths = Some(map);
        }
        Ok(options)
    }

    /// Reads `references` (see [`references_outcome`]); no reference has its
    /// config loaded yet.
    pub fn parse_references(value: &JsonValue) -> (r: Result<Vec<ProjectReference>, JsonParseError>)
        ensures
            match r {
                Ok(v) => references_outcome(*value) == Ok::<_, Seq<char>>(reference_paths(v@))
                    && forall|i: int| 0 <= i < v@.len() ==> (#[trigger] v@[i]).tsconfig is None,
                Err(e) => references_outcome(*value) == Err::<Seq<Seq<char>>, Seq<char>>(e.message@),
            },
    {
        let array = match value.as_array() {
            Some(a) => a,
            None => return Err(JsonParseError::new("tsconfig references must be an array")),
        };
        let mut references: Vec<ProjectReference> = Vec::new();
        assert(reference_paths(references@) =~= Seq::<Seq<char>>::empty());
        let mut i: usize = 0;
        while i < array.len()
            invariant
                i <= array@.len(),
                *value == JsonValue::Array(*array),
                references_from(array@, i as int) == Ok::<_, Seq<char>>(reference_paths(references@)),
                forall|j: int| 0 <= j < references@.len() ==> (#[trigger] references@[j]).tsconfig is None,
            decreases array@.len() - i,
        {
            let object = match array[i].as_object() {
                Some(o) => o,
                None => {
                    proof {
                        lemma_references_error_sticks(array@, i as int + 1, array@.len() as int);
                    }
                    return Err(JsonParseError::new("tsconfig references entries must be objects"));
                },
            };
            let path = match object_get(object, "path") {
                Some(p) => p,
                None => {
                    proof {
                        lemma_references_error_sticks(array@, i as int + 1, array@.len() as int);
                    }
                    return Err(JsonParseError::new("tsconfig references entries must contain a path"));
                },
            };
            let path = match path.as_str() {
                Some(p) => p,
                None => {
                    proof {
                        lemma_references_error_sticks(array@, i as int + 1, array@.len() as int);
                    }
                    return Err(JsonParseError::new("tsconfig references path must be a string"));
                },
            };
            let ghost before = references@;
            references.push(ProjectReference { path: path.to_owned(), tsconfig: None });
            proof {
                assert(reference_paths(references@) =~= reference_paths(before).push(path@));
            }
            i = i + 1;
        }
        Ok(references)
    }
}

/// What an optional `extends` field holds, as texts.
pub open spec fn opt_extends(e: Option<ExtendsField>) -> Option<ExtendsText> {
    match e {
        Some(e) => Some(e@),
        None => None,
    }
}

/// No reference has its config loaded.
pub open spec fn no_loaded_references(refs: Seq<ProjectReference>) -> bool {
    forall|i: int| 0 <= i < refs.len() ==> (#[trigger] refs[i]).tsconfig is None
}

impl TsConfig {
    /// Reads the root object of a `tsconfig.json` (see
    /// [`from_object_outcome`]) into a config that is not the root, with an
    /// empty path.
    fn from_object(object: &Vec<(String, JsonValue)>) -> (r: Result<TsConfig, JsonParseError>)
        ensures
            match r {
                Ok(t) => {
                    &&& from_object_outcome(object@) == Ok::<_, Seq<char>>(
                        (t.text().extends, (t.text().base_url, t.text().paths), t.text().references),
                    )
                    &&& !t.text().root
                    &&& t.text().path == Seq::<char>::empty()
                    &&& t.text().paths_base == Seq::<char>::empty()
                    &&& no_loaded_references(t.spec_references())
                },
                Err(e) => from_object_outcome(object@) == Err::<
                    (Option<ExtendsText>, (Option<Seq<char>>, Option<Seq<(Seq<char>, Seq<Seq<char>>)>>), Seq<Seq<char>>),
                    Seq<char>,
                >(e.message@),
            },
    {
        let mut extends: Option<ExtendsField> = None;
        if let Some(v) = object_get(object, "extends") {
            match TsConfig::parse_extends(v) {
                Ok(x) => {
                    extends = x;
                },
                Err(e) => return Err(e),
            }
        }
        let mut compiler_options = CompilerOptions { base_url: None, paths: None, paths_base: String::new() };
        if let Some(v) = object_get(object, "compilerOptions") {
            match TsConfig::parse_compiler_options(v) {
                Ok(o) => {
                    compiler_options = o;
                },
                Err(e) => return Err(e),
            }
        }
        let mut references: Vec<ProjectReference> = Vec::new();
        assert(reference_paths(references@) =~= Seq::<Seq<char>>::empty());
        if let Some(v) = object_get(object, "references") {
            match TsConfig::parse_references(v) {
                Ok(rs) => {
                    references = rs;
                },
                Err(e) => return Err(e),
            }
        }
        let r = TsConfig { root: false, path: String::new(), extends, compiler_options, references };
        proof {
            assert(opt_extends(r.extends) == r.text().extends);
        }
        Ok(r)
    }

    /// Reads a `tsconfig.json` at `path` from its root JSON value (see
    /// [`parse_outcome`]). No reference has its config loaded yet.
    pub fn parse(root: bool, path: &str, value: JsonValue) -> (r: Result<TsConfig, JsonParseError>)
        requires
            parse_outcome(root, path@, value) is Ok ==> parent_path(path@) is Some,
        ensures
            match r {
                Ok(t) => parse_outcome(root, path@, value) == Ok::<TsText, Seq<char>>(t.text()) && no_loaded_references(
                    t.spec_references(),
                ),
                Err(e) => parse_outcome(root, path@, value) == Err::<TsText, Seq<char>>(e.message@),
            },
    {
        let object = match &value {
            JsonValue::Object(object) => object,
            _ => return Err(JsonParseError::new("tsconfig root value must be a JSON object")),
        };
        let mut tsconfig = match TsConfig::from_object(object) {
            Ok(t) => t,
            Err(e) => return Err(e),
        };
        tsconfig.root = root;
        tsconfig.path = path.to_owned();
        let directory = parent_of(path).unwrap();
        if let Some(base_url) = &tsconfig.compiler_options.base_url {
            if !starts_with_template(base_url.as_str()) {
                tsconfig.compiler_options.base_url = Some(normalize_with(directory.as_str(), base_url.as_str()));
            }
        }
        if tsconfig.compiler_options.paths.is_some() {
            tsconfig.compiler_options.paths_base = match &tsconfig.compiler_options.base_url {
                Some(b) => b.clone(),
                None => directory,
            };
        }
        Ok(tsconfig)
    }
}

/// What a `tsconfig.json` whose text, comments stripped, was blank reads
/// as: a config with nothing in it.
pub open spec fn blank_outcome(root: bool, path: Seq<char>) -> Result<TsText, Seq<char>> {
    Ok(
        TsText {
            root,
            path,
            extends: None,
            base_url: None,
            paths: None,
            paths_base: Seq::empty(),
            references: Seq::empty(),
        },
    )
}

/// What a `tsconfig.json` reads as, given the JSON value of its text with
/// comments stripped, or nothing when that text was blank.
pub open spec fn text_outcome(root: bool, path: Seq<char>, value: Option<JsonValue>) -> Result<TsText, Seq<char>> {
    match value {
        Some(v) => parse_outcome(root, path, v),
        None => blank_outcome(root, path),
    }
}

impl TsConfig {
    /// Reads a `tsconfig.json` at `path` from the JSON value of its text,
    /// comments stripped (see [`TsConfig::strip_comments`]); `None` stands for
    /// a text that was blank, which reads as an empty object (see
    /// [`text_outcome`]). No reference has its config loaded yet.
    pub fn parse_text_value(root: bool, path: &str, value: Option<JsonValue>) -> (r: Result<TsConfig, JsonParseError>)
        requires
            text_outcome(root, path@, value) is Ok ==> parent_path(path@) is Some,
        ensures
            match r {
                Ok(t) => text_outcome(root, path@, value) == Ok::<TsText, Seq<char>>(t.text()) && no_loaded_references(
                    t.spec_references(),
                ),
                Err(e) => text_outcome(root, path@, value) == Err::<TsText, Seq<char>>(e.message@),
            },
    {
        match value {
            Some(v) => TsConfig::parse(root, path, v),
            None => {
                let empty: Vec<(String, JsonValue)> = Vec::new();
                let object = JsonValue::Object(empty);
                proof {
                    assert(empty@ =~= Seq::<(String, JsonValue)>::empty());
                    assert(obj_get(empty@, "extends"@) is None);
                    assert(obj_get(empty@, "compilerOptions"@) is None);
                    assert(obj_get(empty@, "references"@) is None);
                }
                TsConfig::parse(root, path, object)
            },
        }
    }
}

/// Whether the first component of `p` is the template variable (see
/// [`starts_with_template_component`]).
fn starts_with_template(p: &str) -> (r: bool)
    ensures
        r == starts_with_template_component(p@),
{
    let pc = chars_of(p);
    if pc.len() > 0 && pc[0] == '/' {
        return false;
    }
    let end = match crate::request::index_from(&pc, '/', 0) {
        Some(i) => i,
        None => pc.len(),
    };
    proof {
        lemma_index_of_from(p@, '/', 0);
        if end == pc@.len() {
            assert(pc@.take(end as int) =~= pc@);
        }
    }
    let first = substring(&pc, 0, end);
    assert(first@ =~= pc@.take(end as int));
    crate::text::str_eq(first.as_str(), TEMPLATE_VARIABLE)
}

/// `p` with a leading template variable replaced by the folder `dir`.
pub open spec fn substituted(dir: Seq<char>, p: Seq<char>) -> Seq<char> {
    if starts_with(p, "${configDir}"@) {
        let stripped = p.skip("${configDir}"@.len() as int);
        if starts_with(stripped, "/"@) {
            join_path(dir, stripped.skip(1))
        } else {
            join_path(dir, stripped)
        }
    } else {
        p
    }
}

/// The targets of every alias with the template variable substituted.
pub open spec fn substituted_paths(dir: Seq<char>, entries: Seq<(Seq<char>, Seq<Seq<char>>)>) -> Seq<
    (Seq<char>, Seq<Seq<char>>),
> {
    entries.map_values(
        |e: (Seq<char>, Seq<Seq<char>>)| (e.0, e.1.map_values(|p: Seq<char>| substituted(dir, p))),
    )
}

/// A root config with the template variable substituted, by the config's
/// folder `dir`, in its path aliases, in the folder they resolve from and
/// in `baseUrl`; any other config as it is.
pub open spec fn built(t: TsText, dir: Seq<char>) -> TsText {
    if t.root {
        TsText {
            root: t.root,
            path: t.path,
            extends: t.extends,
            base_url: match t.base_url {
                Some(b) => Some(substituted(dir, b)),
                None => None,
            },
            paths: match t.paths {
                Some(es) => Some(substituted_paths(dir, es)),
                None => None,
            },
            paths_base: substituted(dir, t.paths_base),
            references: t.references,
        }
    } else {
        t
    }
}

/// `p` with a leading template variable replaced by the folder `directory`
/// (see [`substituted`]).
fn substitute_template_variable(directory: &str, p: &String) -> (r: String)
    ensures
        r@ == substituted(directory@, p@),
{
    let pc = chars_of(p.as_str());
    let tv = chars_of(TEMPLATE_VARIABLE);
    if !chars_start_with(&pc, &tv) {
        return p.clone();
    }
    let n = tv.len();
    if n < pc.len() && pc[n] == '/' {
        let rest = substring(&pc, n + 1, pc.len());
        proof {
            assert(rest@ =~= pc@.skip(n as int).skip(1));
            assert(starts_with(pc@.skip(n as int), "/"@)) by {
                reveal_strlit("/");
                assert("/"@ =~= seq!['/']);
                assert(pc@.skip(n as int).take(1) =~= seq!['/']);
            }
        }
        join_onto(directory, rest.as_str())
    } else {
        let rest = substring(&pc, n, pc.len());
        proof {
            assert(rest@ =~= pc@.skip(n as int));
            assert(!starts_with(pc@.skip(n as int), "/"@)) by {
                reveal_strlit("/");
                if pc@.skip(n as int).len() >= 1 {
                    assert(pc@.skip(n as int).take(1)[0] == pc@[n as int]);
                }
            }
        }
        join_onto(directory, rest.as_str())
    }
}

/// The strings of `v`, copied.
fn copy_strings(v: &Vec<String>) -> (r: Vec<String>)
    ensures
        texts(r@) == texts(v@),
{
    let mut out: Vec<String> = Vec::new();
    let mut i: usize = 0;
    while i < v.len()
        invariant
            i <= v@.len(),
            texts(out@) == texts(v@.take(i as int)),
        decreases v@.len() - i,
    {
        let ghost before = out@;
        out.push(v[i].clone());
        proof {
            assert(texts(out@) =~= texts(before).push(v@[i as int]@));
            assert(texts(v@.take(i as int + 1)) =~= texts(v@.take(i as int)).push(v@[i as int]@));
        }
        i = i + 1;
    }
    assert(v@.take(v@.len() as int) =~= v@);
    out
}

impl TsConfig {
    /// The folder of the config file.
    pub fn directory(&self) -> (r: String)
        requires
            parent_path(self.text().path) is Some,
        ensures
            r@ == parent_path(self.text().path).unwrap(),
    {
        parent_of(self.path.as_str()).unwrap()
    }

    /// For the root config, substitutes the template variable (see
    /// [`built`]); any other config is left as it is.
    pub fn build(self) -> (r: TsConfig)
        requires
            self.text().root ==> parent_path(self.text().path) is Some,
        ensures
            r.text() == built(self.text(), parent_path(self.text().path).unwrap_or(Seq::empty())),
            r.spec_references() == self.spec_references(),
    {
        let mut t = self;
        if !t.root {
            return t;
        }
        let dir = t.directory();
        let ghost before = t.text();
        if t.compiler_options.paths.is_some() {
            let mut m = t.compiler_options.paths.take().unwrap();
            let ghost es = paths_entries(m);
            let n = paths_map_len(&m);
            let mut i: usize = 0;
            while i < n
                invariant
                    n == es.len(),
                    i <= n,
                    paths_entries(m).len() == n,
                    forall|j: int| 0 <= j < i ==> #[trigger] paths_entries(m)[j] == substituted_paths(dir@, es)[j],
                    forall|j: int| i <= j < n ==> #[trigger] paths_entries(m)[j] == es[j],
                decreases n - i,
            {
                let (_, targets) = paths_map_get_index(&m, i).unwrap();
                let mut replaced: Vec<String> = Vec::new();
                let mut k: usize = 0;
                while k < targets.len()
                    invariant
                        k <= targets@.len(),
                        texts(replaced@) == texts(targets@).take(k as int).map_values(|p: Seq<char>| substituted(dir@, p)),
                    decreases targets@.len() - k,
                {
                    let ghost before_r = replaced@;
                    replaced.push(substitute_template_variable(dir.as_str(), &targets[k]));
                    proof {
                        assert(texts(replaced@) =~= texts(before_r).push(substituted(dir@, targets@[k as int]@)));
                        assert(texts(targets@).take(k as int + 1).map_values(|p: Seq<char>| substituted(dir@, p)) =~= texts(
                            targets@,
                        ).take(k as int).map_values(|p: Seq<char>| substituted(dir@, p)).push(substituted(dir@, targets@[k as int]@)));
                    }
                    k = k + 1;
                }
                proof {
                    assert(texts(targets@).take(targets@.len() as int) =~= texts(targets@));
                }
                let ghost prev = paths_entries(m);
                paths_map_set_index(&mut m, i, replaced);
                proof {
                    assert(paths_entries(m)[i as int] == substituted_paths(dir@, es)[i as int]);
                }
                i = i + 1;
            }
            proof {
                assert(paths_entries(m) =~= substituted_paths(dir@, es));
            }
            t.compiler_options.paths = Some(m);
        }
        t.compiler_options.paths_base = substitute_template_variable(dir.as_str(), &t.compiler_options.paths_base);
        if let Some(b) = &t.compiler_options.base_url {
            t.compiler_options.base_url = Some(substitute_template_variable(dir.as_str(), b));
        }
        t
    }

    /// Takes from `other`, the config this one extends, what this one lacks:
    /// without path aliases, this one takes the aliases of `other`, which
    /// then resolve from this config's `baseUrl`, or else from where those of
    /// `other` do; without a `baseUrl`, this one takes that of `other`.
    pub fn extend_tsconfig(&mut self, other: &TsConfig)
        ensures
            final(self).text() == (TsText {
                paths_base: if old(self).text().paths is None {
                    match old(self).text().base_url {
                        Some(b) => b,
                        None => other.text().paths_base,
                    }
                } else {
                    old(self).text().paths_base
                },
                paths: if old(self).text().paths is None {
                    other.text().paths
                } else {
                    old(self).text().paths
                },
                base_url: if old(self).text().base_url is None {
                    other.text().base_url
                } else {
                    old(self).text().base_url
                },
                ..old(self).text()
            }),
            final(self).spec_references() == old(self).spec_references(),
    {
        if self.compiler_options.paths.is_none() {
            self.compiler_options.paths_base = match &self.compiler_options.base_url {
                Some(b) => b.clone(),
                None => other.compiler_options.paths_base.clone(),
            };
            self.compiler_options.paths = match &other.compiler_options.paths {
                Some(m) => Some(paths_map_clone(m)),
                None => None,
            };
        }
        if self.compiler_options.base_url.is_none() {
            self.compiler_options.base_url = match &other.compiler_options.base_url {
                Some(b) => Some(b.clone()),
                None => None,
            };
        }
    }
}

/// Among the first `n` alias patterns (keys with a `*`), the one whose
/// part before the first `*` is longest in bytes, of those that `specifier`
/// starts with the part before and ends with the part after; of equally long
/// ones, the first. Gives the key, the part before and the part after.
pub open spec fn alias_scan(specifier: Seq<char>, entries: Seq<(Seq<char>, Seq<Seq<char>>)>, n: int) -> Option<
    (Seq<char>, Seq<char>, Seq<char>),
>
    decreases n,
{
    if n <= 0 {
        None
    } else {
        let prev = alias_scan(specifier, entries, n - 1);
        let k = entries[n - 1].0;
        match index_of(k, '*') {
            Some(p) => {
                let prefix = k.take(p);
                let suffix = k.skip(p + 1);
                if (prev is None || utf8_len(prefix) > utf8_len(prev.unwrap().1)) && starts_with(specifier, prefix)
                    && ends_with(specifier, suffix) {
                    Some((k, prefix, suffix))
                } else {
                    prev
                }
            },
            None => prev,
        }
    }
}

/// The targets a specifier maps to through the aliases: those of the alias
/// equal to it; or else those of the best pattern (see [`alias_scan`]) with
/// each `*` replaced by what the pattern's `*` matched; or else none.
pub open spec fn alias_targets(specifier: Seq<char>, entries: Seq<(Seq<char>, Seq<Seq<char>>)>) -> Seq<Seq<char>> {
    match entries_get(entries, specifier) {
        Some(v) => v,
        None => match alias_scan(specifier, entries, entries.len() as int) {
            Some(best) => match entries_get(entries, best.0) {
                Some(v) => v.map_values(
                    |t: Seq<char>| replace_star(t, specifier.subrange(best.1.len() as int, specifier.len() - best.2.len())),
                ),
                None => Seq::empty(),
            },
            None => Seq::empty(),
        },
    }
}

/// The parts of a pattern key before and after its first `*`, when it has
/// one.
pub open spec fn key_star(key: Seq<char>) -> Option<(Seq<char>, Seq<char>)> {
    match index_of(key, '*') {
        Some(p) => Some((key.take(p), key.skip(p + 1))),
        None => None,
    }
}

/// The pattern key matches the specifier: it has a `*`, and the specifier
/// starts with the part before it and ends with the part after it.
pub open spec fn pattern_matches(key: Seq<char>, specifier: Seq<char>) -> bool {
    match key_star(key) {
        Some((before, after)) => starts_with(specifier, before) && ends_with(specifier, after),
        None => false,
    }
}

/// What the `*` of a matching pattern key stands for in the specifier.
pub open spec fn star_value(key: Seq<char>, specifier: Seq<char>) -> Seq<char> {
    let (before, after) = key_star(key).unwrap();
    specifier.subrange(before.len() as int, specifier.len() - after.len())
}

proof fn lemma_scan_longest(specifier: Seq<char>, entries: Seq<(Seq<char>, Seq<Seq<char>>)>, n: int)
    requires
        0 <= n <= entries.len(),
    ensures
        forall|j: int|
            0 <= j < n && pattern_matches(#[trigger] entries[j].0, specifier) ==> alias_scan(specifier, entries, n) is Some
                && utf8_len(alias_scan(specifier, entries, n).unwrap().1) >= utf8_len(key_star(entries[j].0).unwrap().0),
        alias_scan(specifier, entries, n) is Some ==> exists|k: int|
            0 <= k < n && pattern_matches(#[trigger] entries[k].0, specifier) && alias_scan(specifier, entries, n).unwrap()
                == (entries[k].0, key_star(entries[k].0).unwrap().0, key_star(entries[k].0).unwrap().1),
    decreases n,
{
    if n > 0 {
        lemma_scan_longest(specifier, entries, n - 1);
        let k = entries[n - 1].0;
        if alias_scan(specifier, entries, n) is Some && alias_scan(specifier, entries, n) != alias_scan(
            specifier,
            entries,
            n - 1,
        ) {
            assert(pattern_matches(entries[n - 1].0, specifier));
        }
    }
}

proof fn lemma_entries_get_own_key(entries: Seq<(Seq<char>, Seq<Seq<char>>)>, k: int)
    requires
        0 <= k < entries.len(),
    ensures
        entries_get(entries, entries[k].0) is Some,
    decreases entries.len(),
{
    if entries[0].0 != entries[k].0 {
        assert(entries.drop_first()[k - 1] == entries[k]);
        lemma_entries_get_own_key(entries.drop_first(), k - 1);
    }
}

/// Of the pattern keys of `compilerOptions.paths` that match a specifier
/// (with no key equal to it), one whose part before `*` is longest supplies
/// the targets, whatever the order of the keys: the targets are those of a
/// matching key whose part before `*` is at least as long as that of any
/// matching key, with its `*` replaced.
pub proof fn lemma_longest_prefix_pattern_wins(
    specifier: Seq<char>,
    entries: Seq<(Seq<char>, Seq<Seq<char>>)>,
    j: int,
)
    requires
        entries_get(entries, specifier) is None,
        0 <= j < entries.len(),
        pattern_matches(entries[j].0, specifier),
    ensures
        exists|k: int|
            0 <= k < entries.len() && pattern_matches(#[trigger] entries[k].0, specifier) && utf8_len(
                key_star(entries[k].0).unwrap().0,
            ) >= utf8_len(key_star(entries[j].0).unwrap().0) && alias_targets(specifier, entries) == entries_get(
                entries,
                entries[k].0,
            ).unwrap().map_values(|t: Seq<char>| replace_star(t, star_value(entries[k].0, specifier))),
{
    lemma_scan_longest(specifier, entries, entries.len() as int);
    let best = alias_scan(specifier, entries, entries.len() as int).unwrap();
    let k = choose|k: int|
        0 <= k < entries.len() && pattern_matches(#[trigger] entries[k].0, specifier) && best == (
            entries[k].0,
            key_star(entries[k].0).unwrap().0,
            key_star(entries[k].0).unwrap().1,
        );
    lemma_entries_get_own_key(entries, k);
    assert(star_value(entries[k].0, specifier) == specifier.subrange(
        best.1.len() as int,
        specifier.len() - best.2.len(),
    ));
    assert(alias_targets(specifier, entries) == entries_get(entries, entries[k].0).unwrap().map_values(
        |t: Seq<char>| replace_star(t, star_value(entries[k].0, specifier)),
    ));
}

/// A specifier that path aliases and `baseUrl` do not apply to: one that
/// starts with `/` or `.`.
pub open spec fn is_path_like(specifier: Seq<char>) -> bool {
    specifier.len() > 0 && (specifier[0] == '/' || specifier[0] == '.')
}

/// The paths a specifier maps to through a config: none for a path-like
/// specifier; otherwise the targets of the aliases, resolved from the
/// aliases' folder, followed by the specifier resolved against `baseUrl`.
pub open spec fn path_alias_outcome(t: TsText, specifier: Seq<char>) -> Seq<Seq<char>> {
    if is_path_like(specifier) {
        Seq::empty()
    } else {
        let from_base_url = match t.base_url {
            Some(b) => seq![normalized_join(b, specifier)],
            None => Seq::empty(),
        };
        match t.paths {
            None => from_base_url,
            Some(es) => alias_targets(specifier, es).map_values(|p: Seq<char>| normalized_join(t.paths_base, p))
                + from_base_url,
        }
    }
}

/// The best pattern for the specifier does not overlap itself in it: the
/// part before its `*` and the part after fit side by side.
pub open spec fn alias_fits(t: TsText, specifier: Seq<char>) -> bool {
    !is_path_like(specifier) && t.paths is Some && entries_get(t.paths.unwrap(), specifier) is None ==> match alias_scan(
        specifier,
        t.paths.unwrap(),
        t.paths.unwrap().len() as int,
    ) {
        Some(best) => best.1.len() + best.2.len() <= specifier.len(),
        None => true,
    }
}

/// The pattern of `paths_map` that fits `specifier` with the longest part
/// before its `*` (see [`alias_scan`]), with the lengths of the parts
/// before and after its `*`.
fn best_alias(paths_map: &CompilerOptionsPathsMap, specifier: &str, sc: &Vec<char>) -> (r: (Option<String>, usize, usize))
    requires
        sc@ == specifier@,
    ensures
        match alias_scan(specifier@, paths_entries(*paths_map), paths_entries(*paths_map).len() as int) {
            None => r.0 is None,
            Some(b) => {
                &&& r.0 is Some
                &&& r.0.unwrap()@ == b.0
                &&& r.1 == b.1.len()
                &&& r.2 == b.2.len()
            },
        },
{
    let ghost es = paths_entries(*paths_map);
    let n = paths_map_len(paths_map);
    let mut best: Option<String> = None;
    let mut longest_prefix: usize = 0;
    let mut prefix_chars: usize = 0;
    let mut suffix_chars: usize = 0;
    let mut i: usize = 0;
    while i < n
        invariant
            n == es.len(),
            i <= n,
            es == paths_entries(*paths_map),
            sc@ == specifier@,
            match alias_scan(specifier@, es, i as int) {
                None => best is None,
                Some(b) => {
                    &&& best is Some
                    &&& best.unwrap()@ == b.0
                    &&& longest_prefix == utf8_len(b.1)
                    &&& prefix_chars == b.1.len()
                    &&& suffix_chars == b.2.len()
                },
            },
        decreases n - i,
    {
        let (key, _) = paths_map_get_index(paths_map, i).unwrap();
        let kc = chars_of(key.as_str());
        proof {
            lemma_index_of_from(kc@, '*', 0);
        }
        match star_index(&kc) {
            Some(p) => {
                let klen = kc.len();
                assert(p < klen);
                let prefix = sub_chars(&kc, 0, p);
                let suffix = sub_chars(&kc, p + 1, klen);
                let prefix_text = string_of(&prefix);
                let prefix_bytes = prefix_text.as_str().as_bytes().len();
                proof {
                    assert(prefix@ =~= kc@.take(p as int));
                    assert(suffix@ =~= kc@.skip(p as int + 1));
                }
                if (best.is_none() || prefix_bytes > longest_prefix) && chars_start_with(sc, &prefix)
                    && chars_end_with(sc, &suffix) {
                    best = Some(key.clone());
                    longest_prefix = prefix_bytes;
                    prefix_chars = prefix.len();
                    suffix_chars = suffix.len();
                }
            },
            None => {},
        }
        i = i + 1;
    }
    (best, prefix_chars, suffix_chars)
}

/// The folder a config's aliases belong to: its `baseUrl`, or else its own
/// folder.
pub open spec fn base_path(t: TsText) -> Seq<char> {
    match t.base_url {
        Some(b) => b,
        None => parent_path(t.path).unwrap(),
    }
}

/// A config whose base path can be told.
pub open spec fn has_base_path(t: TsText) -> bool {
    t.base_url is Some || parent_path(t.path) is Some
}

/// The paths a specifier maps to from `path`, looking from the `i`-th
/// reference on: the first loaded reference whose base path `path` lies
/// under maps it; with none, the config itself.
pub open spec fn resolve_from(
    refs: Seq<ProjectReference>,
    i: int,
    path: Seq<char>,
    specifier: Seq<char>,
    own: TsText,
) -> Seq<Seq<char>>
    decreases refs.len() - i,
{
    if i < 0 || i >= refs.len() {
        path_alias_outcome(own, specifier)
    } else {
        match refs[i].tsconfig {
            Some(t) => if path_starts_with(path, base_path((*t).text())) {
                path_alias_outcome((*t).text(), specifier)
            } else {
                resolve_from(refs, i + 1, path, specifier, own)
            },
            None => resolve_from(refs, i + 1, path, specifier, own),
        }
    }
}

/// Mapping from the `i`-th reference on tells every base path it looks at,
/// and the config that maps the specifier fits it (see [`alias_fits`]).
pub open spec fn resolve_fits(
    refs: Seq<ProjectReference>,
    i: int,
    path: Seq<char>,
    specifier: Seq<char>,
    own: TsText,
) -> bool
    decreases refs.len() - i,
{
    if i < 0 || i >= refs.len() {
        alias_fits(own, specifier)
    } else {
        match refs[i].tsconfig {
            Some(t) => has_base_path((*t).text()) && if path_starts_with(path, base_path((*t).text())) {
                alias_fits((*t).text(), specifier)
            } else {
                resolve_fits(refs, i + 1, path, specifier, own)
            },
            None => resolve_fits(refs, i + 1, path, specifier, own),
        }
    }
}

impl TsConfig {
    /// The paths `specifier` maps to through this config's path aliases and
    /// `baseUrl` (see [`path_alias_outcome`]).
    pub fn resolve_path_alias(&self, specifier: &str) -> (r: Vec<String>)
        requires
            alias_fits(self.text(), specifier@),
        ensures
            texts(r@) == path_alias_outcome(self.text(), specifier@),
    {
        let sc = chars_of(specifier);
        if sc.len() > 0 && (sc[0] == '/' || sc[0] == '.') {
            return Vec::new();
        }
        let ghost tt = self.text();
        let mut from_base_url: Vec<String> = Vec::new();
        if let Some(b) = &self.compiler_options.base_url {
            from_base_url.push(normalize_with(b.as_str(), specifier));
        }
        proof {
            assert(texts(from_base_url@) =~= match tt.base_url {
                Some(b) => seq![normalized_join(b, specifier@)],
                None => Seq::<Seq<char>>::empty(),
            });
        }
        let paths_map = match &self.compiler_options.paths {
            Some(m) => m,
            None => return from_base_url,
        };
        let ghost es = paths_entries(*paths_map);
        let targets: Vec<String> = match paths_map_get(paths_map, specifier) {
            Some(v) => copy_strings(v),
            None => {
                let (best, prefix_chars, suffix_chars) = best_alias(paths_map, specifier, &sc);
                match best {
                    Some(key) => match paths_map_get(paths_map, key.as_str()) {
                        Some(v) => {
                            let ghost b = alias_scan(specifier@, es, es.len() as int).unwrap();
                            let m = substring(&sc, prefix_chars, sc.len() - suffix_chars);
                            let ghost mv = specifier@.subrange(b.1.len() as int, specifier@.len() - b.2.len());
                            assert(m@ == mv);
                            let mut out: Vec<String> = Vec::new();
                            let mut k: usize = 0;
                            while k < v.len()
                                invariant
                                    k <= v@.len(),
                                    texts(out@) == texts(v@).take(k as int).map_values(|t: Seq<char>| replace_star(t, mv)),
                                    m@ == mv,
                                decreases v@.len() - k,
                            {
                                let ghost before = out@;
                                out.push(crate::exports::replace_stars_in(v[k].as_str(), m.as_str()));
                                proof {
                                    assert(texts(out@) =~= texts(before).push(replace_star(v@[k as int]@, mv)));
                                    assert(texts(v@).take(k as int + 1).map_values(|t: Seq<char>| replace_star(t, mv)) =~= texts(
                                        v@,
                                    ).take(k as int).map_values(|t: Seq<char>| replace_star(t, mv)).push(replace_star(v@[k as int]@, mv)));
                                }
                                k = k + 1;
                            }
                            proof {
                                assert(texts(v@).take(v@.len() as int) =~= texts(v@));
                            }
                            out
                        },
                        None => Vec::new(),
                    },
                    None => Vec::new(),
                }
            },
        };
        proof {
            assert(texts(targets@) == alias_targets(specifier@, es));
        }
        let mut out: Vec<String> = Vec::new();
        let mut j: usize = 0;
        while j < targets.len()
            invariant
                j <= targets@.len(),
                texts(out@) == texts(targets@).take(j as int).map_values(|p: Seq<char>| normalized_join(tt.paths_base, p)),
                tt.paths_base == self.compiler_options.spec_paths_base(),
                tt == self.text(),
            decreases targets@.len() - j,
        {
            let ghost before = out@;
            out.push(normalize_with(self.compiler_options.paths_base.as_str(), targets[j].as_str()));
            proof {
                assert(texts(out@) =~= texts(before).push(normalized_join(tt.paths_base, targets@[j as int]@)));
                assert(texts(targets@).take(j as int + 1).map_values(|p: Seq<char>| normalized_join(tt.paths_base, p)) =~= texts(
                    targets@,
                ).take(j as int).map_values(|p: Seq<char>| normalized_join(tt.paths_base, p)).push(normalized_join(tt.paths_base, targets@[j as int]@)));
            }
            j = j + 1;
        }
        let ghost mid = out@;
        let mut b: usize = 0;
        while b < from_base_url.len()
            invariant
                b <= from_base_url@.len(),
                out@ == mid + from_base_url@.take(b as int),
            decreases from_base_url@.len() - b,
        {
            out.push(from_base_url[b].clone());
            proof {
                assert(from_base_url@.take(b as int + 1) =~= from_base_url@.take(b as int).push(from_base_url@[b as int]));
            }
            b = b + 1;
        }
        proof {
            assert(from_base_url@.take(from_base_url@.len() as int) =~= from_base_url@);
            assert(texts(targets@).take(targets@.len() as int) =~= texts(targets@));
            assert(texts(out@) =~= texts(mid) + texts(from_base_url@));
        }
        out
    }
}

impl TsConfig {
    /// The folder this config's aliases belong to (see [`base_path`]).
    fn base_path(&self) -> (r: String)
        requires
            has_base_path(self.text()),
        ensures
            r@ == base_path(self.text()),
    {
        match &self.compiler_options.base_url {
            Some(b) => b.clone(),
            None => self.directory(),
        }
    }

    /// Whether this config's base path can be told (see [`has_base_path`]).
    fn has_base_path(&self) -> (r: bool)
        ensures
            r == has_base_path(self.text()),
    {
        self.compiler_options.base_url.is_some() || parent_of(self.path.as_str()).is_some()
    }

    /// Whether `specifier` fits the pattern that would map it through this
    /// config's aliases, as [`TsConfig::resolve_path_alias`] asks (see
    /// [`alias_fits`]).
    pub fn path_alias_fits(&self, specifier: &str) -> (r: bool)
        ensures
            r == alias_fits(self.text(), specifier@),
    {
        let sc = chars_of(specifier);
        if sc.len() > 0 && (sc[0] == '/' || sc[0] == '.') {
            return true;
        }
        let paths_map = match &self.compiler_options.paths {
            Some(m) => m,
            None => return true,
        };
        if paths_map_get(paths_map, specifier).is_some() {
            return true;
        }
        let (best, prefix_chars, suffix_chars) = best_alias(paths_map, specifier, &sc);
        best.is_none() || (prefix_chars <= sc.len() && suffix_chars <= sc.len() - prefix_chars)
    }

    /// Whether mapping `specifier` from `path` can go ahead, as
    /// [`TsConfig::resolve`] asks (see [`resolve_fits`]).
    pub fn resolve_fits_check(&self, path: &str, specifier: &str) -> (r: bool)
        ensures
            r == resolve_fits(self.spec_references(), 0, path@, specifier@, self.text()),
    {
        let ghost refs = self.spec_references();
        let mut i: usize = 0;
        while i < self.references.len()
            invariant
                i <= refs.len(),
                refs == self.spec_references(),
                refs == self.references@,
                resolve_fits(refs, 0, path@, specifier@, self.text()) == resolve_fits(
                    refs,
                    i as int,
                    path@,
                    specifier@,
                    self.text(),
                ),
            decreases refs.len() - i,
        {
            if let Some(tsconfig) = &self.references[i].tsconfig {
                if !tsconfig.has_base_path() {
                    return false;
                }
                let base = tsconfig.base_path();
                if starts_with_path(path, base.as_str()) {
                    return tsconfig.path_alias_fits(specifier);
                }
            }
            i = i + 1;
        }
        self.path_alias_fits(specifier)
    }

    /// The paths `specifier` maps to from the file or folder at `path`: a
    /// loaded project reference whose base path holds `path` maps it, the
    /// first such; otherwise this config does (see [`resolve_from`]).
    pub fn resolve(&self, path: &str, specifier: &str) -> (r: Vec<String>)
        requires
            resolve_fits(self.spec_references(), 0, path@, specifier@, self.text()),
        ensures
            texts(r@) == resolve_from(self.spec_references(), 0, path@, specifier@, self.text()),
    {
        let ghost refs = self.spec_references();
        let mut i: usize = 0;
        while i < self.references.len()
            invariant
                i <= refs.len(),
                refs == self.spec_references(),
                refs == self.references@,
                resolve_fits(refs, i as int, path@, specifier@, self.text()),
                resolve_from(refs, 0, path@, specifier@, self.text()) == resolve_from(
                    refs,
                    i as int,
                    path@,
                    specifier@,
                    self.text(),
                ),
            decreases refs.len() - i,
        {
            if let Some(tsconfig) = &self.references[i].tsconfig {
                let base = tsconfig.base_path();
                if starts_with_path(path, base.as_str()) {
                    return tsconfig.resolve_path_alias(specifier);
                }
            }
            i = i + 1;
        }
        self.resolve_path_alias(specifier)
    }
}

/// The text `json_strip_comments::strip` leaves of a JSON text: comments
/// and trailing commas blanked out.
pub uninterp spec fn stripped_json(text: Seq<char>) -> Seq<char>;

/// Blanks out the comments and trailing commas of `json` in place.
///
/// Calls `json_strip_comments::strip`, which overwrites comments (`//`,
/// `/* */`, `#`) and trailing commas with spaces and leaves the rest; the
/// result is a function of the text alone. Its `Result` is dropped, as the
/// parse that follows reports malformed text.
#[verifier::external_body]
fn strip_in_place(json: &mut String)
    ensures
        final(json)@ == stripped_json(old(json)@),
{
    let _ = json_strip_comments::strip(json.as_mut_str());
}

impl TsConfig {
    /// Prepares the text of a `tsconfig.json` for parsing: blanks out its
    /// comments and trailing commas, and tells whether nothing but white
    /// space is left, in which case the config reads as an empty object.
    pub fn strip_comments(json: &mut String) -> (blank: bool)
        ensures
            final(json)@ == stripped_json(old(json)@),
            blank == forall|i: int| 0 <= i < final(json)@.len() ==> crate::text::is_white_space(#[trigger] final(json)@[i]),
    {
        strip_in_place(json);
        crate::text::is_blank(json.as_str())
    }
}

/// Which project references a config is resolved with.
pub enum TsconfigReferences {
    /// None.
    Disabled,
    /// Those the config lists.
    Auto,
    /// These paths, in place of those the config lists.
    Paths(Vec<String>),
}

/// The reference paths a config ends up with under the option `option`.
pub open spec fn referenced_paths(option: TsconfigReferences, own: Seq<Seq<char>>) -> Seq<Seq<char>> {
    match option {
        TsconfigReferences::Disabled => Seq::empty(),
        TsconfigReferences::Auto => own,
        TsconfigReferences::Paths(ps) => texts(ps@),
    }
}

/// Two paths with the same components, as `Path`'s `==` compares them.
pub open spec fn same_path(a: Seq<char>, b: Seq<char>) -> bool {
    crate::path::path_components(a) == crate::path::path_components(b)
}

/// A referenced config may not be the config that references it: that is
/// an error naming its path.
pub fn check_self_reference(tsconfig_path: &str, reference_path: &str) -> (r: Result<(), ResolveError>)
    ensures
        r is Err <==> same_path(tsconfig_path@, reference_path@),
        r is Err ==> r->Err_0@ == ErrorView::TsconfigSelfReference(reference_path@),
{
    if crate::path::starts_with_path(tsconfig_path, reference_path) && crate::path::starts_with_path(
        reference_path,
        tsconfig_path,
    ) {
        proof {
            let a = crate::path::path_components(tsconfig_path@);
            let b = crate::path::path_components(reference_path@);
            assert(a.take(b.len() as int) =~= a);
        }
        return Err(ResolveError::TsconfigSelfReference(reference_path.to_owned()));
    }
    proof {
        let a = crate::path::path_components(tsconfig_path@);
        let b = crate::path::path_components(reference_path@);
        if a == b {
            assert(a.take(b.len() as int) =~= b);
            assert(b.take(a.len() as int) =~= a);
        }
    }
    Ok(())
}

impl TsConfig {
    /// Sets the project references the option asks for: none, those the
    /// config lists, or the given paths, none of them loaded.
    pub fn apply_references_option(&mut self, option: &TsconfigReferences)
        ensures
            final(self).text() == (TsText {
                references: referenced_paths(*option, old(self).text().references),
                ..old(self).text()
            }),
            match option {
                TsconfigReferences::Auto => final(self).spec_references() == old(self).spec_references(),
                _ => no_loaded_references(final(self).spec_references()),
            },
    {
        match option {
            TsconfigReferences::Disabled => {
                self.references = Vec::new();
                proof {
                    assert(reference_paths(self.references@) =~= Seq::<Seq<char>>::empty());
                }
            },
            TsconfigReferences::Auto => {},
            TsconfigReferences::Paths(paths) => {
                let mut refs: Vec<ProjectReference> = Vec::new();
                let mut i: usize = 0;
                while i < paths.len()
                    invariant
                        i <= paths@.len(),
                        reference_paths(refs@) == texts(paths@).take(i as int),
                        no_loaded_references(refs@),
                    decreases paths@.len() - i,
                {
                    let ghost before = refs@;
                    refs.push(ProjectReference { path: paths[i].clone(), tsconfig: None });
                    proof {
                        assert(reference_paths(refs@) =~= reference_paths(before).push(paths@[i as int]@));
                        assert(texts(paths@).take(i as int + 1) =~= texts(paths@).take(i as int).push(paths@[i as int]@));
                    }
                    i = i + 1;
                }
                proof {
                    assert(texts(paths@).take(paths@.len() as int) =~= texts(paths@));
                }
                self.references = refs;
            },
        }
    }

    /// The paths of the referenced configs: each reference's path resolved
    /// against this config's folder.
    pub fn reference_config_paths(&self) -> (r: Vec<String>)
        requires
            parent_path(self.text().path) is Some,
        ensures
            texts(r@) == self.text().references.map_values(
                |p: Seq<char>| normalized_join(parent_path(self.text().path).unwrap(), p),
            ),
    {
        let dir = self.directory();
        let ghost d = dir@;
        let mut out: Vec<String> = Vec::new();
        let mut i: usize = 0;
        while i < self.references.len()
            invariant
                i <= self.references@.len(),
                d == parent_path(self.text().path).unwrap(),
                d == dir@,
                self.text().references == reference_paths(self.references@),
                texts(out@) == reference_paths(self.references@).take(i as int).map_values(
                    |p: Seq<char>| normalized_join(d, p),
                ),
            decreases self.references@.len() - i,
        {
            let ghost before = out@;
            out.push(normalize_with(dir.as_str(), self.references[i].path.as_str()));
            proof {
                assert(texts(out@) =~= texts(before).push(normalized_join(d, self.references@[i as int].path@)));
                assert(reference_paths(self.references@).take(i as int + 1).map_values(
                    |p: Seq<char>| normalized_join(d, p),
                ) =~= reference_paths(self.references@).take(i as int).map_values(
                    |p: Seq<char>| normalized_join(d, p),
                ).push(normalized_join(d, self.references@[i as int].path@)));
            }
            i = i + 1;
        }
        proof {
            assert(reference_paths(self.references@).take(self.references@.len() as int) =~= reference_paths(
                self.references@,
            ));
        }
        out
    }

    /// Records the loaded config of the `i`-th reference.
    pub fn set_reference_config(&mut self, i: usize, config: Arc<TsConfig>)
        requires
            i < old(self).spec_references().len(),
        ensures
            final(self).text() == old(self).text(),
            final(self).spec_references() == old(self).spec_references().update(
                i as int,
                ProjectReference { path: old(self).spec_references()[i as int].path, tsconfig: Some(config) },
            ),
    {
        let path = self.references[i].path.clone();
        let ghost before = self.references@;
        self.references.set(i, ProjectReference { path, tsconfig: Some(config) });
        proof {
            assert(reference_paths(self.references@) =~= reference_paths(before));
        }
    }
}

} // verus!
