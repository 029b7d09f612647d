//! The decisions the resolver takes between its file-system lookups: what
//! kind of specifier it has, which alias applies and what it rewrites the
//! specifier to, which paths to try. Each takes plain values and says what
//! the resolver does next; the lookups themselves are the caller's.
use vstd::prelude::*;

use crate::error::ResolveError;
use crate::path::{
    apply_segments, is_absolute_path, last_slash, normalize_with, normalized_join, parent_of, parent_path, path_segments,
    render_path, trim_tail,
};
use crate::request::{package_tail, strip_package_name};
use crate::text::{chars_of, chars_start_with, starts_with, string_of, substring};

verus! {

/// How the resolver treats a specifier, by its first path component.
#[derive(Debug, Clone, Copy, PartialEq, Eq, Structural)]
pub enum SpecifierKind {
    /// Starts at the root (`/x`).
    Absolute,
    /// Starts with `.` or `..` (`./x`, `../x`).
    Relative,
    /// An imports specifier (`#x`).
    Hash,
    /// Anything else: a package name, possibly with a subpath.
    Bare,
}

/// The kind of a specifier: its first component is the root, `.` or `..`,
/// or a name that may start with `#`.
pub open spec fn specifier_kind(s: Seq<char>) -> SpecifierKind {
    if s.len() > 0 && s[0] == '/' {
        SpecifierKind::Absolute
    } else if s == "."@ || starts_with(s, "./"@) || s == ".."@ || starts_with(s, "../"@) {
        SpecifierKind::Relative
    } else if s.len() > 0 && s[0] == '#' {
        SpecifierKind::Hash
    } else {
        SpecifierKind::Bare
    }
}

/// The kind of a specifier (see [`specifier_kind`]).
pub fn classify_specifier(specifier: &str) -> (r: SpecifierKind)
    ensures
        r == specifier_kind(specifier@),
{
    let s = chars_of(specifier);
    if s.len() > 0 && s[0] == '/' {
        return SpecifierKind::Absolute;
    }
    if crate::text::str_eq(specifier, ".") || chars_start_with(&s, &chars_of("./")) || crate::text::str_eq(
        specifier,
        "..",
    ) || chars_start_with(&s, &chars_of("../")) {
        return SpecifierKind::Relative;
    }
    if s.len() > 0 && s[0] == '#' {
        return SpecifierKind::Hash;
    }
    SpecifierKind::Bare
}

/// Whether `specifier` names a Node.js builtin module: it starts with
/// `node:` or is one of `builtins`.
pub open spec fn is_builtin(specifier: Seq<char>, builtins: Seq<Seq<char>>) -> bool {
    starts_with(specifier, "node:"@) || builtins.contains(specifier)
}

/// The builtin-module check of a bare specifier (the first step of
/// PACKAGE_RESOLVE): with builtin modules on, a specifier that names one
/// fails with the module's name, `node:` put in front where it lacks it.
/// `builtins` is the list of Node.js builtin module names.
pub fn require_core(specifier: &str, builtin_modules: bool, builtins: &Vec<String>) -> (r: Result<(), ResolveError>)
    ensures
        r is Err <==> builtin_modules && is_builtin(specifier@, crate::exports::texts(builtins@)),
        r is Err ==> r->Err_0@ == crate::error::ErrorView::Builtin(
            if starts_with(specifier@, "node:"@) {
                specifier@
            } else {
                "node:"@ + specifier@
            },
        ),
{
    if !builtin_modules {
        return Ok(());
    }
    let starts_with_node = chars_start_with(&chars_of(specifier), &chars_of("node:"));
    let mut listed = false;
    let mut i: usize = 0;
    while i < builtins.len()
        invariant
            i <= builtins@.len(),
            listed == crate::exports::texts(builtins@).take(i as int).contains(specifier@),
        decreases builtins@.len() - i,
    {
        let same = crate::text::str_eq(builtins[i].as_str(), specifier);
        proof {
            let t = crate::exports::texts(builtins@);
            assert(t.take(i as int + 1) =~= t.take(i as int).push(builtins@[i as int]@));
            if t.take(i as int + 1).contains(specifier@) {
                let j = choose|j: int| 0 <= j < t.take(i as int + 1).len() && #[trigger] t.take(i as int + 1)[j] == specifier@;
                if j < i {
                    assert(t.take(i as int)[j] == specifier@);
                }
            }
            if t.take(i as int).contains(specifier@) {
                let j = choose|j: int| 0 <= j < t.take(i as int).len() && #[trigger] t.take(i as int)[j] == specifier@;
                assert(t.take(i as int + 1)[j] == specifier@);
            }
            if same {
                assert(t.take(i as int + 1)[i as int] == specifier@);
            }
        }
        listed = listed || same;
        i = i + 1;
    }
    proof {
        assert(crate::exports::texts(builtins@).take(builtins@.len() as int) =~= crate::exports::texts(builtins@));
    }
    if starts_with_node {
        return Err(ResolveError::Builtin(specifier.to_owned()));
    }
    if listed {
        let mut named = "node:".to_owned();
        named.append(specifier);
        return Err(ResolveError::Builtin(named));
    }
    Ok(())
}

/// The key of an alias that applies to `specifier`: a key ending in `$`
/// applies to the specifier equal to the rest of it; any other key applies
/// to the specifier that starts with it as a package name does.
pub open spec fn alias_key_for(specifier: Seq<char>, raw_key: Seq<char>) -> Option<Seq<char>> {
    if raw_key.len() > 0 && raw_key.last() == '$' {
        if raw_key.drop_last() == specifier {
            Some(raw_key.drop_last())
        } else {
            None
        }
    } else if package_tail(specifier, raw_key) is Some {
        Some(raw_key)
    } else {
        None
    }
}

/// The key of the alias `raw_key` if it applies to `specifier` (see
/// [`alias_key_for`]).
pub fn alias_key_match(specifier: &str, raw_key: &str) -> (r: Option<String>)
    ensures
        match r {
            Some(k) => alias_key_for(specifier@, raw_key@) == Some(k@),
            None => alias_key_for(specifier@, raw_key@) is None,
        },
{
    let k = chars_of(raw_key);
    if k.len() > 0 && k[k.len() - 1] == '$' {
        let key = substring(&k, 0, k.len() - 1);
        proof {
            assert(key@ =~= raw_key@.drop_last());
        }
        if crate::text::str_eq(key.as_str(), specifier) {
            return Some(key);
        }
        return None;
    }
    match strip_package_name(specifier, raw_key) {
        Some(_) => Some(raw_key.to_owned()),
        None => None,
    }
}

/// A path with `.` segments dropped and `..` applied, as `normalize` gives
/// it; an absolute path stays absolute.
pub open spec fn normalized_path(p: Seq<char>) -> Seq<char> {
    render_path(is_absolute_path(p), apply_segments(Seq::empty(), path_segments(p)))
}

/// What an alias value does with a request (`Skip`: nothing; `Use`: resolve
/// this specifier instead; `UnlessFile`: resolve `specifier` instead, unless
/// `alias_path` is a file, in which case nothing).
pub enum AliasPlan {
    Skip,
    Use(String),
    UnlessFile { alias_path: String, specifier: String },
}

/// An [`AliasPlan`] as texts.
pub enum AliasPlanText {
    Skip,
    Use(Seq<char>),
    UnlessFile(Seq<char>, Seq<char>),
}

impl View for AliasPlan {
    type V = AliasPlanText;

    open spec fn view(&self) -> AliasPlanText {
        match self {
            AliasPlan::Skip => AliasPlanText::Skip,
            AliasPlan::Use(s) => AliasPlanText::Use(s@),
            AliasPlan::UnlessFile { alias_path, specifier } => AliasPlanText::UnlessFile(alias_path@, specifier@),
        }
    }
}

/// `s` without its leading separators (`/` and `\`).
pub open spec fn trim_leading_separators(s: Seq<char>) -> Seq<char>
    decreases s.len(),
{
    if s.len() > 0 && (s[0] == '/' || s[0] == '\\') {
        trim_leading_separators(s.drop_first())
    } else {
        s
    }
}

/// What the alias value `alias_value`, under the key `alias_key`, does with
/// `request`. A request that is the value itself, or lies under it, is left
/// alone. Otherwise what follows the key is appended to the value: with
/// nothing following, the value is the new specifier; else the rest, without
/// its leading separators, is resolved against the normalized value, which
/// must not be a file.
pub open spec fn alias_plan(request: Seq<char>, alias_key: Seq<char>, alias_value: Seq<char>) -> AliasPlanText {
    if request == alias_value || (starts_with(request, alias_value) && starts_with(
        request.skip(alias_value.len() as int),
        "/"@,
    )) {
        AliasPlanText::Skip
    } else {
        let tail = request.skip(alias_key.len() as int);
        if tail.len() == 0 {
            AliasPlanText::Use(alias_value)
        } else {
            let alias_path = normalized_path(alias_value);
            let rest = trim_leading_separators(tail);
            AliasPlanText::UnlessFile(
                alias_path,
                if rest.len() == 0 {
                    alias_value
                } else {
                    normalized_join(alias_path, rest)
                },
            )
        }
    }
}

/// The path with `.` segments dropped and `..` applied (see
/// [`normalized_path`]).
pub fn normalize_path(p: &str) -> (r: String)
    ensures
        r@ == normalized_path(p@),
{
    let pc = chars_of(p);
    let empty: Vec<Vec<char>> = Vec::new();
    proof {
        assert(empty@.map_values(|v: Vec<char>| v@) =~= Seq::<Seq<char>>::empty());
    }
    let segs = crate::path::resolve_segments(empty, &pc);
    let absolute = pc.len() > 0 && pc[0] == '/';
    crate::path::render_segments(absolute, &segs)
}

/// What the alias value does with the request (see [`alias_plan`]).
pub fn plan_alias(request: &str, alias_key: &str, alias_value: &str) -> (r: AliasPlan)
    requires
        starts_with(request@, alias_key@),
    ensures
        r@ == alias_plan(request@, alias_key@, alias_value@),
{
    let rc = chars_of(request);
    let vc = chars_of(alias_value);
    let under_value = chars_start_with(&rc, &vc) && vc.len() < rc.len() && rc[vc.len()] == '/';
    proof {
        reveal_strlit("/");
        let rest = request@.skip(alias_value@.len() as int);
        assert(starts_with(rest, "/"@) == (rest.len() > 0 && rest[0] == '/')) by {
            if rest.len() > 0 && rest[0] == '/' {
                assert(rest.take(1) =~= "/"@);
            }
            if starts_with(rest, "/"@) {
                assert(rest.take(1)[0] == '/');
            }
        }
        if starts_with(request@, alias_value@) && vc@.len() < rc@.len() {
            assert(rest[0] == rc@[vc@.len() as int]);
        }
    }
    if crate::text::str_eq(request, alias_value) || under_value {
        return AliasPlan::Skip;
    }
    let k = chars_of(alias_key);
    let tail = substring(&rc, k.len(), rc.len());
    proof {
        assert(tail@ =~= request@.skip(alias_key@.len() as int));
    }
    if k.len() == rc.len() {
        return AliasPlan::Use(alias_value.to_owned());
    }
    let alias_path = normalize_path(alias_value);
    let tc = chars_of(tail.as_str());
    let mut start: usize = 0;
    assert(tc@.skip(0) =~= tc@);
    while start < tc.len() && (tc[start] == '/' || tc[start] == '\\')
        invariant
            start <= tc@.len(),
            trim_leading_separators(tc@) == trim_leading_separators(tc@.skip(start as int)),
        decreases tc@.len() - start,
    {
        proof {
            assert(tc@.skip(start as int).drop_first() =~= tc@.skip(start as int + 1));
        }
        start = start + 1;
    }
    let rest = substring(&tc, start, tc.len());
    proof {
        assert(rest@ =~= tc@.skip(start as int));
    }
    let specifier = if start == tc.len() {
        alias_value.to_owned()
    } else {
        normalize_with(alias_path.as_str(), rest.as_str())
    };
    AliasPlan::UnlessFile { alias_path, specifier }
}

/// The request a `main` field stands for: as written when it starts with
/// `./` or `../`, else with `./` put in front.
pub open spec fn main_field_request_text(main_field: Seq<char>) -> Seq<char> {
    if starts_with(main_field, "./"@) || starts_with(main_field, "../"@) {
        main_field
    } else {
        "./"@ + main_field
    }
}

/// The request a `main` field stands for (see [`main_field_request_text`]).
pub fn main_field_request(main_field: &str) -> (r: String)
    ensures
        r@ == main_field_request_text(main_field@),
{
    let m = chars_of(main_field);
    if chars_start_with(&m, &chars_of("./")) || chars_start_with(&m, &chars_of("../")) {
        main_field.to_owned()
    } else {
        let mut r = "./".to_owned();
        r.append(main_field);
        r
    }
}

/// The request to resolve inside a Plug'n'Play package folder: its subpath
/// as a relative request, or `.` for the package itself.
pub fn pnp_inner_request(subpath: Option<&str>) -> (r: String)
    ensures
        r@ == match subpath {
            Some(p) => "./"@ + p@,
            None => "."@,
        },
{
    match subpath {
        Some(p) => {
            let mut r = "./".to_owned();
            r.append(p);
            r
        },
        None => ".".to_owned(),
    }
}

/// Where the config named by an `extends` entry is.
pub enum ExtendedConfig {
    /// The entry is empty, which is an error.
    EmptySpecifier,
    /// The config is at this path.
    Path(String),
    /// The entry names a package, to be looked up in `node_modules`.
    Package,
}

/// Where the config named by the `extends` entry `specifier` of a config in
/// the folder `directory` is: an absolute entry is its path, one starting
/// with `.` resolves against the folder, any other names a package.
pub fn extended_config(directory: &str, specifier: &str) -> (r: ExtendedConfig)
    ensures
        match r {
            ExtendedConfig::EmptySpecifier => specifier@.len() == 0,
            ExtendedConfig::Path(p) => specifier@.len() > 0 && (if specifier@[0] == '/' {
                p@ == specifier@
            } else {
                specifier@[0] == '.' && p@ == normalized_join(directory@, specifier@)
            }),
            ExtendedConfig::Package => specifier@.len() > 0 && specifier@[0] != '/' && specifier@[0] != '.',
        },
{
    let s = chars_of(specifier);
    if s.len() == 0 {
        ExtendedConfig::EmptySpecifier
    } else if s[0] == '/' {
        ExtendedConfig::Path(specifier.to_owned())
    } else if s[0] == '.' {
        ExtendedConfig::Path(normalize_with(directory, specifier))
    } else {
        ExtendedConfig::Package
    }
}

/// The prefixes of `s` that end just before a `?`, from the last `?` to the
/// first, among the first `n` characters.
pub open spec fn query_prefixes(s: Seq<char>, n: int) -> Seq<Seq<char>>
    decreases n,
{
    if n <= 0 {
        Seq::empty()
    } else if s[n - 1] == '?' {
        seq![s.take(n - 1)] + query_prefixes(s, n - 1)
    } else {
        query_prefixes(s, n - 1)
    }
}

/// The paths to try when a resolved path may carry a query: the path cut
/// before each `?`, the last `?` first.
pub fn query_split_candidates(path: &str) -> (r: Vec<String>)
    ensures
        crate::exports::texts(r@) == query_prefixes(path@, path@.len() as int),
{
    let pc = chars_of(path);
    let mut out: Vec<String> = Vec::new();
    let mut n = pc.len();
    assert(query_prefixes(pc@, pc@.len() as int) == Seq::<Seq<char>>::empty() + query_prefixes(pc@, n as int));
    while n > 0
        invariant
            n <= pc@.len(),
            pc@ == path@,
            query_prefixes(pc@, pc@.len() as int) == crate::exports::texts(out@) + query_prefixes(pc@, n as int),
        decreases n,
    {
        if pc[n - 1] == '?' {
            let ghost before = out@;
            out.push(substring(&pc, 0, n - 1));
            proof {
                assert(crate::exports::texts(out@) =~= crate::exports::texts(before).push(pc@.take(n - 1)));
                assert(crate::exports::texts(before) + (seq![pc@.take(n - 1)] + query_prefixes(pc@, n - 1)) =~= crate::exports::texts(
                    out@,
                ) + query_prefixes(pc@, n - 1));
            }
        }
        n = n - 1;
    }
    assert(crate::exports::texts(out@) + Seq::<Seq<char>>::empty() =~= crate::exports::texts(out@));
    out
}

/// The last component of a path, as `Path::file_name` gives it: nothing
/// when it is the root, `.` or `..`.
pub open spec fn file_name_of(p: Seq<char>) -> Option<Seq<char>> {
    let t = trim_tail(p);
    let c = match last_slash(t) {
        Some(i) => t.skip(i + 1),
        None => t,
    };
    if c.len() == 0 || c == "."@ || c == ".."@ {
        None
    } else {
        Some(c)
    }
}

/// Where the last component starts in the trimmed path.
pub open spec fn name_start(p: Seq<char>) -> int {
    match last_slash(trim_tail(p)) {
        Some(i) => i + 1,
        None => 0,
    }
}

/// The index of the last `.` of a file name.
pub open spec fn last_dot(f: Seq<char>) -> Option<int>
    decreases f.len(),
{
    if f.len() == 0 {
        None
    } else if f.last() == '.' {
        Some(f.len() - 1)
    } else {
        last_dot(f.drop_last())
    }
}

/// The stem of a file name: up to its last `.`, unless that `.` starts the
/// name (`.hidden`) or the name is `..`.
pub open spec fn stem_of(f: Seq<char>) -> Seq<char> {
    if f == ".."@ {
        f
    } else {
        match last_dot(f) {
            Some(i) => if i == 0 {
                f
            } else {
                f.take(i)
            },
            None => f,
        }
    }
}

/// The extension of a file name: after its last `.`, when it has a stem
/// before it.
pub open spec fn extension_of(f: Seq<char>) -> Option<Seq<char>> {
    if f == ".."@ {
        None
    } else {
        match last_dot(f) {
            Some(i) => if i == 0 {
                None
            } else {
                Some(f.skip(i + 1))
            },
            None => None,
        }
    }
}

/// The extension of a path's file name.
pub open spec fn path_extension(p: Seq<char>) -> Option<Seq<char>> {
    match file_name_of(p) {
        Some(f) => extension_of(f),
        None => None,
    }
}

/// The path without the extension of its file name, as
/// `Path::with_extension("")` gives it: cut right after the stem.
pub open spec fn without_extension(p: Seq<char>) -> Seq<char> {
    match file_name_of(p) {
        Some(f) => p.take(name_start(p) + stem_of(f).len()),
        None => p,
    }
}

/// `s` without its leading dots.
pub open spec fn trim_leading_dots(s: Seq<char>) -> Seq<char>
    decreases s.len(),
{
    if s.len() > 0 && s[0] == '.' {
        trim_leading_dots(s.drop_first())
    } else {
        s
    }
}

/// The index of the first alias, from the `i`-th on, whose extension is
/// `e` once its leading dots are taken off.
pub open spec fn alias_index_from(aliases: Seq<(String, Vec<String>)>, e: Seq<char>, i: int) -> Option<int>
    decreases aliases.len() - i,
{
    if i < 0 || i >= aliases.len() {
        None
    } else if trim_leading_dots(aliases[i].0@) == e {
        Some(i)
    } else {
        alias_index_from(aliases, e, i + 1)
    }
}

/// The index of the first extension alias whose extension, leading dots
/// aside, is that of `path`.
pub open spec fn extension_alias_index(path: Seq<char>, aliases: Seq<(String, Vec<String>)>) -> Option<int> {
    match path_extension(path) {
        None => None,
        Some(e) => alias_index_from(aliases, e, 0),
    }
}

/// The names `stem` + each extension, joined with commas.
pub open spec fn joined_names(stem: Seq<char>, extensions: Seq<Seq<char>>) -> Seq<char>
    decreases extensions.len(),
{
    if extensions.len() == 0 {
        Seq::empty()
    } else if extensions.len() == 1 {
        stem + extensions[0]
    } else {
        joined_names(stem, extensions.drop_last()) + seq![','] + stem + extensions.last()
    }
}

/// The index of the last `/` in `t`.
fn last_slash_index(t: &Vec<char>) -> (r: Option<usize>)
    ensures
        match r {
            Some(i) => last_slash(t@) == Some(i as int),
            None => last_slash(t@) is None,
        },
{
    let mut n = t.len();
    assert(t@.take(t@.len() as int) =~= t@);
    while n > 0
        invariant
            n <= t@.len(),
            last_slash(t@) == last_slash(t@.take(n as int)),
        decreases n,
    {
        proof {
            assert(t@.take(n as int).drop_last() =~= t@.take(n - 1));
        }
        if t[n - 1] == '/' {
            return Some(n - 1);
        }
        n = n - 1;
    }
    None
}

/// The index of the last `.` in `f`.
fn last_dot_index(f: &Vec<char>) -> (r: Option<usize>)
    ensures
        match r {
            Some(i) => last_dot(f@) == Some(i as int),
            None => last_dot(f@) is None,
        },
{
    let mut n = f.len();
    assert(f@.take(f@.len() as int) =~= f@);
    while n > 0
        invariant
            n <= f@.len(),
            last_dot(f@) == last_dot(f@.take(n as int)),
        decreases n,
    {
        proof {
            assert(f@.take(n as int).drop_last() =~= f@.take(n - 1));
        }
        if f[n - 1] == '.' {
            return Some(n - 1);
        }
        n = n - 1;
    }
    None
}

proof fn lemma_last_dot(f: Seq<char>)
    ensures
        match last_dot(f) {
            Some(i) => 0 <= i < f.len() && f[i] == '.',
            None => forall|j: int| 0 <= j < f.len() ==> f[j] != '.',
        },
    decreases f.len(),
{
    if f.len() > 0 && f.last() != '.' {
        let d = f.drop_last();
        lemma_last_dot(d);
        if last_dot(d) is None {
            assert forall|j: int| 0 <= j < f.len() implies f[j] != '.' by {
                if j < f.len() - 1 {
                    assert(f[j] == d[j]);
                }
            }
        }
    }
}

/// The trimmed path, where its last component starts in it, and that
/// component.
fn split_last_component(path: &str) -> (r: (Vec<char>, usize, Vec<char>))
    ensures
        r.0@ == trim_tail(path@),
        r.1 == name_start(path@),
        r.1 <= r.0@.len(),
        r.2@ == r.0@.skip(r.1 as int),
        r.2@ == match last_slash(trim_tail(path@)) {
            Some(i) => trim_tail(path@).skip(i + 1),
            None => trim_tail(path@),
        },
{
    let mut t = chars_of(path);
    crate::path::trim_tail_chars(&mut t);
    proof {
        crate::path::lemma_last_slash(t@);
    }
    let tlen = t.len();
    let start = match last_slash_index(&t) {
        Some(i) => {
            assert(i < tlen);
            i + 1
        },
        None => 0,
    };
    let c = crate::text::sub_chars(&t, start, t.len());
    proof {
        assert(c@ =~= t@.skip(start as int));
        if start == 0 {
            assert(t@.skip(0) =~= t@);
        }
    }
    (t, start, c)
}

/// Whether `c` is empty, `.` or `..`.
fn is_dot_or_empty(c: &Vec<char>) -> (r: bool)
    ensures
        r == (c@.len() == 0 || c@ == "."@ || c@ == ".."@),
{
    proof {
        reveal_strlit(".");
        reveal_strlit("..");
    }
    if c.len() == 0 {
        return true;
    }
    if c.len() == 1 && c[0] == '.' {
        assert(c@ =~= "."@);
        return true;
    }
    if c.len() == 2 && c[0] == '.' && c[1] == '.' {
        assert(c@ =~= ".."@);
        return true;
    }
    proof {
        if c@ == "."@ {
            assert(c@[0] == '.');
        }
        if c@ == ".."@ {
            assert(c@[0] == '.' && c@[1] == '.');
        }
    }
    false
}

/// The last component of a path (see [`file_name_of`]).
pub fn file_name(path: &str) -> (r: Option<String>)
    ensures
        match r {
            Some(f) => file_name_of(path@) == Some(f@),
            None => file_name_of(path@) is None,
        },
{
    let (t, start, c) = split_last_component(path);
    if is_dot_or_empty(&c) {
        None
    } else {
        Some(string_of(&c))
    }
}

/// Where the stem of the file name `f` ends.
fn stem_end(f: &Vec<char>) -> (r: usize)
    ensures
        r <= f@.len(),
        f@.take(r as int) == stem_of(f@),
{
    proof {
        reveal_strlit("..");
        lemma_last_dot(f@);
    }
    let two_dots = f.len() == 2 && f[0] == '.' && f[1] == '.';
    proof {
        if f@ == ".."@ {
            assert(f@[0] == '.' && f@[1] == '.');
        }
        if two_dots {
            assert(f@ =~= ".."@);
        }
    }
    assert(f@.take(f@.len() as int) =~= f@);
    if two_dots {
        return f.len();
    }
    match last_dot_index(f) {
        Some(i) => if i == 0 {
            f.len()
        } else {
            i
        },
        None => f.len(),
    }
}

/// The extension of the file name of `path`, if it has one.
pub fn extension(path: &str) -> (r: Option<String>)
    ensures
        match r {
            Some(e) => path_extension(path@) == Some(e@),
            None => path_extension(path@) is None,
        },
{
    let (t, start, c) = split_last_component(path);
    if is_dot_or_empty(&c) {
        return None;
    }
    proof {
        reveal_strlit("..");
        lemma_last_dot(c@);
    }
    let two_dots = c.len() == 2 && c[0] == '.' && c[1] == '.';
    if two_dots {
        assert(c@ =~= ".."@);
        return None;
    }
    proof {
        if c@ == ".."@ {
            assert(c@[0] == '.' && c@[1] == '.');
        }
    }
    match last_dot_index(&c) {
        Some(i) => if i == 0 {
            None
        } else {
            let e = substring(&c, i + 1, c.len());
            proof {
                assert(e@ =~= c@.skip(i as int + 1));
            }
            Some(e)
        },
        None => None,
    }
}

/// The path without the extension of its file name (see
/// [`without_extension`]).
pub fn path_without_extension(path: &str) -> (r: String)
    ensures
        r@ == without_extension(path@),
{
    let (t, start, c) = split_last_component(path);
    if is_dot_or_empty(&c) {
        return path.to_owned();
    }
    let end = stem_end(&c);
    let pc = chars_of(path);
    let tl = t.len();
    proof {
        crate::path::lemma_trim_tail_prefix(path@);
        assert(c@.len() == t@.len() - start);
        assert(start + end <= t@.len());
    }
    let r = substring(&pc, 0, start + end);
    proof {
        assert(r@ =~= path@.take(start + end));
    }
    r
}

/// `s` without its leading dots.
fn trim_dots(s: &str) -> (r: Vec<char>)
    ensures
        r@ == trim_leading_dots(s@),
{
    let v = chars_of(s);
    let mut i: usize = 0;
    assert(v@.skip(0) =~= v@);
    while i < v.len() && v[i] == '.'
        invariant
            i <= v@.len(),
            v@ == s@,
            trim_leading_dots(s@) == trim_leading_dots(v@.skip(i as int)),
        decreases v@.len() - i,
    {
        proof {
            assert(v@.skip(i as int).drop_first() =~= v@.skip(i as int + 1));
        }
        i = i + 1;
    }
    let r = crate::text::sub_chars(&v, i, v.len());
    assert(r@ =~= v@.skip(i as int));
    r
}

/// The index of the extension alias for the extension of `path`, if any
/// (see [`extension_alias_index`]).
pub fn find_extension_alias(path: &str, aliases: &Vec<(String, Vec<String>)>) -> (r: Option<usize>)
    ensures
        match r {
            Some(i) => extension_alias_index(path@, aliases@) == Some(i as int),
            None => extension_alias_index(path@, aliases@) is None,
        },
{
    let e = match extension(path) {
        Some(e) => e,
        None => return None,
    };
    let ec = chars_of(e.as_str());
    let mut i: usize = 0;
    while i < aliases.len()
        invariant
            i <= aliases@.len(),
            ec@ == e@,
            path_extension(path@) == Some(e@),
            alias_index_from(aliases@, e@, 0) == alias_index_from(aliases@, e@, i as int),
        decreases aliases@.len() - i,
    {
        let t = trim_dots(aliases[i].0.as_str());
        if crate::path::chars_eq(&t, &ec) {
            return Some(i);
        }
        i = i + 1;
    }
    None
}

/// The paths to try for the extension aliases: the path without its
/// extension, with each aliased extension appended.
pub fn extension_alias_candidates(path: &str, extensions: &Vec<String>) -> (r: Vec<String>)
    ensures
        crate::exports::texts(r@) == crate::exports::texts(extensions@).map_values(
            |e: Seq<char>| without_extension(path@) + e,
        ),
{
    let base = path_without_extension(path);
    let mut out: Vec<String> = Vec::new();
    let mut i: usize = 0;
    while i < extensions.len()
        invariant
            i <= extensions@.len(),
            base@ == without_extension(path@),
            crate::exports::texts(out@) == crate::exports::texts(extensions@).take(i as int).map_values(
                |e: Seq<char>| without_extension(path@) + e,
            ),
        decreases extensions@.len() - i,
    {
        let mut candidate = base.clone();
        candidate.append(extensions[i].as_str());
        let ghost before = out@;
        out.push(candidate);
        proof {
            assert(crate::exports::texts(out@) =~= crate::exports::texts(before).push(
                without_extension(path@) + extensions@[i as int]@,
            ));
            assert(crate::exports::texts(extensions@).take(i as int + 1).map_values(
                |e: Seq<char>| without_extension(path@) + e,
            ) =~= crate::exports::texts(extensions@).take(i as int).map_values(
                |e: Seq<char>| without_extension(path@) + e,
            ).push(without_extension(path@) + extensions@[i as int]@));
        }
        i = i + 1;
    }
    proof {
        assert(crate::exports::texts(extensions@).take(extensions@.len() as int) =~= crate::exports::texts(
            extensions@,
        ));
    }
    out
}

/// The paths that a request for `path` tries with each of `extensions`
/// appended to it, in order; a fully specified request tries none.
pub fn extension_candidates(path: &str, extensions: &Vec<String>, fully_specified: bool) -> (r: Vec<String>)
    ensures
        fully_specified ==> r@.len() == 0,
        !fully_specified ==> crate::exports::texts(r@) == crate::exports::texts(extensions@).map_values(
            |e: Seq<char>| path@ + e,
        ),
{
    let mut out: Vec<String> = Vec::new();
    if fully_specified {
        return out;
    }
    let mut i: usize = 0;
    while i < extensions.len()
        invariant
            i <= extensions@.len(),
            crate::exports::texts(out@) == crate::exports::texts(extensions@).take(i as int).map_values(
                |e: Seq<char>| path@ + e,
            ),
        decreases extensions@.len() - i,
    {
        let mut candidate = path.to_owned();
        candidate.append(extensions[i].as_str());
        let ghost before = out@;
        out.push(candidate);
        proof {
            assert(crate::exports::texts(out@) =~= crate::exports::texts(before).push(path@ + extensions@[i as int]@));
            assert(crate::exports::texts(extensions@).take(i as int + 1).map_values(|e: Seq<char>| path@ + e)
                =~= crate::exports::texts(extensions@).take(i as int).map_values(|e: Seq<char>| path@ + e).push(
                path@ + extensions@[i as int]@,
            ));
        }
        i = i + 1;
    }
    proof {
        assert(crate::exports::texts(extensions@).take(extensions@.len() as int) =~= crate::exports::texts(
            extensions@,
        ));
    }
    out
}

/// The error for a file whose aliased extensions were all missing: its
/// name, the names tried (its stem with each aliased extension, joined with
/// commas) and its folder.
pub fn extension_alias_error(path: &str, extensions: &Vec<String>) -> (r: ResolveError)
    requires
        file_name_of(path@) is Some,
    ensures
        r@ == crate::error::ErrorView::ExtensionAlias(
            file_name_of(path@).unwrap(),
            joined_names(stem_of(file_name_of(path@).unwrap()), crate::exports::texts(extensions@)),
            parent_path(path@).unwrap(),
        ),
{
    let (t, start, c) = split_last_component(path);
    let name = string_of(&c);
    let end = stem_end(&c);
    let stem = substring(&c, 0, end);
    proof {
        assert(stem@ =~= c@.take(end as int));
    }
    let ghost exts = crate::exports::texts(extensions@);
    let mut files = String::new();
    let mut i: usize = 0;
    assert(exts.take(0) =~= Seq::<Seq<char>>::empty());
    while i < extensions.len()
        invariant
            i <= extensions@.len(),
            exts == crate::exports::texts(extensions@),
            files@ == joined_names(stem@, exts.take(i as int)),
        decreases extensions@.len() - i,
    {
        proof {
            assert(exts.take(i as int + 1).drop_last() =~= exts.take(i as int));
        }
        if i > 0 {
            files.append(",");
        }
        files.append(stem.as_str());
        files.append(extensions[i].as_str());
        proof {
            reveal_strlit(",");
            if i == 0 {
                assert(files@ =~= stem@ + exts.take(1)[0]);
            } else {
                assert(files@ =~= joined_names(stem@, exts.take(i as int)) + seq![','] + stem@ + exts.take(i as int + 1).last());
            }
        }
        i = i + 1;
    }
    proof {
        assert(exts.take(exts.len() as int) =~= exts);
    }
    let dir = parent_of(path).unwrap();
    ResolveError::ExtensionAlias(name, files, dir)
}

/// What the resolver does with the specifier a browser field maps a module
/// or file to.
#[derive(Debug, Clone, Copy, PartialEq, Eq, Structural)]
pub enum BrowserFieldStep {
    /// The field maps the module to itself: nothing to resolve.
    Stop,
    /// The alias being resolved maps a file to itself (`{"./a.js":
    /// "./a.js"}`): the file itself, if it is one.
    SelfFile,
    /// The alias being resolved comes round again: a recursion error.
    Recursion,
    /// Resolve the new specifier from the package's folder.
    Resolve,
}

/// `p` ends with the components of `child`, as `Path::ends_with` tests.
pub open spec fn path_ends_with(p: Seq<char>, child: Seq<char>) -> bool {
    let a = crate::path::path_components(p);
    let b = crate::path::path_components(child);
    b.len() <= a.len() && a.skip(a.len() - b.len()) == b
}

/// What to do with `new_specifier`, the browser-field mapping of the module
/// `module_specifier` (nothing when a file is looked up) found at `path`,
/// while `resolving_alias` is being resolved.
pub open spec fn browser_field_step_for(
    path: Seq<char>,
    module_specifier: Option<Seq<char>>,
    new_specifier: Seq<char>,
    resolving_alias: Option<Seq<char>>,
) -> BrowserFieldStep {
    if module_specifier == Some(new_specifier) {
        BrowserFieldStep::Stop
    } else if resolving_alias == Some(new_specifier) {
        if starts_with(new_specifier, "./"@) && path_ends_with(path, new_specifier.skip(2)) {
            BrowserFieldStep::SelfFile
        } else {
            BrowserFieldStep::Recursion
        }
    } else {
        BrowserFieldStep::Resolve
    }
}

/// Whether `p` ends with the components of `child`.
fn ends_with_path(p: &str, child: &str) -> (r: bool)
    ensures
        r == path_ends_with(p@, child@),
{
    let a = crate::path::components_of_str(p);
    let b = crate::path::components_of_str(child);
    let ghost av = a@.map_values(|v: Vec<char>| v@);
    let ghost bv = b@.map_values(|v: Vec<char>| v@);
    if b.len() > a.len() {
        return false;
    }
    let alen = a.len();
    let off = alen - b.len();
    let mut i: usize = 0;
    while i < b.len()
        invariant
            b@.len() <= a@.len(),
            off == a@.len() - b@.len(),
            a@.len() <= usize::MAX,
            i <= b@.len(),
            av == a@.map_values(|v: Vec<char>| v@),
            bv == b@.map_values(|v: Vec<char>| v@),
            av == crate::path::path_components(p@),
            bv == crate::path::path_components(child@),
            forall|j: int| 0 <= j < i ==> av[off + j] == bv[j],
        decreases b@.len() - i,
    {
        assert(av[off + i] == a@[off + i]@);
        assert(bv[i as int] == b@[i as int]@);
        if !crate::path::chars_eq(&a[off + i], &b[i]) {
            assert(av.skip(off as int)[i as int] != bv[i as int]);
            return false;
        }
        i = i + 1;
    }
    assert(av.skip(off as int) =~= bv);
    true
}

/// What to do with the browser-field mapping of a module or file (see
/// [`browser_field_step_for`]).
pub fn browser_field_step(
    path: &str,
    module_specifier: Option<&str>,
    new_specifier: &str,
    resolving_alias: Option<&str>,
) -> (r: BrowserFieldStep)
    ensures
        r == browser_field_step_for(
            path@,
            crate::exports::opt_text(module_specifier),
            new_specifier@,
            crate::exports::opt_text(resolving_alias),
        ),
{
    if let Some(m) = module_specifier {
        if crate::text::str_eq(m, new_specifier) {
            return BrowserFieldStep::Stop;
        }
    }
    if let Some(a) = resolving_alias {
        if crate::text::str_eq(a, new_specifier) {
            let nc = chars_of(new_specifier);
            if chars_start_with(&nc, &chars_of("./")) {
                proof {
                    reveal_strlit("./");
                }
                let rest = substring(&nc, 2, nc.len());
                proof {
                    assert(rest@ =~= new_specifier@.skip(2));
                }
                if ends_with_path(path, rest.as_str()) {
                    return BrowserFieldStep::SelfFile;
                }
            }
            return BrowserFieldStep::Recursion;
        }
    }
    BrowserFieldStep::Resolve
}

/// The specifier a root resolves relatively: a server-relative specifier
/// without its leading separator (`/` or `\`); any other specifier is not
/// tried against the roots.
pub fn root_relative_specifier(specifier: &str) -> (r: Option<String>)
    ensures
        match r {
            Some(t) => specifier@.len() > 0 && (specifier@[0] == '/' || specifier@[0] == '\\') && t@ == specifier@.skip(1),
            None => !(specifier@.len() > 0 && (specifier@[0] == '/' || specifier@[0] == '\\')),
        },
{
    let s = chars_of(specifier);
    if s.len() > 0 && (s[0] == '/' || s[0] == '\\') {
        let t = substring(&s, 1, s.len());
        assert(t@ =~= specifier@.skip(1));
        Some(t)
    } else {
        None
    }
}

} // verus!
