//! The `exports` and `imports` fields of `package.json`: which file a
//! subpath or an imports specifier maps to (PACKAGE_EXPORTS_RESOLVE,
//! PACKAGE_IMPORTS_RESOLVE, PACKAGE_IMPORTS_EXPORTS_RESOLVE and
//! PACKAGE_TARGET_RESOLVE of the ECMAScript resolution algorithm).
//!
//! An imports target may name another package (`"#dep": "dep/lib"`); finding
//! that package is the resolver's work, handed to a [`PackageResolver`]. The
//! functions that may ask it record each question and its answer in a list of
//! [`BareCall`]s, and their contracts say what they return for every answer
//! function that agrees with that record.
use vstd::prelude::*;

use crate::context::opt_string_text;
use crate::error::{duplicate_result, outcome_of, ErrorView, Outcome, ResolveError};
use crate::json::{obj_get, object_get, JsonValue};
use crate::path::{
    is_absolute_path, is_invalid_exports_target, is_invalid_target_path, join, joined_path, lemma_join_stays_inside,
    no_parent_segments, normalize_with, normalized_join, path_segments, restriction_holds,
};
use crate::pattern::{
    count_of, index_of, is_pattern_key, key_outranks, lemma_count_concat, lemma_count_zero, lemma_index_of_from,
    lemma_utf8_concat, lemma_utf8_len_ascii, lemma_utf8_len_at_least, pattern_key_order, star_index, utf8_len,
};
use crate::text::{
    chars_contain, chars_end_with, chars_of, chars_start_with, ends_with, push_char, starts_with, sub_chars, substring,
};

verus! {

/// The path of the `package.json` of the package at `pkg`.
pub open spec fn json_path(pkg: Seq<char>) -> Seq<char> {
    joined_path(pkg, "package.json"@)
}

/// `t` with every `*` replaced by `m`.
pub open spec fn replace_star(t: Seq<char>, m: Seq<char>) -> Seq<char>
    decreases t.len(),
{
    if t.len() == 0 {
        Seq::empty()
    } else {
        replace_star(t.drop_last(), m) + if t.last() == '*' {
            m
        } else {
            seq![t.last()]
        }
    }
}

/// A target with the matched part of the specifier put in: with no match,
/// the target itself; a folder mapping (neither key nor target has a `*`)
/// gets the match appended, and is an error unless both end in `/`; a
/// pattern gets every `*` replaced by the match.
pub open spec fn normalized_target(
    key: Seq<char>,
    target: Seq<char>,
    pattern_match: Option<Seq<char>>,
    pkg: Seq<char>,
) -> Result<Seq<char>, ErrorView> {
    match pattern_match {
        None => Ok(target),
        Some(m) => if !key.contains('*') && !target.contains('*') {
            if ends_with(key, "/"@) && ends_with(target, "/"@) {
                Ok(target + m)
            } else {
                Err(ErrorView::InvalidPackageConfigDirectory(json_path(pkg)))
            }
        } else {
            Ok(replace_star(target, m))
        },
    }
}

/// What a string target resolves to. A target outside the package (not
/// starting with `./`) is an error in `exports`; in `imports` it names
/// another package unless it starts with `../` or `/`, and `answer` says what
/// resolving that package gives. A target inside the package resolves against
/// the package's folder, unless it would leave the package or enter a
/// `node_modules` folder.
pub open spec fn string_target_outcome(
    pkg: Seq<char>,
    key: Seq<char>,
    target: Seq<char>,
    pattern_match: Option<Seq<char>>,
    is_imports: bool,
    answer: spec_fn(Seq<char>) -> Outcome,
) -> Outcome {
    if !starts_with(target, "./"@) {
        if !is_imports || starts_with(target, "../"@) || starts_with(target, "/"@) {
            Err(ErrorView::InvalidPackageTarget(target, key, json_path(pkg)))
        } else {
            match normalized_target(key, target, pattern_match, pkg) {
                Err(e) => Err(e),
                Ok(t) => answer(t),
            }
        }
    } else {
        match normalized_target(key, target, pattern_match, pkg) {
            Err(e) => Err(e),
            Ok(t) => if is_invalid_target_path(t) {
                Err(ErrorView::InvalidPackageTarget(t, key, json_path(pkg)))
            } else {
                Ok(Some(normalized_join(pkg, t)))
            },
        }
    }
}

/// A key of a conditions object that applies: `default`, or one of the
/// conditions.
pub open spec fn selected_condition(key: Seq<char>, conditions: Seq<Seq<char>>) -> bool {
    key == "default"@ || conditions.contains(key)
}

/// How many items or entries a value has.
pub open spec fn child_count(t: JsonValue) -> int {
    match t {
        JsonValue::Array(items) => items@.len() as int,
        JsonValue::Object(entries) => entries@.len() as int,
        _ => 0,
    }
}

/// PACKAGE_TARGET_RESOLVE, from the `i`-th item or entry of `t` on. A
/// conditions object gives the outcome of its first applying entry that
/// does not come to nothing, errors included; an array gives the first of its
/// items that resolves, passing over the others, or else what its last item
/// gives, that item's error included; an empty array is an error; any other
/// value comes to nothing.
pub open spec fn target_from(
    pkg: Seq<char>,
    key: Seq<char>,
    t: JsonValue,
    i: int,
    pattern_match: Option<Seq<char>>,
    is_imports: bool,
    conditions: Seq<Seq<char>>,
    answer: spec_fn(Seq<char>) -> Outcome,
) -> Outcome
    decreases t, child_count(t) - i,
{
    match t {
        JsonValue::String(s) => string_target_outcome(pkg, key, s@, pattern_match, is_imports, answer),
        JsonValue::Object(entries) => if 0 <= i < entries@.len() {
            if selected_condition(entries@[i].0@, conditions) {
                match target_from(pkg, key, entries@[i].1, 0, pattern_match, is_imports, conditions, answer) {
                    Ok(None) => target_from(pkg, key, t, i + 1, pattern_match, is_imports, conditions, answer),
                    r => r,
                }
            } else {
                target_from(pkg, key, t, i + 1, pattern_match, is_imports, conditions, answer)
            }
        } else {
            Ok(None)
        },
        JsonValue::Array(items) => if items@.len() == 0 {
            Err(ErrorView::PackagePathNotExported(pattern_match.unwrap_or("."@), json_path(pkg)))
        } else if 0 <= i < items@.len() {
            match target_from(pkg, key, items@[i], 0, pattern_match, is_imports, conditions, answer) {
                Ok(Some(p)) => Ok(Some(p)),
                r => if i + 1 == items@.len() {
                    r
                } else {
                    target_from(pkg, key, t, i + 1, pattern_match, is_imports, conditions, answer)
                },
            }
        } else {
            Ok(None)
        },
        _ => Ok(None),
    }
}

/// PACKAGE_TARGET_RESOLVE(packageURL, target, patternMatch, isImports,
/// conditions), with `key` the key the target stood under.
pub open spec fn target_outcome(
    pkg: Seq<char>,
    key: Seq<char>,
    t: JsonValue,
    pattern_match: Option<Seq<char>>,
    is_imports: bool,
    conditions: Seq<Seq<char>>,
    answer: spec_fn(Seq<char>) -> Outcome,
) -> Outcome {
    target_from(pkg, key, t, 0, pattern_match, is_imports, conditions, answer)
}

/// The texts of a list of strings.
pub open spec fn texts(v: Seq<String>) -> Seq<Seq<char>> {
    v.map_values(|s: String| s@)
}

/// Resolves a specifier that names another package, on behalf of an imports
/// target.
pub trait PackageResolver {
    /// PACKAGE_RESOLVE(specifier, packageURL + "/").
    fn package_resolve(&mut self, package_url: &str, specifier: &str) -> Result<Option<String>, ResolveError>;
}

/// For fields that never name another package, such as `exports`: it is
/// never asked, and would answer that nothing was found.
pub struct NoPackageResolver;

impl PackageResolver for NoPackageResolver {
    /// Nothing found, whatever the question.
    fn package_resolve(&mut self, package_url: &str, specifier: &str) -> (r: Result<Option<String>, ResolveError>)
        ensures
            r matches Ok(None),
    {
        Ok(None)
    }
}

/// One question put to a [`PackageResolver`] and its answer.
pub struct BareCall {
    pub specifier: String,
    pub result: Result<Option<String>, ResolveError>,
}

/// `answer` gives every recorded question its recorded answer.
pub open spec fn answers_agree(answer: spec_fn(Seq<char>) -> Outcome, calls: Seq<BareCall>) -> bool {
    forall|i: int| 0 <= i < calls.len() ==> answer(#[trigger] calls[i].specifier@) == outcome_of(calls[i].result)
}

proof fn lemma_agree_prefix(answer: spec_fn(Seq<char>) -> Outcome, short: Seq<BareCall>, long: Seq<BareCall>)
    requires
        short.len() <= long.len(),
        long.take(short.len() as int) == short,
        answers_agree(answer, long),
    ensures
        answers_agree(answer, short),
{
    assert forall|i: int| 0 <= i < short.len() implies answer(#[trigger] short[i].specifier@) == outcome_of(short[i].result) by {
        assert(long.take(short.len() as int)[i] == long[i]);
        assert(answer(long[i].specifier@) == outcome_of(long[i].result));
    }
}

/// `t` with every `*` replaced by `m`.
pub fn replace_stars_in(t: &str, m: &str) -> (r: String)
    ensures
        r@ == replace_star(t@, m@),
{
    let tc = chars_of(t);
    let mut out = String::new();
    let mut i: usize = 0;
    assert(tc@.take(0) =~= Seq::<char>::empty());
    while i < tc.len()
        invariant
            i <= tc@.len(),
            out@ == replace_star(tc@.take(i as int), m@),
        decreases tc@.len() - i,
    {
        let ghost before = tc@.take(i as int);
        assert(tc@.take(i as int + 1).drop_last() =~= before);
        if tc[i] == '*' {
            out.append(m);
        } else {
            push_char(&mut out, tc[i]);
        }
        i = i + 1;
    }
    assert(tc@.take(tc@.len() as int) =~= tc@);
    out
}

/// The target with the matched part put in (see [`normalized_target`]).
fn normalize_string_target(
    target_key: &str,
    target: &str,
    pattern_match: Option<&str>,
    package_url: &str,
) -> (r: Result<String, ResolveError>)
    ensures
        match r {
            Ok(s) => normalized_target(target_key@, target@, opt_text(pattern_match), package_url@) == Ok::<Seq<char>, ErrorView>(s@),
            Err(e) => normalized_target(target_key@, target@, opt_text(pattern_match), package_url@) == Err::<Seq<char>, ErrorView>(e@),
        },
{
    match pattern_match {
        None => Ok(target.to_owned()),
        Some(m) => {
            let kc = chars_of(target_key);
            let tc = chars_of(target);
            if !chars_contain(&kc, '*') && !chars_contain(&tc, '*') {
                let slash = chars_of("/");
                if chars_end_with(&kc, &slash) && chars_end_with(&tc, &slash) {
                    let mut out = target.to_owned();
                    out.append(m);
                    Ok(out)
                } else {
                    Err(ResolveError::InvalidPackageConfigDirectory(join(package_url, "package.json")))
                }
            } else {
                Ok(replace_stars_in(target, m))
            }
        },
    }
}

/// The text an optional string holds.
pub open spec fn opt_text(s: Option<&str>) -> Option<Seq<char>> {
    match s {
        Some(t) => Some(t@),
        None => None,
    }
}

/// Whether `key` is `default` or one of the conditions.
fn is_selected_condition(key: &String, conditions: &Vec<String>) -> (r: bool)
    ensures
        r == selected_condition(key@, texts(conditions@)),
{
    let d = "default".to_owned();
    if *key == d {
        return true;
    }
    let ghost cs = texts(conditions@);
    let mut i: usize = 0;
    while i < conditions.len()
        invariant
            i <= conditions@.len(),
            cs == texts(conditions@),
            forall|j: int| 0 <= j < i ==> cs[j] != key@,
        decreases conditions@.len() - i,
    {
        if conditions[i] == *key {
            assert(cs[i as int] == key@);
            return true;
        }
        i = i + 1;
    }
    false
}

/// `long` begins with `short`.
pub open spec fn extends(short: Seq<BareCall>, long: Seq<BareCall>) -> bool {
    short.len() <= long.len() && long.take(short.len() as int) == short
}

proof fn lemma_extends_trans(a: Seq<BareCall>, b: Seq<BareCall>, c: Seq<BareCall>)
    requires
        extends(a, b),
        extends(b, c),
    ensures
        extends(a, c),
{
    assert(c.take(a.len() as int) =~= c.take(b.len() as int).take(a.len() as int));
}

/// PACKAGE_TARGET_RESOLVE(packageURL, target, patternMatch, isImports,
/// conditions): the file `target`, found under `target_key` in the package at
/// `package_url`, maps to. Every question put to `resolver` is appended to
/// `calls`, with its answer; `exports` targets put none.
pub fn package_target_resolve<R: PackageResolver>(
    resolver: &mut R,
    package_url: &str,
    target_key: &str,
    target: &JsonValue,
    pattern_match: Option<&str>,
    is_imports: bool,
    conditions: &Vec<String>,
    calls: &mut Vec<BareCall>,
) -> (r: Result<Option<String>, ResolveError>)
    ensures
        extends(old(calls)@, final(calls)@),
        !is_imports ==> final(calls)@ == old(calls)@,
        forall|answer: spec_fn(Seq<char>) -> Outcome|
            #[trigger] answers_agree(answer, final(calls)@) ==> outcome_of(r) == target_outcome(
                package_url@,
                target_key@,
                *target,
                opt_text(pattern_match),
                is_imports,
                texts(conditions@),
                answer,
            ),
    decreases target,
{
    let ghost pkg = package_url@;
    let ghost key = target_key@;
    let ghost pm = opt_text(pattern_match);
    let ghost conds = texts(conditions@);
    let ghost start = calls@;
    assert(calls@.take(calls@.len() as int) =~= calls@);
    match target {
        JsonValue::String(t) => {
            let tc = chars_of(t.as_str());
            if !chars_start_with(&tc, &chars_of("./")) {
                if !is_imports || chars_start_with(&tc, &chars_of("../")) || chars_start_with(&tc, &chars_of("/")) {
                    return Err(ResolveError::InvalidPackageTarget(
                        t.clone(),
                        target_key.to_owned(),
                        join(package_url, "package.json"),
                    ));
                }
                let nt = match normalize_string_target(target_key, t.as_str(), pattern_match, package_url) {
                    Ok(nt) => nt,
                    Err(e) => return Err(e),
                };
                let r = resolver.package_resolve(package_url, nt.as_str());
                let ghost before = calls@;
                calls.push(BareCall { specifier: nt.clone(), result: duplicate_result(&r) });
                proof {
                    assert(calls@.take(before.len() as int) =~= before);
                    assert(extends(before, calls@));
                    lemma_extends_trans(start, before, calls@);
                    assert forall|answer: spec_fn(Seq<char>) -> Outcome|
                        #[trigger] answers_agree(answer, calls@) implies outcome_of(r) == target_outcome(
                            pkg, key, *target, pm, is_imports, conds, answer) by {
                        let last = calls@.len() - 1;
                        assert(calls@[last].specifier@ == nt@);
                        assert(answer(calls@[last].specifier@) == outcome_of(calls@[last].result));
                    }
                }
                return r;
            }
            let nt = match normalize_string_target(target_key, t.as_str(), pattern_match, package_url) {
                Ok(nt) => nt,
                Err(e) => return Err(e),
            };
            if is_invalid_exports_target(nt.as_str()) {
                return Err(ResolveError::InvalidPackageTarget(nt, target_key.to_owned(), join(package_url, "package.json")));
            }
            Ok(Some(normalize_with(package_url, nt.as_str())))
        },
        JsonValue::Object(entries) => {
            let mut i: usize = 0;
            while i < entries.len()
                invariant
                    i <= entries@.len(),
                    *target == JsonValue::Object(*entries),
                    pkg == package_url@,
                    key == target_key@,
                    pm == opt_text(pattern_match),
                    conds == texts(conditions@),
                    start == old(calls)@,
                    extends(start, calls@),
                    !is_imports ==> calls@ == start,
                    forall|answer: spec_fn(Seq<char>) -> Outcome|
                        #[trigger] answers_agree(answer, calls@) ==> target_from(pkg, key, *target, 0, pm, is_imports, conds, answer)
                            == target_from(pkg, key, *target, i as int, pm, is_imports, conds, answer),
                decreases entries@.len() - i,
            {
                let ghost before = calls@;
                if is_selected_condition(&entries[i].0, conditions) {
                    proof {
                        assert((*target)->Object_0 == *entries);
                        assert(decreases_to!(*target => (*target)->Object_0));
                        assert(decreases_to!(*entries => entries@));
                        assert(decreases_to!(entries@ => entries@[i as int]));
                        assert(decreases_to!(entries@[i as int] => entries@[i as int].1));
                        assert(decreases_to!(*target => entries@[i as int].1));
                    }
                    let r = package_target_resolve(
                        resolver,
                        package_url,
                        target_key,
                        &entries[i].1,
                        pattern_match,
                        is_imports,
                        conditions,
                        calls,
                    );
                    proof {
                        lemma_extends_trans(start, before, calls@);
                    }
                    match r {
                        Ok(None) => {
                            proof {
                                assert forall|answer: spec_fn(Seq<char>) -> Outcome|
                                    #[trigger] answers_agree(answer, calls@) implies target_from(pkg, key, *target, 0, pm, is_imports, conds, answer)
                                        == target_from(pkg, key, *target, i + 1, pm, is_imports, conds, answer) by {
                                    lemma_agree_prefix(answer, before, calls@);
                                }
                            }
                        },
                        _ => {
                            proof {
                                assert forall|answer: spec_fn(Seq<char>) -> Outcome|
                                    #[trigger] answers_agree(answer, calls@) implies outcome_of(r) == target_outcome(
                                        pkg, key, *target, pm, is_imports, conds, answer) by {
                                    lemma_agree_prefix(answer, before, calls@);
                                }
                            }
                            return r;
                        },
                    }
                } else {
                    proof {
                        assert forall|answer: spec_fn(Seq<char>) -> Outcome|
                            #[trigger] answers_agree(answer, calls@) implies target_from(pkg, key, *target, 0, pm, is_imports, conds, answer)
                                == target_from(pkg, key, *target, i + 1, pm, is_imports, conds, answer) by {
                        }
                    }
                }
                i = i + 1;
            }
            Ok(None)
        },
        JsonValue::Array(items) => {
            if items.len() == 0 {
                let pm_text = match pattern_match {
                    Some(m) => m.to_owned(),
                    None => ".".to_owned(),
                };
                return Err(ResolveError::PackagePathNotExported(pm_text, join(package_url, "package.json")));
            }
            let mut i: usize = 0;
            while i < items.len()
                invariant
                    i <= items@.len(),
                    items@.len() > 0,
                    *target == JsonValue::Array(*items),
                    pkg == package_url@,
                    key == target_key@,
                    pm == opt_text(pattern_match),
                    conds == texts(conditions@),
                    start == old(calls)@,
                    extends(start, calls@),
                    !is_imports ==> calls@ == start,
                    forall|answer: spec_fn(Seq<char>) -> Outcome|
                        #[trigger] answers_agree(answer, calls@) ==> target_from(pkg, key, *target, 0, pm, is_imports, conds, answer)
                            == target_from(pkg, key, *target, i as int, pm, is_imports, conds, answer),
                decreases items@.len() - i,
            {
                let ghost before = calls@;
                proof {
                    assert((*target)->Array_0 == *items);
                    assert(decreases_to!(*target => (*target)->Array_0));
                    assert(decreases_to!(*items => items@));
                    assert(decreases_to!(items@ => items@[i as int]));
                    assert(decreases_to!(*target => items@[i as int]));
                }
                let r = package_target_resolve(
                    resolver,
                    package_url,
                    target_key,
                    &items[i],
                    pattern_match,
                    is_imports,
                    conditions,
                    calls,
                );
                proof {
                    lemma_extends_trans(start, before, calls@);
                }
                match r {
                    Ok(Some(p)) => {
                        proof {
                            assert forall|answer: spec_fn(Seq<char>) -> Outcome|
                                #[trigger] answers_agree(answer, calls@) implies outcome_of(Ok(Some(p))) == target_outcome(
                                    pkg, key, *target, pm, is_imports, conds, answer) by {
                                lemma_agree_prefix(answer, before, calls@);
                            }
                        }
                        return Ok(Some(p));
                    },
                    _ => {
                        if i + 1 == items.len() {
                            proof {
                                assert forall|answer: spec_fn(Seq<char>) -> Outcome|
                                    #[trigger] answers_agree(answer, calls@) implies outcome_of(r) == target_outcome(
                                        pkg, key, *target, pm, is_imports, conds, answer) by {
                                    lemma_agree_prefix(answer, before, calls@);
                                }
                            }
                            return r;
                        }
                        proof {
                            assert forall|answer: spec_fn(Seq<char>) -> Outcome|
                                #[trigger] answers_agree(answer, calls@) implies target_from(pkg, key, *target, 0, pm, is_imports, conds, answer)
                                    == target_from(pkg, key, *target, i + 1, pm, is_imports, conds, answer) by {
                                lemma_agree_prefix(answer, before, calls@);
                            }
                        }
                    },
                }
                i = i + 1;
            }
            Ok(None)
        },
        _ => Ok(None),
    }
}

/// The part of `match_key` that the key `k` of an `exports` or `imports`
/// object matches, if `k` is a pattern (`"./lib/*.js"`, one `*`) or a folder
/// (`"./lib/"`) that applies to it. A pattern applies when `match_key`
/// starts with the part before the `*` and ends with the part after it, and
/// is at least as long as the key in bytes; the match is what lies between.
pub open spec fn expansion_match(match_key: Seq<char>, k: Seq<char>) -> Option<Seq<char>> {
    if !(starts_with(k, "./"@) || starts_with(k, "#"@)) {
        None
    } else {
        match index_of(k, '*') {
            Some(p) => {
                let base = k.take(p);
                let trailer = k.skip(p + 1);
                if starts_with(match_key, base) && !trailer.contains('*') && (trailer.len() == 0 || (
                utf8_len(match_key) >= utf8_len(k) && ends_with(match_key, trailer))) {
                    Some(match_key.subrange(base.len() as int, match_key.len() - trailer.len()))
                } else {
                    None
                }
            },
            None => if k.len() > 0 && k.last() == '/' && starts_with(match_key, k) {
                Some(match_key.skip(k.len() as int))
            } else {
                None
            },
        }
    }
}

proof fn lemma_pattern_fits(mk: Seq<char>, k: Seq<char>, p: int)
    requires
        0 <= p < k.len(),
        k[p] == '*',
        starts_with(mk, k.take(p)),
        ends_with(mk, k.skip(p + 1)),
        utf8_len(mk) >= utf8_len(k),
    ensures
        k.take(p).len() + k.skip(p + 1).len() <= mk.len(),
{
    let base = k.take(p);
    let t = k.skip(p + 1);
    assert(k =~= base + seq!['*'] + t);
    lemma_utf8_concat(base + seq!['*'], t);
    lemma_utf8_concat(base, seq!['*']);
    lemma_utf8_len_ascii('*');
    if base.len() + t.len() > mk.len() {
        let rest = mk.skip(p);
        let rl = rest.len();
        assert(mk =~= base + rest);
        lemma_utf8_concat(base, rest);
        assert(rest =~= t.skip(t.len() - rl)) by {
            assert forall|j: int| 0 <= j < rl implies rest[j] == t.skip(t.len() - rl)[j] by {
                assert(mk.skip(mk.len() - t.len())[j + t.len() - rl] == t[j + t.len() - rl]);
            }
        }
        assert(t =~= t.take(t.len() - rl) + rest);
        lemma_utf8_concat(t.take(t.len() - rl), rest);
        lemma_utf8_len_at_least(t.take(t.len() - rl));
        assert(false);
    }
}

/// The key has exactly one `*`, the one at `p`.
proof fn lemma_single_star(k: Seq<char>, p: int)
    requires
        0 <= p < k.len(),
        k[p] == '*',
        forall|j: int| 0 <= j < p ==> k[j] != '*',
        !k.skip(p + 1).contains('*'),
    ensures
        count_of(k, '*') == 1,
{
    let base = k.take(p);
    let t = k.skip(p + 1);
    assert(k =~= base + (seq!['*'] + t));
    lemma_count_concat(base, seq!['*'] + t, '*');
    lemma_count_concat(seq!['*'], t, '*');
    lemma_count_zero(base, '*');
    lemma_count_zero(t, '*');
    assert(seq!['*'].drop_last() =~= Seq::<char>::empty());
    assert(count_of(Seq::<char>::empty(), '*') == 0);
    assert(seq!['*'].last() == '*');
    assert(count_of(seq!['*'], '*') == 1);
    if base.contains('*') {
        let j = choose|j: int| 0 <= j < base.len() && base[j] == '*';
        assert(k[j] == '*');
    }
}

/// The part of `match_key` that `key` matches (see [`expansion_match`]).
fn expansion_of(match_key: &str, key: &str) -> (r: Option<String>)
    ensures
        match r {
            Some(m) => expansion_match(match_key@, key@) == Some(m@),
            None => expansion_match(match_key@, key@).is_none(),
        },
        r.is_some() ==> is_pattern_key(key@),
{
    let kc = chars_of(key);
    let mc = chars_of(match_key);
    if !(chars_start_with(&kc, &chars_of("./")) || chars_start_with(&kc, &chars_of("#"))) {
        return None;
    }
    proof {
        lemma_index_of_from(kc@, '*', 0);
    }
    match star_index(&kc) {
        Some(p) => {
            let klen = kc.len();
            assert(p < klen);
            let base = sub_chars(&kc, 0, p);
            let trailer = sub_chars(&kc, p + 1, kc.len());
            proof {
                assert(base@ =~= kc@.take(p as int));
                assert(trailer@ =~= kc@.skip(p as int + 1));
            }
            if chars_start_with(&mc, &base) && !chars_contain(&trailer, '*') && (trailer.len() == 0 || (
            match_key.as_bytes().len() >= key.as_bytes().len() && chars_end_with(&mc, &trailer))) {
                proof {
                    if trailer@.len() > 0 {
                        lemma_pattern_fits(mc@, kc@, p as int);
                    }
                    lemma_single_star(kc@, p as int);
                }
                Some(substring(&mc, base.len(), mc.len() - trailer.len()))
            } else {
                None
            }
        },
        None => {
            if kc.len() > 0 && kc[kc.len() - 1] == '/' && chars_start_with(&mc, &kc) {
                Some(substring(&mc, kc.len(), mc.len()))
            } else {
                None
            }
        },
    }
}

/// The most specific key among the first `n` entries that applies to
/// `match_key`, with its value and the part of `match_key` it matches; of keys
/// that rank alike, the first.
pub open spec fn best_expansion(match_key: Seq<char>, entries: Seq<(String, JsonValue)>, n: int) -> Option<
    (Seq<char>, JsonValue, Seq<char>),
>
    decreases n,
{
    if n <= 0 {
        None
    } else {
        let prev = best_expansion(match_key, entries, n - 1);
        let k = entries[n - 1].0@;
        let best_key = match prev {
            Some(b) => b.0,
            None => Seq::empty(),
        };
        match expansion_match(match_key, k) {
            Some(m) => if pattern_key_order(best_key, k) == 1 {
                Some((k, entries[n - 1].1, m))
            } else {
                prev
            },
            None => prev,
        }
    }
}

/// PACKAGE_IMPORTS_EXPORTS_RESOLVE(matchKey, matchObj, packageURL, isImports,
/// conditions). A key that ends in `/` maps to nothing; a key without `*`
/// found as it is resolves its value; otherwise the most specific pattern or
/// folder key that applies resolves its value with what it matched; with none,
/// nothing.
pub open spec fn imports_exports_outcome(
    match_key: Seq<char>,
    entries: Seq<(String, JsonValue)>,
    pkg: Seq<char>,
    is_imports: bool,
    conditions: Seq<Seq<char>>,
    answer: spec_fn(Seq<char>) -> Outcome,
) -> Outcome {
    if match_key.len() > 0 && match_key.last() == '/' {
        Ok(None)
    } else if !match_key.contains('*') && obj_get(entries, match_key) is Some {
        target_outcome(pkg, match_key, obj_get(entries, match_key).unwrap(), None, is_imports, conditions, answer)
    } else {
        match best_expansion(match_key, entries, entries.len() as int) {
            Some(b) => target_outcome(pkg, b.0, b.1, Some(b.2), is_imports, conditions, answer),
            None => Ok(None),
        }
    }
}

/// PACKAGE_IMPORTS_EXPORTS_RESOLVE(matchKey, matchObj, packageURL, isImports,
/// conditions): the file `match_key` maps to through the object `match_obj`
/// of the package at `package_url`.
pub fn package_imports_exports_resolve<R: PackageResolver>(
    resolver: &mut R,
    match_key: &str,
    match_obj: &Vec<(String, JsonValue)>,
    package_url: &str,
    is_imports: bool,
    conditions: &Vec<String>,
    calls: &mut Vec<BareCall>,
) -> (r: Result<Option<String>, ResolveError>)
    ensures
        extends(old(calls)@, final(calls)@),
        !is_imports ==> final(calls)@ == old(calls)@,
        forall|answer: spec_fn(Seq<char>) -> Outcome|
            #[trigger] answers_agree(answer, final(calls)@) ==> outcome_of(r) == imports_exports_outcome(
                match_key@,
                match_obj@,
                package_url@,
                is_imports,
                texts(conditions@),
                answer,
            ),
{
    assert(calls@.take(calls@.len() as int) =~= calls@);
    let mc = chars_of(match_key);
    if mc.len() > 0 && mc[mc.len() - 1] == '/' {
        return Ok(None);
    }
    if !chars_contain(&mc, '*') {
        if let Some(target) = object_get(match_obj, match_key) {
            return package_target_resolve(resolver, package_url, match_key, target, None, is_imports, conditions, calls);
        }
    }
    let mut best: Option<usize> = None;
    let mut best_key = String::new();
    let mut best_match = String::new();
    let mut i: usize = 0;
    while i < match_obj.len()
        invariant
            i <= match_obj@.len(),
            match best_expansion(match_key@, match_obj@, i as int) {
                None => best.is_none() && best_key@ == Seq::<char>::empty(),
                Some(b) => {
                    &&& best.is_some()
                    &&& best.unwrap() < i
                    &&& best_key@ == b.0
                    &&& match_obj@[best.unwrap() as int].1 == b.1
                    &&& best_match@ == b.2
                },
            },
            best_key@.len() == 0 || is_pattern_key(best_key@),
        decreases match_obj@.len() - i,
    {
        let key = &match_obj[i].0;
        if let Some(m) = expansion_of(match_key, key.as_str()) {
            if key_outranks(best_key.as_str(), key.as_str()) {
                best = Some(i);
                best_key = key.clone();
                best_match = m;
            }
        }
        i = i + 1;
    }
    match best {
        Some(j) => package_target_resolve(
            resolver,
            package_url,
            best_key.as_str(),
            &match_obj[j].1,
            Some(best_match.as_str()),
            is_imports,
            conditions,
            calls,
        ),
        None => Ok(None),
    }
}

/// A key that starts with `.` or `#`, as subpath keys do; other keys are
/// conditions.
pub open spec fn dot_or_hash_key(k: Seq<char>) -> bool {
    k.len() > 0 && (k[0] == '.' || k[0] == '#')
}

/// The object mixes subpath keys and condition keys.
pub open spec fn mixed_keys(entries: Seq<(String, JsonValue)>) -> bool {
    &&& exists|i: int| 0 <= i < entries.len() && dot_or_hash_key(#[trigger] entries[i].0@)
    &&& exists|j: int| 0 <= j < entries.len() && !dot_or_hash_key(#[trigger] entries[j].0@)
}

/// The export of the package's main entry (`"."`): a string or array
/// `exports`; the value under `"."`; or, for an object with no subpath keys
/// (`"./.."`, `"#.."`), the object itself.
pub open spec fn main_export(exports: JsonValue) -> Option<JsonValue> {
    match exports {
        JsonValue::String(_) => Some(exports),
        JsonValue::Array(_) => Some(exports),
        JsonValue::Object(entries) => match obj_get(entries@, "."@) {
            Some(v) => Some(v),
            None => if exists|i: int|
                0 <= i < entries@.len() && (starts_with(#[trigger] entries@[i].0@, "./"@) || starts_with(
                    entries@[i].0@,
                    "#"@,
                )) {
                None
            } else {
                Some(exports)
            },
        },
        _ => None,
    }
}

/// The answer for fields that never name another package.
pub open spec fn no_answer() -> spec_fn(Seq<char>) -> Outcome {
    |s: Seq<char>| Ok::<Option<Seq<char>>, ErrorView>(None)
}

/// PACKAGE_EXPORTS_RESOLVE(packageURL, subpath, exports, conditions), with
/// `subpath` written with its leading dot (`"."`, `"./lib/a.js"`) and the
/// query and fragment of the request. An object mixing subpath and condition
/// keys is an invalid configuration. The main entry with a query or fragment
/// is not exported; otherwise the main export resolves it, when there is one
/// that resolves. Then an object's keys are matched; with no match the
/// subpath is not exported.
pub open spec fn exports_outcome(
    pkg: Seq<char>,
    subpath: Seq<char>,
    exports: JsonValue,
    conditions: Seq<Seq<char>>,
    query: Option<Seq<char>>,
    fragment: Option<Seq<char>>,
) -> Outcome {
    let jp = json_path(pkg);
    if exports is Object && mixed_keys(exports->Object_0@) {
        Err(ErrorView::InvalidPackageConfig(jp))
    } else if subpath == "."@ && (query is Some || fragment is Some) {
        Err(
            ErrorView::PackagePathNotExported(
                "./"@ + query.unwrap_or(Seq::empty()) + fragment.unwrap_or(Seq::empty()),
                jp,
            ),
        )
    } else {
        let main = if subpath == "."@ {
            match main_export(exports) {
                Some(me) => target_outcome(pkg, "."@, me, None, false, conditions, no_answer()),
                None => Ok(None),
            }
        } else {
            Ok(None)
        };
        match main {
            Ok(None) => {
                let sub = match exports {
                    JsonValue::Object(entries) => imports_exports_outcome(
                        subpath,
                        entries@,
                        pkg,
                        false,
                        conditions,
                        no_answer(),
                    ),
                    _ => Ok(None),
                };
                match sub {
                    Ok(None) => Err(ErrorView::PackagePathNotExported(subpath, jp)),
                    r => r,
                }
            },
            r => r,
        }
    }
}

/// Whether the object mixes subpath keys and condition keys.
fn has_mixed_keys(entries: &Vec<(String, JsonValue)>) -> (r: bool)
    ensures
        r == mixed_keys(entries@),
{
    let mut has_dot = false;
    let mut without_dot = false;
    let mut i: usize = 0;
    while i < entries.len()
        invariant
            i <= entries@.len(),
            has_dot == exists|j: int| 0 <= j < i && dot_or_hash_key(#[trigger] entries@[j].0@),
            without_dot == exists|j: int| 0 <= j < i && !dot_or_hash_key(#[trigger] entries@[j].0@),
            !(has_dot && without_dot),
        decreases entries@.len() - i,
    {
        let k = chars_of(entries[i].0.as_str());
        let dot = k.len() > 0 && (k[0] == '.' || k[0] == '#');
        assert(dot == dot_or_hash_key(entries@[i as int].0@));
        has_dot = has_dot || dot;
        without_dot = without_dot || !dot;
        if has_dot && without_dot {
            return true;
        }
        i = i + 1;
    }
    false
}

/// The main export of `exports` (see [`main_export`]).
fn main_export_of(exports: &JsonValue) -> (r: Option<&JsonValue>)
    ensures
        match r {
            Some(v) => main_export(*exports) == Some(*v),
            None => main_export(*exports).is_none(),
        },
{
    match exports {
        JsonValue::String(_) => Some(exports),
        JsonValue::Array(_) => Some(exports),
        JsonValue::Object(entries) => {
            if let Some(v) = object_get(entries, ".") {
                return Some(v);
            }
            let dot_slash = chars_of("./");
            let hash = chars_of("#");
            let mut i: usize = 0;
            while i < entries.len()
                invariant
                    i <= entries@.len(),
                    *exports == JsonValue::Object(*entries),
                    obj_get(entries@, "."@).is_none(),
                    dot_slash@ == "./"@,
                    hash@ == "#"@,
                    forall|j: int|
                        0 <= j < i ==> !(starts_with(#[trigger] entries@[j].0@, "./"@) || starts_with(
                            entries@[j].0@,
                            "#"@,
                        )),
                decreases entries@.len() - i,
            {
                let k = chars_of(entries[i].0.as_str());
                if chars_start_with(&k, &dot_slash) || chars_start_with(&k, &hash) {
                    assert(starts_with(entries@[i as int].0@, "./"@) || starts_with(entries@[i as int].0@, "#"@));
                    return None;
                }
                i = i + 1;
            }
            Some(exports)
        },
        _ => None,
    }
}

/// PACKAGE_EXPORTS_RESOLVE(packageURL, subpath, exports, conditions): the
/// file that `subpath` (with its leading dot: `"."`, `"./lib/a.js"`) maps to
/// through the `exports` field of the package at `package_url`, for a request
/// with the given query and fragment.
pub fn package_exports_resolve(
    package_url: &str,
    subpath: &str,
    exports: &JsonValue,
    conditions: &Vec<String>,
    query: &Option<String>,
    fragment: &Option<String>,
) -> (r: Result<Option<String>, ResolveError>)
    ensures
        outcome_of(r) == exports_outcome(
            package_url@,
            subpath@,
            *exports,
            texts(conditions@),
            opt_string_text(*query),
            opt_string_text(*fragment),
        ),
{
    if let JsonValue::Object(entries) = exports {
        if has_mixed_keys(entries) {
            return Err(ResolveError::InvalidPackageConfig(join(package_url, "package.json")));
        }
    }
    let is_main = crate::text::str_eq(subpath, ".");
    let mut none = NoPackageResolver;
    if is_main {
        if query.is_some() || fragment.is_some() {
            let mut text = "./".to_owned();
            if let Some(q) = query {
                text.append(q.as_str());
            }
            if let Some(f) = fragment {
                text.append(f.as_str());
            }
            proof {
                assert(text@ =~= "./"@ + opt_string_text(*query).unwrap_or(Seq::empty()) + opt_string_text(
                    *fragment,
                ).unwrap_or(Seq::empty()));
            }
            return Err(ResolveError::PackagePathNotExported(text, join(package_url, "package.json")));
        }
        if let Some(main) = main_export_of(exports) {
            let mut calls: Vec<BareCall> = Vec::new();
            let resolved = package_target_resolve(&mut none, package_url, ".", main, None, false, conditions, &mut calls);
            proof {
                assert(answers_agree(no_answer(), calls@));
            }
            match resolved {
                Ok(None) => {},
                r => return r,
            }
        }
    }
    if let JsonValue::Object(entries) = exports {
        let mut calls: Vec<BareCall> = Vec::new();
        let resolved = package_imports_exports_resolve(&mut none, subpath, entries, package_url, false, conditions, &mut calls);
        proof {
            assert(answers_agree(no_answer(), calls@));
        }
        match resolved {
            Ok(None) => {},
            r => return r,
        }
    }
    Err(ResolveError::PackagePathNotExported(subpath.to_owned(), join(package_url, "package.json")))
}

/// PACKAGE_IMPORTS_RESOLVE over the imports fields, from the `i`-th on: the
/// first that maps the specifier to something or fails; with none, the
/// import is not defined.
pub open spec fn imports_from(
    specifier: Seq<char>,
    fields: Seq<Vec<(String, JsonValue)>>,
    i: int,
    package_json_path: Seq<char>,
    pkg: Seq<char>,
    conditions: Seq<Seq<char>>,
    answer: spec_fn(Seq<char>) -> Outcome,
) -> Outcome
    decreases fields.len() - i,
{
    if i < 0 || i >= fields.len() {
        Err(ErrorView::PackageImportNotDefined(specifier, package_json_path))
    } else {
        match imports_exports_outcome(specifier, fields[i]@, pkg, true, conditions, answer) {
            Ok(None) => imports_from(specifier, fields, i + 1, package_json_path, pkg, conditions, answer),
            r => r,
        }
    }
}

/// PACKAGE_IMPORTS_RESOLVE(specifier, parentURL, conditions): with no
/// imports field, nothing; `#` and `#/..` are invalid specifiers; otherwise
/// the first field that maps the specifier.
pub open spec fn imports_outcome(
    specifier: Seq<char>,
    fields: Seq<Vec<(String, JsonValue)>>,
    package_json_path: Seq<char>,
    pkg: Seq<char>,
    conditions: Seq<Seq<char>>,
    answer: spec_fn(Seq<char>) -> Outcome,
) -> Outcome {
    if fields.len() == 0 {
        Ok(None)
    } else if specifier == "#"@ || starts_with(specifier, "#/"@) {
        Err(ErrorView::InvalidModuleSpecifier(specifier, package_json_path))
    } else {
        imports_from(specifier, fields, 0, package_json_path, pkg, conditions, answer)
    }
}

/// PACKAGE_IMPORTS_RESOLVE(specifier, parentURL, conditions): the file the
/// imports specifier (`#name..`) maps to through the imports fields of the
/// `package.json` at `package_json_path`, in the package at `package_url`.
pub fn package_imports_resolve<R: PackageResolver>(
    resolver: &mut R,
    specifier: &str,
    imports_fields: &Vec<Vec<(String, JsonValue)>>,
    package_json_path: &str,
    package_url: &str,
    conditions: &Vec<String>,
    calls: &mut Vec<BareCall>,
) -> (r: Result<Option<String>, ResolveError>)
    ensures
        extends(old(calls)@, final(calls)@),
        forall|answer: spec_fn(Seq<char>) -> Outcome|
            #[trigger] answers_agree(answer, final(calls)@) ==> outcome_of(r) == imports_outcome(
                specifier@,
                imports_fields@,
                package_json_path@,
                package_url@,
                texts(conditions@),
                answer,
            ),
{
    assert(calls@.take(calls@.len() as int) =~= calls@);
    if imports_fields.len() == 0 {
        return Ok(None);
    }
    let sc = chars_of(specifier);
    if crate::text::str_eq(specifier, "#") || chars_start_with(&sc, &chars_of("#/")) {
        return Err(ResolveError::InvalidModuleSpecifier(specifier.to_owned(), package_json_path.to_owned()));
    }
    let ghost start = calls@;
    let ghost fields = imports_fields@;
    let ghost conds = texts(conditions@);
    let mut i: usize = 0;
    while i < imports_fields.len()
        invariant
            i <= fields.len(),
            fields.len() > 0,
            !(specifier@ == "#"@ || starts_with(specifier@, "#/"@)),
            fields == imports_fields@,
            conds == texts(conditions@),
            start == old(calls)@,
            extends(start, calls@),
            forall|answer: spec_fn(Seq<char>) -> Outcome|
                #[trigger] answers_agree(answer, calls@) ==> imports_from(specifier@, fields, 0, package_json_path@, package_url@, conds, answer)
                    == imports_from(specifier@, fields, i as int, package_json_path@, package_url@, conds, answer),
        decreases fields.len() - i,
    {
        let ghost before = calls@;
        let r = package_imports_exports_resolve(
            resolver,
            specifier,
            &imports_fields[i],
            package_url,
            true,
            conditions,
            calls,
        );
        proof {
            lemma_extends_trans(start, before, calls@);
        }
        match r {
            Ok(None) => {
                proof {
                    assert forall|answer: spec_fn(Seq<char>) -> Outcome|
                        #[trigger] answers_agree(answer, calls@) implies imports_from(specifier@, fields, 0, package_json_path@, package_url@, conds, answer)
                            == imports_from(specifier@, fields, i + 1, package_json_path@, package_url@, conds, answer) by {
                        lemma_agree_prefix(answer, before, calls@);
                    }
                }
            },
            _ => {
                proof {
                    assert forall|answer: spec_fn(Seq<char>) -> Outcome|
                        #[trigger] answers_agree(answer, calls@) implies outcome_of(r) == imports_outcome(
                            specifier@, fields, package_json_path@, package_url@, conds, answer) by {
                        lemma_agree_prefix(answer, before, calls@);
                    }
                }
                return r;
            },
        }
        i = i + 1;
    }
    Err(ResolveError::PackageImportNotDefined(specifier.to_owned(), package_json_path.to_owned()))
}

/// An `exports` string is shorthand for an object that maps the main entry
/// `"."` to it: the two resolve every subpath alike, for every request.
pub proof fn lemma_string_exports_is_main_entry_shorthand(
    pkg: Seq<char>,
    subpath: Seq<char>,
    target: String,
    entries: Vec<(String, JsonValue)>,
    conditions: Seq<Seq<char>>,
    query: Option<Seq<char>>,
    fragment: Option<Seq<char>>,
)
    requires
        entries@.len() == 1,
        entries@[0].0@ == "."@,
        entries@[0].1 == JsonValue::String(target),
    ensures
        exports_outcome(pkg, subpath, JsonValue::String(target), conditions, query, fragment) == exports_outcome(
            pkg,
            subpath,
            JsonValue::Object(entries),
            conditions,
            query,
            fragment,
        ),
{
    reveal_strlit(".");
    reveal_strlit("./");
    reveal_strlit("#");
    let e = entries@;
    let obj = JsonValue::Object(entries);
    assert(!mixed_keys(e)) by {
        if mixed_keys(e) {
            let i = choose|i: int| 0 <= i < e.len() && dot_or_hash_key(#[trigger] e[i].0@);
            let j = choose|j: int| 0 <= j < e.len() && !dot_or_hash_key(#[trigger] e[j].0@);
            assert(i == 0 && j == 0);
        }
    }
    assert(obj_get(e, "."@) == Some(JsonValue::String(target)));
    assert(main_export(obj) == Some(JsonValue::String(target)));
    assert(!starts_with("."@, "./"@));
    assert(!starts_with("."@, "#"@)) by {
        assert("."@.take(1) =~= "."@);
        assert("."@[0] != "#"@[0]);
    }
    assert(expansion_match(subpath, "."@) is None);
    assert(e.drop_first() =~= Seq::<(String, JsonValue)>::empty());
    assert(best_expansion(subpath, e, 0) is None);
    assert(best_expansion(subpath, e, 1) is None);
    if subpath != "."@ {
        assert(obj_get(e.drop_first(), subpath) is None);
        assert(obj_get(e, subpath) is None);
        assert(imports_exports_outcome(subpath, e, pkg, false, conditions, no_answer()) == Ok::<
            Option<Seq<char>>,
            ErrorView,
        >(None));
    } else {
        assert(!("."@.len() > 0 && "."@.last() == '/'));
        assert(!"."@.contains('*')) by {
            if "."@.contains('*') {
                let k = choose|k: int| 0 <= k < "."@.len() && "."@[k] == '*';
                assert(k == 0);
            }
        }
        assert(imports_exports_outcome(subpath, e, pkg, false, conditions, no_answer()) == target_outcome(
            pkg,
            "."@,
            JsonValue::String(target),
            None,
            false,
            conditions,
            no_answer(),
        ));
    }
}

proof fn lemma_replace_star_first(t: Seq<char>, m: Seq<char>)
    requires
        t.len() > 0,
        t[0] != '*',
    ensures
        replace_star(t, m).len() > 0,
        replace_star(t, m)[0] == t[0],
    decreases t.len(),
{
    if t.len() > 1 {
        let d = t.drop_last();
        assert(d[0] == t[0]);
        lemma_replace_star_first(d, m);
    } else {
        assert(t.drop_last() =~= Seq::<char>::empty());
        assert(replace_star(t.drop_last(), m) =~= Seq::<char>::empty());
        assert(replace_star(t, m) =~= seq![t[0]]);
    }
}

/// A target inside the package stays relative once the match is put in.
proof fn lemma_normalized_target_relative(
    key: Seq<char>,
    target: Seq<char>,
    pattern_match: Option<Seq<char>>,
    pkg: Seq<char>,
)
    requires
        starts_with(target, "./"@),
    ensures
        match normalized_target(key, target, pattern_match, pkg) {
            Ok(t) => t.len() > 0 && t[0] == '.',
            Err(_) => true,
        },
{
    reveal_strlit("./");
    assert(target[0] == target.take(2)[0]);
    match pattern_match {
        None => {},
        Some(m) => {
            if !key.contains('*') && !target.contains('*') {
                assert((target + m)[0] == target[0]);
            } else {
                lemma_replace_star_first(target, m);
            }
        },
    }
}

/// A target that is not refused has no `..` segment.
proof fn lemma_valid_target_no_parents(t: Seq<char>)
    requires
        !is_invalid_target_path(t),
    ensures
        no_parent_segments(path_segments(t)),
{
    assert forall|i: int| 0 <= i < path_segments(t).len() implies #[trigger] path_segments(t)[i] != seq!['.', '.'] by {
        if path_segments(t)[i] == seq!['.', '.'] {
            assert(is_invalid_target_path(t));
        }
    }
}

/// Whatever an `exports` target resolves to lies inside the package.
proof fn lemma_target_from_inside(
    pkg: Seq<char>,
    key: Seq<char>,
    t: JsonValue,
    i: int,
    pattern_match: Option<Seq<char>>,
    conditions: Seq<Seq<char>>,
    answer: spec_fn(Seq<char>) -> Outcome,
)
    requires
        is_absolute_path(pkg),
        no_parent_segments(path_segments(pkg)),
    ensures
        forall|p: Seq<char>|
            target_from(pkg, key, t, i, pattern_match, false, conditions, answer) == Ok::<Option<Seq<char>>, ErrorView>(
                Some(p),
            ) ==> restriction_holds(pkg, p),
    decreases t, child_count(t) - i,
{
    match t {
        JsonValue::String(s) => {
            let target = s@;
            if starts_with(target, "./"@) {
                lemma_normalized_target_relative(key, target, pattern_match, pkg);
                match normalized_target(key, target, pattern_match, pkg) {
                    Ok(nt) => {
                        if !is_invalid_target_path(nt) {
                            lemma_valid_target_no_parents(nt);
                            lemma_join_stays_inside(pkg, nt);
                        }
                    },
                    Err(_) => {},
                }
            }
        },
        JsonValue::Object(entries) => {
            if 0 <= i < entries@.len() {
                assert(decreases_to!(t => t->Object_0));
                assert(decreases_to!(t->Object_0 => entries@));
                assert(decreases_to!(entries@ => entries@[i]));
                assert(decreases_to!(entries@[i] => entries@[i].1));
                lemma_target_from_inside(pkg, key, entries@[i].1, 0, pattern_match, conditions, answer);
                lemma_target_from_inside(pkg, key, t, i + 1, pattern_match, conditions, answer);
            }
        },
        JsonValue::Array(items) => {
            if 0 <= i < items@.len() {
                assert(decreases_to!(t => t->Array_0));
                assert(decreases_to!(t->Array_0 => items@));
                assert(decreases_to!(items@ => items@[i]));
                lemma_target_from_inside(pkg, key, items@[i], 0, pattern_match, conditions, answer);
                lemma_target_from_inside(pkg, key, t, i + 1, pattern_match, conditions, answer);
            }
        },
        _ => {},
    }
}

/// In a conditions object, the entries from the `i`-th up to the `j`-th,
/// each of which does not apply or resolves to nothing, are passed over.
proof fn lemma_conditions_passed_over(
    pkg: Seq<char>,
    key: Seq<char>,
    t: JsonValue,
    i: int,
    j: int,
    pattern_match: Option<Seq<char>>,
    is_imports: bool,
    conditions: Seq<Seq<char>>,
    answer: spec_fn(Seq<char>) -> Outcome,
)
    requires
        t is Object,
        0 <= i <= j <= t->Object_0@.len(),
        forall|m: int|
            i <= m < j ==> !selected_condition(#[trigger] t->Object_0@[m].0@, conditions) || target_outcome(
                pkg,
                key,
                t->Object_0@[m].1,
                pattern_match,
                is_imports,
                conditions,
                answer,
            ) == Ok::<Option<Seq<char>>, ErrorView>(None),
    ensures
        target_from(pkg, key, t, i, pattern_match, is_imports, conditions, answer) == target_from(
            pkg,
            key,
            t,
            j,
            pattern_match,
            is_imports,
            conditions,
            answer,
        ),
    decreases j - i,
{
    if i < j {
        lemma_conditions_passed_over(pkg, key, t, i + 1, j, pattern_match, is_imports, conditions, answer);
    }
}

/// A conditions object resolves through its first entry that applies (its
/// key is `default` or one of the conditions) and resolves to something:
/// entries that apply but resolve to nothing are passed over, and so are
/// those that do not apply. When no entry applies and resolves to
/// something, the object resolves to nothing.
pub proof fn lemma_conditions_object_first_applying_result(
    pkg: Seq<char>,
    key: Seq<char>,
    entries: Vec<(String, JsonValue)>,
    pattern_match: Option<Seq<char>>,
    is_imports: bool,
    conditions: Seq<Seq<char>>,
    answer: spec_fn(Seq<char>) -> Outcome,
)
    ensures
        forall|j: int|
            0 <= j < entries@.len() && selected_condition(#[trigger] entries@[j].0@, conditions) && target_outcome(
                pkg,
                key,
                entries@[j].1,
                pattern_match,
                is_imports,
                conditions,
                answer,
            ) != Ok::<Option<Seq<char>>, ErrorView>(None) && (forall|m: int|
                0 <= m < j ==> !selected_condition(#[trigger] entries@[m].0@, conditions) || target_outcome(
                    pkg,
                    key,
                    entries@[m].1,
                    pattern_match,
                    is_imports,
                    conditions,
                    answer,
                ) == Ok::<Option<Seq<char>>, ErrorView>(None)) ==> target_outcome(
                pkg,
                key,
                JsonValue::Object(entries),
                pattern_match,
                is_imports,
                conditions,
                answer,
            ) == target_outcome(pkg, key, entries@[j].1, pattern_match, is_imports, conditions, answer),
        (forall|m: int|
            0 <= m < entries@.len() ==> !selected_condition(#[trigger] entries@[m].0@, conditions) || target_outcome(
                pkg,
                key,
                entries@[m].1,
                pattern_match,
                is_imports,
                conditions,
                answer,
            ) == Ok::<Option<Seq<char>>, ErrorView>(None)) ==> target_outcome(
            pkg,
            key,
            JsonValue::Object(entries),
            pattern_match,
            is_imports,
            conditions,
            answer,
        ) == Ok::<Option<Seq<char>>, ErrorView>(None),
{
    let t = JsonValue::Object(entries);
    assert forall|j: int|
        0 <= j < entries@.len() && selected_condition(#[trigger] entries@[j].0@, conditions) && target_outcome(
            pkg,
            key,
            entries@[j].1,
            pattern_match,
            is_imports,
            conditions,
            answer,
        ) != Ok::<Option<Seq<char>>, ErrorView>(None) && (forall|m: int|
            0 <= m < j ==> !selected_condition(#[trigger] entries@[m].0@, conditions) || target_outcome(
                pkg,
                key,
                entries@[m].1,
                pattern_match,
                is_imports,
                conditions,
                answer,
            ) == Ok::<Option<Seq<char>>, ErrorView>(None)) implies target_outcome(
        pkg,
        key,
        t,
        pattern_match,
        is_imports,
        conditions,
        answer,
    ) == target_outcome(pkg, key, entries@[j].1, pattern_match, is_imports, conditions, answer) by {
        lemma_conditions_passed_over(pkg, key, t, 0, j, pattern_match, is_imports, conditions, answer);
    }
    if forall|m: int|
        0 <= m < entries@.len() ==> !selected_condition(#[trigger] entries@[m].0@, conditions) || target_outcome(
            pkg,
            key,
            entries@[m].1,
            pattern_match,
            is_imports,
            conditions,
            answer,
        ) == Ok::<Option<Seq<char>>, ErrorView>(None) {
        lemma_conditions_passed_over(
            pkg,
            key,
            t,
            0,
            entries@.len() as int,
            pattern_match,
            is_imports,
            conditions,
            answer,
        );
    }
}

/// A match key with no `*` that is itself a key of the imports or exports
/// object (and names no folder) resolves through that key's own target,
/// whatever pattern keys also match it; so an imports specifier that is a
/// key of the package's one imports field maps through that key's target,
/// unless that target gives nothing.
pub proof fn lemma_exact_key_before_patterns(
    match_key: Seq<char>,
    entries: Vec<(String, JsonValue)>,
    package_json_path: Seq<char>,
    pkg: Seq<char>,
    is_imports: bool,
    conditions: Seq<Seq<char>>,
    answer: spec_fn(Seq<char>) -> Outcome,
)
    requires
        !match_key.contains('*'),
        !(match_key.len() > 0 && match_key.last() == '/'),
        obj_get(entries@, match_key) is Some,
    ensures
        imports_exports_outcome(match_key, entries@, pkg, is_imports, conditions, answer) == target_outcome(
            pkg,
            match_key,
            obj_get(entries@, match_key).unwrap(),
            None,
            is_imports,
            conditions,
            answer,
        ),
        !(match_key == "#"@ || starts_with(match_key, "#/"@)) && target_outcome(
            pkg,
            match_key,
            obj_get(entries@, match_key).unwrap(),
            None,
            true,
            conditions,
            answer,
        ) != Ok::<Option<Seq<char>>, ErrorView>(None) ==> imports_outcome(
            match_key,
            seq![entries],
            package_json_path,
            pkg,
            conditions,
            answer,
        ) == target_outcome(pkg, match_key, obj_get(entries@, match_key).unwrap(), None, true, conditions, answer),
{
}

/// Every file the `exports` field of a package maps a subpath to lies inside
/// the package's folder (for a package folder written as an absolute path
/// with no `..` segment): no target can reach outside it.
pub proof fn lemma_exports_stay_inside_package(
    pkg: Seq<char>,
    subpath: Seq<char>,
    exports: JsonValue,
    conditions: Seq<Seq<char>>,
    query: Option<Seq<char>>,
    fragment: Option<Seq<char>>,
)
    requires
        is_absolute_path(pkg),
        no_parent_segments(path_segments(pkg)),
    ensures
        forall|p: Seq<char>|
            exports_outcome(pkg, subpath, exports, conditions, query, fragment) == Ok::<Option<Seq<char>>, ErrorView>(
                Some(p),
            ) ==> restriction_holds(pkg, p),
{
    if subpath == "."@ {
        match main_export(exports) {
            Some(me) => lemma_target_from_inside(pkg, "."@, me, 0, None, conditions, no_answer()),
            None => {},
        }
    }
    match exports {
        JsonValue::Object(entries) => {
            let e = entries@;
            if !(subpath.len() > 0 && subpath.last() == '/') {
                if !subpath.contains('*') && obj_get(e, subpath) is Some {
                    lemma_target_from_inside(pkg, subpath, obj_get(e, subpath).unwrap(), 0, None, conditions, no_answer());
                } else {
                    match best_expansion(subpath, e, e.len() as int) {
                        Some(b) => lemma_target_from_inside(pkg, b.0, b.1, 0, Some(b.2), conditions, no_answer()),
                        None => {},
                    }
                }
            }
        },
        _ => {},
    }
}

} // verus!
