//! How a bare specifier splits into a package name and a subpath.
use vstd::prelude::*;

use crate::pattern::{index_of, index_of_from};
use crate::text::{chars_of, starts_with, substring};

verus! {

/// Where the package name of a bare specifier ends: at its first `/`, or,
/// for a scoped name (`@scope/name`), at the first `/` after the scope.
pub open spec fn package_separator(s: Seq<char>) -> Option<int> {
    let first = index_of(s, '/');
    if s.len() > 0 && s[0] == '@' {
        match first {
            Some(i) => index_of_from(s, '/', i + 1),
            None => None,
        }
    } else {
        first
    }
}

/// The package name of a bare specifier.
pub open spec fn package_name_of(s: Seq<char>) -> Seq<char> {
    match package_separator(s) {
        Some(i) => s.take(i),
        None => s,
    }
}

/// The subpath of a bare specifier: from its separator on, or empty.
pub open spec fn package_subpath_of(s: Seq<char>) -> Seq<char> {
    match package_separator(s) {
        Some(i) => s.skip(i),
        None => Seq::empty(),
    }
}

proof fn lemma_index_bounds(s: Seq<char>, c: char, from: int)
    requires
        0 <= from,
    ensures
        match index_of_from(s, c, from) {
            Some(p) => from <= p < s.len() && s[p] == c && forall|j: int| from <= j < p ==> s[j] != c,
            None => forall|j: int| from <= j < s.len() ==> s[j] != c,
        },
    decreases s.len() - from,
{
    if from < s.len() && s[from] != c {
        lemma_index_bounds(s, c, from + 1);
    }
}

/// The index of the first `c` in `v` at or after `from`.
pub(crate) fn index_from(v: &Vec<char>, c: char, from: usize) -> (r: Option<usize>)
    ensures
        match r {
            Some(p) => index_of_from(v@, c, from as int) == Some(p as int),
            None => index_of_from(v@, c, from as int).is_none(),
        },
{
    proof {
        lemma_index_bounds(v@, c, from as int);
    }
    let mut i: usize = from;
    while i < v.len()
        invariant
            from <= i,
            forall|j: int| from <= j < i && j < v@.len() ==> v@[j] != c,
        decreases v@.len() - i,
    {
        if v[i] == c {
            proof {
                lemma_index_bounds(v@, c, from as int);
                let k = index_of_from(v@, c, from as int);
                if k is None {
                    assert(v@[i as int] == c);
                } else {
                    if k.unwrap() < i {
                        assert(v@[k.unwrap()] == c);
                    }
                    if k.unwrap() > i {
                        assert(v@[i as int] == c);
                    }
                }
            }
            return Some(i);
        }
        i = i + 1;
    }
    proof {
        lemma_index_bounds(v@, c, from as int);
        if index_of_from(v@, c, from as int) is Some {
            let k = index_of_from(v@, c, from as int).unwrap();
            assert(v@[k] == c);
        }
    }
    None
}

/// Splits a bare specifier into its package name and its subpath, the
/// subpath keeping its leading `/`: `"@scope/pkg/lib/a.js"` gives
/// `("@scope/pkg", "/lib/a.js")`, `"pkg"` gives `("pkg", "")`.
pub fn parse_package_specifier(specifier: &str) -> (r: (String, String))
    ensures
        r.0@ == package_name_of(specifier@),
        r.1@ == package_subpath_of(specifier@),
        r.0@ + r.1@ == specifier@,
        r.1@.len() == 0 || r.1@[0] == '/',
{
    let s = chars_of(specifier);
    let mut separator = index_from(&s, '/', 0);
    proof {
        lemma_index_bounds(s@, '/', 0);
    }
    if s.len() > 0 && s[0] == '@' {
        if let Some(index) = separator {
            separator = index_from(&s, '/', index + 1);
        }
    }
    proof {
        if let Some(i) = separator {
            lemma_index_bounds(s@, '/', 0);
            if s@.len() > 0 && s@[0] == '@' {
                lemma_index_bounds(s@, '/', index_of(s@, '/').unwrap() + 1);
            }
        }
    }
    match separator {
        Some(i) => {
            let name = substring(&s, 0, i);
            let subpath = substring(&s, i, s.len());
            proof {
                assert(s@.subrange(0, i as int) =~= s@.take(i as int));
                assert(s@.subrange(i as int, s@.len() as int) =~= s@.skip(i as int));
                assert(s@.take(i as int) + s@.skip(i as int) =~= s@);
            }
            (name, subpath)
        },
        None => {
            let name = specifier.to_owned();
            let subpath = String::new();
            proof {
                assert(name@ + subpath@ =~= specifier@);
            }
            (name, subpath)
        },
    }
}

/// What follows `package_name` in `specifier`, when `specifier` starts with
/// it and it is followed by nothing or by a separator (`/` or `\`).
pub open spec fn package_tail(specifier: Seq<char>, package_name: Seq<char>) -> Option<Seq<char>> {
    if starts_with(specifier, package_name) {
        let tail = specifier.skip(package_name.len() as int);
        if tail.len() == 0 || tail[0] == '/' || tail[0] == '\\' {
            Some(tail)
        } else {
            None
        }
    } else {
        None
    }
}

/// The rest of `specifier` after the package name `package_name`: `"pkg/a"`
/// with `"pkg"` gives `"/a"`, `"pkg"` gives `""`, `"pkgx"` gives nothing.
pub fn strip_package_name(specifier: &str, package_name: &str) -> (r: Option<String>)
    ensures
        match r {
            Some(t) => package_tail(specifier@, package_name@) == Some(t@),
            None => package_tail(specifier@, package_name@).is_none(),
        },
{
    let s = chars_of(specifier);
    let p = chars_of(package_name);
    if !crate::text::chars_start_with(&s, &p) {
        return None;
    }
    let n = p.len();
    if n == s.len() || s[n] == '/' || s[n] == '\\' {
        let tail = substring(&s, n, s.len());
        proof {
            assert(s@.subrange(n as int, s@.len() as int) =~= s@.skip(n as int));
        }
        Some(tail)
    } else {
        None
    }
}

} // verus!
