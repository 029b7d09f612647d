//! The state one resolution carries from step to step.
use vstd::prelude::*;

use crate::error::ResolveError;
use crate::interner::Interner;
use crate::ustr_path::{ToUstrPath, UstrPath};

verus! {

/// How deep resolutions may recurse through aliases and package fields before
/// the resolver gives up. Far more than any real chain needs.
pub const MAX_RECURSION_DEPTH: u8 = 32;

pub struct ResolveContextImpl {
    pub fully_specified: bool,
    pub query: Option<String>,
    pub fragment: Option<String>,
    /// Files that were found on the file system.
    pub file_dependencies: Option<Vec<UstrPath>>,
    /// Files that were not found on the file system.
    pub missing_dependencies: Option<Vec<UstrPath>>,
    /// The alias being resolved, to stop an alias that resolves to itself.
    pub resolving_alias: Option<String>,
    /// How many nested resolutions are under way.
    depth: u8,
}

impl ResolveContextImpl {
    pub closed spec fn spec_depth(&self) -> u8 {
        self.depth
    }

    pub closed spec fn spec_fully_specified(&self) -> bool {
        self.fully_specified
    }

    pub closed spec fn spec_query(&self) -> Option<String> {
        self.query
    }

    pub closed spec fn spec_fragment(&self) -> Option<String> {
        self.fragment
    }

    pub closed spec fn spec_file_dependencies(&self) -> Option<Vec<UstrPath>> {
        self.file_dependencies
    }

    pub closed spec fn spec_missing_dependencies(&self) -> Option<Vec<UstrPath>> {
        self.missing_dependencies
    }

    pub closed spec fn spec_resolving_alias(&self) -> Option<String> {
        self.resolving_alias
    }
}

/// The state of one resolution.
pub struct ResolveContext(pub ResolveContextImpl);

impl Default for ResolveContextImpl {
    /// A fresh state: not fully specified, no query, fragment, dependency
    /// lists or alias, and no resolution under way.
    fn default() -> (r: Self)
        ensures
            !r.spec_fully_specified(),
            r.spec_query() is None,
            r.spec_fragment() is None,
            r.spec_file_dependencies() is None,
            r.spec_missing_dependencies() is None,
            r.spec_resolving_alias() is None,
            r.spec_depth() == 0,
    {
        ResolveContextImpl {
            fully_specified: false,
            query: None,
            fragment: None,
            file_dependencies: None,
            missing_dependencies: None,
            resolving_alias: None,
            depth: 0,
        }
    }
}

impl Default for ResolveContext {
    /// A fresh state (see [`ResolveContextImpl::default`]).
    fn default() -> (r: Self)
        ensures
            !r.0.spec_fully_specified(),
            r.0.spec_query() is None,
            r.0.spec_fragment() is None,
            r.0.spec_file_dependencies() is None,
            r.0.spec_missing_dependencies() is None,
            r.0.spec_resolving_alias() is None,
            r.0.spec_depth() == 0,
    {
        ResolveContext(ResolveContextImpl::default())
    }
}

/// The count of nested resolutions after one more: it stops at `u8::MAX`.
pub open spec fn counted(depth: int) -> int {
    if depth < u8::MAX {
        depth + 1
    } else {
        u8::MAX as int
    }
}

/// The count after `k` more nested resolutions from `depth`.
pub open spec fn counted_times(depth: int, k: nat) -> int
    decreases k,
{
    if k == 0 {
        depth
    } else {
        counted(counted_times(depth, (k - 1) as nat))
    }
}

/// From a fresh context (whose count [`ResolveContext::default`] starts at
/// 0), `k` nested resolutions in a row leave the count at `k`, stopped at
/// `u8::MAX`; so the `k`-th of them fails exactly when `k` is more than
/// [`MAX_RECURSION_DEPTH`].
pub proof fn lemma_fresh_count(k: nat)
    ensures
        counted_times(0, k) == (if k < u8::MAX { k as int } else { u8::MAX as int }),
        counted_times(0, k) > MAX_RECURSION_DEPTH <==> k > MAX_RECURSION_DEPTH,
    decreases k,
{
    if k > 0 {
        lemma_fresh_count((k - 1) as nat);
    }
}

/// The optional string `s` holds, as an owned string.
pub open spec fn opt_str_text(s: Option<&str>) -> Option<Seq<char>> {
    match s {
        Some(t) => Some(t@),
        None => None,
    }
}

pub open spec fn opt_string_text(s: Option<String>) -> Option<Seq<char>> {
    match s {
        Some(t) => Some(t@),
        None => None,
    }
}

/// The paths a dependency list holds, in order.
pub open spec fn dependency_paths(deps: Option<Vec<UstrPath>>) -> Option<Seq<Seq<char>>> {
    match deps {
        Some(v) => Some(v@.map_values(|p: UstrPath| p@)),
        None => None,
    }
}

impl ResolveContext {
    pub fn with_fully_specified(&mut self, yes: bool)
        ensures
            final(self).0.spec_fully_specified() == yes,
            final(self).0.spec_query() == old(self).0.spec_query(),
            final(self).0.spec_fragment() == old(self).0.spec_fragment(),
            final(self).0.spec_file_dependencies() == old(self).0.spec_file_dependencies(),
            final(self).0.spec_missing_dependencies() == old(self).0.spec_missing_dependencies(),
            final(self).0.spec_resolving_alias() == old(self).0.spec_resolving_alias(),
            final(self).0.spec_depth() == old(self).0.spec_depth(),
    {
        self.0.fully_specified = yes;
    }

    /// Records the query and the fragment that are given; an absent one keeps
    /// what was recorded before.
    pub fn with_query_fragment(&mut self, query: Option<&str>, fragment: Option<&str>)
        ensures
            opt_string_text(final(self).0.spec_query()) == (if query is Some {
                opt_str_text(query)
            } else {
                opt_string_text(old(self).0.spec_query())
            }),
            opt_string_text(final(self).0.spec_fragment()) == (if fragment is Some {
                opt_str_text(fragment)
            } else {
                opt_string_text(old(self).0.spec_fragment())
            }),
            final(self).0.spec_fully_specified() == old(self).0.spec_fully_specified(),
            final(self).0.spec_file_dependencies() == old(self).0.spec_file_dependencies(),
            final(self).0.spec_missing_dependencies() == old(self).0.spec_missing_dependencies(),
            final(self).0.spec_resolving_alias() == old(self).0.spec_resolving_alias(),
            final(self).0.spec_depth() == old(self).0.spec_depth(),
    {
        if let Some(query) = query {
            self.0.query = Some(query.to_owned());
        }
        if let Some(fragment) = fragment {
            self.0.fragment = Some(fragment.to_owned());
        }
    }

    /// Starts recording found and missing files, both lists empty.
    pub fn init_file_dependencies(&mut self)
        ensures
            dependency_paths(final(self).0.spec_file_dependencies()) == Some(Seq::<Seq<char>>::empty()),
            dependency_paths(final(self).0.spec_missing_dependencies()) == Some(Seq::<Seq<char>>::empty()),
            final(self).0.spec_fully_specified() == old(self).0.spec_fully_specified(),
            final(self).0.spec_query() == old(self).0.spec_query(),
            final(self).0.spec_fragment() == old(self).0.spec_fragment(),
            final(self).0.spec_resolving_alias() == old(self).0.spec_resolving_alias(),
            final(self).0.spec_depth() == old(self).0.spec_depth(),
    {
        self.0.file_dependencies = Some(Vec::new());
        self.0.missing_dependencies = Some(Vec::new());
        proof {
            assert(dependency_paths(self.0.file_dependencies).unwrap() =~= Seq::<Seq<char>>::empty());
            assert(dependency_paths(self.0.missing_dependencies).unwrap() =~= Seq::<Seq<char>>::empty());
        }
    }

    /// Records a file found on the file system, when files are being
    /// recorded. The path is interned only then.
    pub fn add_file_dependency<P: ToUstrPath + ?Sized>(&mut self, interner: &mut Interner, dep: &P)
        requires
            old(interner).wf(),
        ensures
            final(interner).wf(),
            dependency_paths(final(self).0.spec_file_dependencies()) == (match dependency_paths(
                old(self).0.spec_file_dependencies(),
            ) {
                Some(d) => Some(d.push(dep.path_text())),
                None => None,
            }),
            final(self).0.spec_missing_dependencies() == old(self).0.spec_missing_dependencies(),
            final(self).0.spec_fully_specified() == old(self).0.spec_fully_specified(),
            final(self).0.spec_query() == old(self).0.spec_query(),
            final(self).0.spec_fragment() == old(self).0.spec_fragment(),
            final(self).0.spec_resolving_alias() == old(self).0.spec_resolving_alias(),
            final(self).0.spec_depth() == old(self).0.spec_depth(),
    {
        let ghost before = self.0.file_dependencies;
        let mut deps = self.0.file_dependencies.take();
        match deps {
            Some(mut d) => {
                let p = dep.to_ustr_path(interner);
                d.push(p);
                proof {
                    assert(d@.map_values(|p: UstrPath| p@) =~= before.unwrap()@.map_values(
                        |p: UstrPath| p@,
                    ).push(dep.path_text()));
                }
                self.0.file_dependencies = Some(d);
            },
            None => {},
        }
    }

    /// Records a file missing from the file system, when files are being
    /// recorded. The path is interned only then.
    pub fn add_missing_dependency<P: ToUstrPath + ?Sized>(&mut self, interner: &mut Interner, dep: &P)
        requires
            old(interner).wf(),
        ensures
            final(interner).wf(),
            dependency_paths(final(self).0.spec_missing_dependencies()) == (match dependency_paths(
                old(self).0.spec_missing_dependencies(),
            ) {
                Some(d) => Some(d.push(dep.path_text())),
                None => None,
            }),
            final(self).0.spec_file_dependencies() == old(self).0.spec_file_dependencies(),
            final(self).0.spec_fully_specified() == old(self).0.spec_fully_specified(),
            final(self).0.spec_query() == old(self).0.spec_query(),
            final(self).0.spec_fragment() == old(self).0.spec_fragment(),
            final(self).0.spec_resolving_alias() == old(self).0.spec_resolving_alias(),
            final(self).0.spec_depth() == old(self).0.spec_depth(),
    {
        let ghost before = self.0.missing_dependencies;
        let mut deps = self.0.missing_dependencies.take();
        match deps {
            Some(mut d) => {
                let p = dep.to_ustr_path(interner);
                d.push(p);
                proof {
                    assert(d@.map_values(|p: UstrPath| p@) =~= before.unwrap()@.map_values(
                        |p: UstrPath| p@,
                    ).push(dep.path_text()));
                }
                self.0.missing_dependencies = Some(d);
            },
            None => {},
        }
    }

    pub fn with_resolving_alias(&mut self, alias: String)
        ensures
            final(self).0.spec_resolving_alias() == Some(alias),
            final(self).0.spec_fully_specified() == old(self).0.spec_fully_specified(),
            final(self).0.spec_query() == old(self).0.spec_query(),
            final(self).0.spec_fragment() == old(self).0.spec_fragment(),
            final(self).0.spec_file_dependencies() == old(self).0.spec_file_dependencies(),
            final(self).0.spec_missing_dependencies() == old(self).0.spec_missing_dependencies(),
            final(self).0.spec_depth() == old(self).0.spec_depth(),
    {
        self.0.resolving_alias = Some(alias);
    }

    /// Counts one more nested resolution, and fails once more than
    /// [`MAX_RECURSION_DEPTH`] are under way. The count stops at `u8::MAX`.
    pub fn test_for_infinite_recursion(&mut self) -> (r: Result<(), ResolveError>)
        ensures
            final(self).0.spec_depth() == counted(old(self).0.spec_depth() as int),
            r is Err <==> final(self).0.spec_depth() > MAX_RECURSION_DEPTH,
            r is Err ==> r->Err_0@ == crate::error::ErrorView::Recursion,
            final(self).0.spec_fully_specified() == old(self).0.spec_fully_specified(),
            final(self).0.spec_query() == old(self).0.spec_query(),
            final(self).0.spec_fragment() == old(self).0.spec_fragment(),
            final(self).0.spec_file_dependencies() == old(self).0.spec_file_dependencies(),
            final(self).0.spec_missing_dependencies() == old(self).0.spec_missing_dependencies(),
            final(self).0.spec_resolving_alias() == old(self).0.spec_resolving_alias(),
    {
        if self.0.depth < u8::MAX {
            self.0.depth = self.0.depth + 1;
        }
        if self.0.depth > MAX_RECURSION_DEPTH {
            return Err(ResolveError::Recursion);
        }
        Ok(())
    }
}

} // verus!
