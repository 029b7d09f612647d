//! The outcome of a resolution: a path with an optional query and fragment.
use std::sync::Arc;

use vstd::prelude::*;

use crate::package_json::PackageJson;
use crate::text::str_eq;
use crate::ustr_path::UstrPath;

verus! {

/// The characters an optional string contributes: none when it is absent.
pub open spec fn opt_text(s: Option<String>) -> Seq<char> {
    match s {
        Some(t) => t@,
        None => Seq::empty(),
    }
}

/// The final path resolution with optional `?query` and `#fragment`.
pub struct Resolution {
    path: UstrPath,
    /// Path query `?query`, with the `?`.
    query: Option<String>,
    /// Path fragment `#fragment`, with the `#`.
    fragment: Option<String>,
    package_json: Option<Arc<PackageJson>>,
}

impl Resolution {
    pub closed spec fn spec_path(&self) -> Seq<char> {
        self.path@
    }

    /// The hash stored with the path.
    pub closed spec fn spec_path_hash(&self) -> u64 {
        self.path.spec_hash()
    }

    pub closed spec fn spec_query(&self) -> Option<String> {
        self.query
    }

    pub closed spec fn spec_fragment(&self) -> Option<String> {
        self.fragment
    }

    pub closed spec fn spec_package_json(&self) -> Option<Arc<PackageJson>> {
        self.package_json
    }

    pub fn new(
        path: UstrPath,
        query: Option<String>,
        fragment: Option<String>,
        package_json: Option<Arc<PackageJson>>,
    ) -> (r: Self)
        ensures
            r.spec_path() == path@,
            r.spec_path_hash() == path.spec_hash(),
            r.spec_query() == query,
            r.spec_fragment() == fragment,
            r.spec_package_json() == package_json,
    {
        Resolution { path, query, fragment, package_json }
    }

    /// The path without query and fragment.
    pub fn path(&self) -> (r: &str)
        ensures
            r@ == self.spec_path(),
    {
        self.path.as_str()
    }

    /// The interned path without query and fragment. Hand this to a store
    /// instead of `path()` to avoid copying and re-hashing the string.
    pub fn ustr_path(&self) -> (r: UstrPath)
        ensures
            r@ == self.spec_path(),
            r.spec_hash() == self.spec_path_hash(),
    {
        self.path.clone()
    }

    /// The path without query and fragment, owned.
    pub fn into_path_buf(self) -> (r: String)
        ensures
            r@ == self.spec_path(),
    {
        self.path.as_str().to_owned()
    }

    /// The path query `?query`, with the leading `?`.
    pub fn query(&self) -> (r: Option<&str>)
        ensures
            match self.spec_query() {
                Some(q) => r matches Some(s) && s@ == q@,
                None => r is None,
            },
    {
        match &self.query {
            Some(q) => Some(q.as_str()),
            None => None,
        }
    }

    /// The path fragment `#fragment`, with the leading `#`.
    pub fn fragment(&self) -> (r: Option<&str>)
        ensures
            match self.spec_fragment() {
                Some(f) => r matches Some(s) && s@ == f@,
                None => r is None,
            },
    {
        match &self.fragment {
            Some(f) => Some(f.as_str()),
            None => None,
        }
    }

    /// The `package.json` of the package the path lies in, if any.
    pub fn package_json(&self) -> (r: Option<&Arc<PackageJson>>)
        ensures
            match self.spec_package_json() {
                Some(p) => r matches Some(q) && *q == p,
                None => r is None,
            },
    {
        self.package_json.as_ref()
    }

    /// The full path: the path, then the query, then the fragment.
    pub fn full_path(&self) -> (r: String)
        ensures
            r@ == self.spec_path() + opt_text(self.spec_query()) + opt_text(self.spec_fragment()),
    {
        let mut path = self.path.as_str().to_owned();
        if let Some(query) = &self.query {
            path.append(query.as_str());
        }
        if let Some(fragment) = &self.fragment {
            path.append(fragment.as_str());
        }
        path
    }
}

impl PartialEq for Resolution {
    /// Resolutions compare by path, query and fragment; the `package.json`
    /// plays no part.
    fn eq(&self, other: &Self) -> (r: bool) {
        self.path == other.path && opt_string_eq(&self.query, &other.query) && opt_string_eq(
            &self.fragment,
            &other.fragment,
        )
    }
}

impl vstd::std_specs::cmp::PartialEqSpecImpl for Resolution {
    open spec fn obeys_eq_spec() -> bool {
        true
    }

    open spec fn eq_spec(&self, other: &Resolution) -> bool {
        &&& self.spec_path() == other.spec_path()
        &&& opt_text_eq(self.spec_query(), other.spec_query())
        &&& opt_text_eq(self.spec_fragment(), other.spec_fragment())
    }
}

impl Eq for Resolution {}

/// Both absent, or both present with the same text.
pub open spec fn opt_text_eq(a: Option<String>, b: Option<String>) -> bool {
    match (a, b) {
        (Some(x), Some(y)) => x@ == y@,
        (None, None) => true,
        _ => false,
    }
}

fn opt_string_eq(a: &Option<String>, b: &Option<String>) -> (r: bool)
    ensures
        r == opt_text_eq(*a, *b),
{
    match (a, b) {
        (Some(x), Some(y)) => str_eq(x.as_str(), y.as_str()),
        (None, None) => true,
        _ => false,
    }
}

} // verus!
