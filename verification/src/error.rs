//! The ways a resolution fails, and the error of reading a JSON document.
use vstd::prelude::*;

verus! {

/// Why a specifier could not be resolved. Paths are carried as strings.
#[derive(Debug, Clone, PartialEq, Eq)]
pub enum ResolveError {
    /// Nothing was found for the specifier.
    NotFound(String),
    /// A `package.json` (its path) mixes `.`-keys and condition keys in
    /// `exports`.
    InvalidPackageConfig(String),
    /// A folder mapping that is not a folder on both sides; the path of the
    /// `package.json`.
    InvalidPackageConfigDirectory(String),
    /// A target that leaves its package: the target, the key it stood under
    /// and the path of the `package.json`.
    InvalidPackageTarget(String, String, String),
    /// The subpath is not exported by the `package.json` at the path.
    PackagePathNotExported(String, String),
    /// An imports specifier that names no import (`#` or `#/..`).
    InvalidModuleSpecifier(String, String),
    /// The `package.json` at the path defines imports, none for the specifier.
    PackageImportNotDefined(String, String),
    /// Every value of the matched alias failed: the specifier and the alias.
    MatchedAliasNotFound(String, String),
    /// The alias maps the path to nothing.
    Ignored(String),
    /// A project reference names the config that references it (its path).
    TsconfigSelfReference(String),
    /// The resolution recursed too deep, as an alias that maps to itself
    /// would make it.
    Recursion,
    /// No file was found for any extension the file's extension is an alias
    /// of: the file name, the names tried (comma-separated) and the folder.
    ExtensionAlias(String, String, String),
    /// The specifier names a Node.js builtin module, given with its `node:`
    /// prefix.
    Builtin(String),
    /// An empty specifier (as an `extends` entry).
    EmptySpecifier(String),
    /// The config an `extends` entry names as a package was not found.
    TsconfigNotFound(String),
}

/// A [`ResolveError`] with its strings as character sequences.
pub enum ErrorView {
    NotFound(Seq<char>),
    InvalidPackageConfig(Seq<char>),
    InvalidPackageConfigDirectory(Seq<char>),
    InvalidPackageTarget(Seq<char>, Seq<char>, Seq<char>),
    PackagePathNotExported(Seq<char>, Seq<char>),
    InvalidModuleSpecifier(Seq<char>, Seq<char>),
    PackageImportNotDefined(Seq<char>, Seq<char>),
    MatchedAliasNotFound(Seq<char>, Seq<char>),
    Ignored(Seq<char>),
    TsconfigSelfReference(Seq<char>),
    Recursion,
    ExtensionAlias(Seq<char>, Seq<char>, Seq<char>),
    Builtin(Seq<char>),
    EmptySpecifier(Seq<char>),
    TsconfigNotFound(Seq<char>),
}

impl View for ResolveError {
    type V = ErrorView;

    open spec fn view(&self) -> ErrorView {
        match self {
            ResolveError::NotFound(a) => ErrorView::NotFound(a@),
            ResolveError::InvalidPackageConfig(a) => ErrorView::InvalidPackageConfig(a@),
            ResolveError::InvalidPackageConfigDirectory(a) => ErrorView::InvalidPackageConfigDirectory(a@),
            ResolveError::InvalidPackageTarget(a, b, c) => ErrorView::InvalidPackageTarget(a@, b@, c@),
            ResolveError::PackagePathNotExported(a, b) => ErrorView::PackagePathNotExported(a@, b@),
            ResolveError::InvalidModuleSpecifier(a, b) => ErrorView::InvalidModuleSpecifier(a@, b@),
            ResolveError::PackageImportNotDefined(a, b) => ErrorView::PackageImportNotDefined(a@, b@),
            ResolveError::MatchedAliasNotFound(a, b) => ErrorView::MatchedAliasNotFound(a@, b@),
            ResolveError::Ignored(a) => ErrorView::Ignored(a@),
            ResolveError::TsconfigSelfReference(a) => ErrorView::TsconfigSelfReference(a@),
            ResolveError::Recursion => ErrorView::Recursion,
            ResolveError::ExtensionAlias(a, b, c) => ErrorView::ExtensionAlias(a@, b@, c@),
            ResolveError::Builtin(a) => ErrorView::Builtin(a@),
            ResolveError::EmptySpecifier(a) => ErrorView::EmptySpecifier(a@),
            ResolveError::TsconfigNotFound(a) => ErrorView::TsconfigNotFound(a@),
        }
    }
}

/// What a resolution step gives back, with its strings as sequences: a path,
/// nothing (the step does not apply), or an error.
pub type Outcome = Result<Option<Seq<char>>, ErrorView>;

/// The outcome a resolution step's result stands for.
pub open spec fn outcome_of(r: Result<Option<String>, ResolveError>) -> Outcome {
    match r {
        Ok(Some(p)) => Ok(Some(p@)),
        Ok(None) => Ok(None),
        Err(e) => Err(e@),
    }
}

impl ResolveError {
    /// A copy of the error.
    pub fn duplicate(&self) -> (r: ResolveError)
        ensures
            r@ == self@,
    {
        match self {
            ResolveError::NotFound(a) => ResolveError::NotFound(a.clone()),
            ResolveError::InvalidPackageConfig(a) => ResolveError::InvalidPackageConfig(a.clone()),
            ResolveError::InvalidPackageConfigDirectory(a) => ResolveError::InvalidPackageConfigDirectory(
                a.clone(),
            ),
            ResolveError::InvalidPackageTarget(a, b, c) => ResolveError::InvalidPackageTarget(
                a.clone(),
                b.clone(),
                c.clone(),
            ),
            ResolveError::PackagePathNotExported(a, b) => ResolveError::PackagePathNotExported(
                a.clone(),
                b.clone(),
            ),
            ResolveError::InvalidModuleSpecifier(a, b) => ResolveError::InvalidModuleSpecifier(
                a.clone(),
                b.clone(),
            ),
            ResolveError::PackageImportNotDefined(a, b) => ResolveError::PackageImportNotDefined(
                a.clone(),
                b.clone(),
            ),
            ResolveError::MatchedAliasNotFound(a, b) => ResolveError::MatchedAliasNotFound(
                a.clone(),
                b.clone(),
            ),
            ResolveError::Ignored(a) => ResolveError::Ignored(a.clone()),
            ResolveError::TsconfigSelfReference(a) => ResolveError::TsconfigSelfReference(a.clone()),
            ResolveError::Recursion => ResolveError::Recursion,
            ResolveError::ExtensionAlias(a, b, c) => ResolveError::ExtensionAlias(a.clone(), b.clone(), c.clone()),
            ResolveError::Builtin(a) => ResolveError::Builtin(a.clone()),
            ResolveError::EmptySpecifier(a) => ResolveError::EmptySpecifier(a.clone()),
            ResolveError::TsconfigNotFound(a) => ResolveError::TsconfigNotFound(a.clone()),
        }
    }
}

/// A copy of a resolution step's result.
pub fn duplicate_result(r: &Result<Option<String>, ResolveError>) -> (c: Result<
    Option<String>,
    ResolveError,
>)
    ensures
        outcome_of(c) == outcome_of(*r),
{
    match r {
        Ok(Some(p)) => Ok(Some(p.clone())),
        Ok(None) => Ok(None),
        Err(e) => Err(e.duplicate()),
    }
}

/// A JSON document that could not be read, or did not have the expected
/// shape; the message says which.
#[derive(Debug, Clone, PartialEq, Eq)]
pub struct JsonParseError {
    pub message: String,
}

impl JsonParseError {
    pub fn new(message: &str) -> (r: JsonParseError)
        ensures
            r.message@ == message@,
    {
        JsonParseError { message: message.to_owned() }
    }
}

} // verus!
