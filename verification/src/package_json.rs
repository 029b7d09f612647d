//! What the resolver keeps of a `package.json`: the module type, the
//! `sideEffects` field and the identity of the `package.json` itself.
use std::sync::Arc;

use vstd::prelude::*;

use crate::text::str_eq;
use crate::ustr_path::UstrPath;

verus! {

/// The `type` field of a `package.json`.
#[derive(Debug, Clone, Copy, PartialEq, Eq, Structural)]
pub enum ModuleType {
    CommonJs,
    Module,
}

impl Default for ModuleType {
    fn default() -> (r: Self)
        ensures
            r == ModuleType::CommonJs,
    {
        ModuleType::CommonJs
    }
}

/// The text a module type is written as.
pub open spec fn module_type_text(m: ModuleType) -> Seq<char> {
    match m {
        ModuleType::Module => "module"@,
        ModuleType::CommonJs => "commonjs"@,
    }
}

/// The module type a text names, if it names one.
pub open spec fn parse_module_type(s: Seq<char>) -> Option<ModuleType> {
    if s == "module"@ {
        Some(ModuleType::Module)
    } else if s == "commonjs"@ {
        Some(ModuleType::CommonJs)
    } else {
        None
    }
}

impl ModuleType {
    /// The text the module type is written as.
    pub fn as_str(&self) -> (r: &'static str)
        ensures
            r@ == module_type_text(*self),
    {
        match self {
            ModuleType::Module => "module",
            ModuleType::CommonJs => "commonjs",
        }
    }

    /// The `Display` rendering: `module` or `commonjs`.
    pub fn to_string(&self) -> (r: String)
        ensures
            r@ == module_type_text(*self),
    {
        self.as_str().to_owned()
    }
}

/// Writing a module type and parsing it back gives the same module type.
pub proof fn lemma_module_type_text_round_trips(m: ModuleType)
    ensures
        parse_module_type(module_type_text(m)) == Some(m),
{
    reveal_strlit("module");
    reveal_strlit("commonjs");
    assert("module"@[0] != "commonjs"@[0]);
}

/// The `sideEffects` field of a `package.json`.
#[derive(Debug, Clone, PartialEq, Eq)]
pub enum SideEffects {
    Bool(bool),
    String(String),
    Array(Vec<String>),
}

/// The identity of a parsed `package.json`: the path it was read from and the
/// package's `name`.
pub struct PackageJson {
    pub path: UstrPath,
    pub name: Option<String>,
}

/// The module type a `type` field value names: `module` is a module, and
/// everything else, an absent field included, is CommonJS.
pub open spec fn module_type_of_field(value: Option<&str>) -> ModuleType {
    if value matches Some(v) && v@ == "module"@ {
        ModuleType::Module
    } else {
        ModuleType::CommonJs
    }
}

impl<'a> From<Option<&'a str>> for ModuleType {
    /// The module type a `type` field value names: `module` is a module, and
    /// everything else, an absent field included, is CommonJS.
    fn from(value: Option<&'a str>) -> (r: Self) {
        match value {
            Some(v) => {
                if str_eq(v, "module") {
                    ModuleType::Module
                } else {
                    ModuleType::CommonJs
                }
            },
            None => ModuleType::CommonJs,
        }
    }
}

impl<'a> vstd::std_specs::convert::FromSpecImpl<Option<&'a str>> for ModuleType {
    open spec fn obeys_from_spec() -> bool {
        true
    }

    open spec fn from_spec(v: Option<&'a str>) -> ModuleType {
        module_type_of_field(v)
    }
}

impl<'a> TryFrom<&'a str> for ModuleType {
    type Error = &'static str;

    /// Parses a module type, refusing anything but `module` and `commonjs`.
    fn try_from(value: &'a str) -> (r: Result<Self, &'static str>) {
        proof {
            reveal_strlit("module");
            reveal_strlit("commonjs");
        }
        if str_eq(value, "module") {
            Ok(ModuleType::Module)
        } else if str_eq(value, "commonjs") {
            Ok(ModuleType::CommonJs)
        } else {
            Err("Invalid module type")
        }
    }
}

impl<'a> vstd::std_specs::convert::TryFromSpecImpl<&'a str> for ModuleType {
    open spec fn obeys_try_from_spec() -> bool {
        true
    }

    open spec fn try_from_spec(v: &'a str) -> Result<ModuleType, &'static str> {
        match parse_module_type(v@) {
            Some(m) => Ok(m),
            None => Err("Invalid module type"),
        }
    }
}

} // verus!
