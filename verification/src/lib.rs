//! Node.js CommonJS and ECMAScript module resolution: the interned path type,
//! its interner, and the string-level rules of the resolver.

mod text;
pub mod alias;
pub mod context;
pub mod error;
pub mod exports;
pub mod file_load;
pub mod file_system;
pub mod interner;
pub mod json;
pub mod node_modules;
pub mod package_json;
pub mod path;
pub mod pattern;
pub mod request;
pub mod resolution;
pub mod resolve;
pub mod resolver;
pub mod tsconfig;
pub mod tsconfig_load;
pub mod ustr_path;

pub use crate::interner::{Interned, Interner};
pub use crate::ustr_path::{normalize_windows_separators, IdentityHasher, ToUstrPath, UstrPath, UstrPathSet};
