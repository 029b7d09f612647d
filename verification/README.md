# rspack_resolver

The rules of Node.js module resolution as webpack's resolver applies them,
written in Verus and proved against their specifications.

`src/` is the verified library:

- `exports.rs`: the `exports` and `imports` fields of `package.json`
  (PACKAGE_EXPORTS_RESOLVE, PACKAGE_IMPORTS_RESOLVE,
  PACKAGE_IMPORTS_EXPORTS_RESOLVE, PACKAGE_TARGET_RESOLVE), with the proof that
  an `exports` target never resolves outside its package.
- `tsconfig.rs`: reading `tsconfig.json`, extending one config with another,
  and mapping specifiers through `compilerOptions.paths` and `baseUrl`.
- `resolver.rs`: the decisions taken between file-system lookups (specifier
  kinds, aliases, extension aliases). It also holds the single steps of
  browser fields, `roots` and Plug'n'Play requests, which no walk takes.
- `node_modules.rs`, `alias.rs`: the walks that ask about the file system
  and are told the answers: through the module folders from a folder up to
  the root (LOAD_NODE_MODULES, PACKAGE_RESOLVE), and through the aliases that
  apply to a specifier; each step is proved to move the walk forward.
- `resolve.rs`, `file_load.rs`: a whole resolution as a walk of the same
  kind (tsconfig paths, aliases, specifier kinds, the package's own exports,
  module folders, LOAD_AS_FILE with extension aliases and LOAD_AS_DIRECTORY,
  fallbacks, symbolic links), each step equal to its specification.
- `tsconfig_load.rs`: loading a `tsconfig.json` with the configs it extends
  and references, as such a walk.
- `path.rs`, `pattern.rs`, `request.rs`: paths as strings, the specificity
  order of pattern keys, and package specifiers.
- `interner.rs`, `ustr_path.rs`: interned paths with their precomputed hash.
- `context.rs`, `resolution.rs`, `file_system.rs`, `package_json.rs`,
  `json.rs`, `error.rs`: the values a resolution carries and returns.

`app/` holds what Verus does not see: the file systems (the operating system's
and Yarn Plug'n'Play archives), JSON text parsing, the standard path types,
the loops that run the walks against a file system, and a resolver that
wires in the `imports` of the nearest `package.json` and a `tsconfig.json`.
