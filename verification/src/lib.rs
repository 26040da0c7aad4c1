//! Namespaces for an embedded scripting runtime: modules that hold variables,
//! sub-modules, native and script-defined functions and type iterators, the
//! fingerprinting and indexing that give constant-time qualified lookup, and
//! the resolvers that hand modules out to importing scripts.
//!
//! A module keeps its own tables in the order in which their keys came in.
//! `Module::index_all_sub_modules` walks the tree below a module and builds
//! two indexes from fingerprints, one of variables and one of public
//! functions; qualified lookups read the indexes alone. The contracts speak
//! of `model::ModuleView`, the mathematical model of a module, and the
//! modules under `laws` prove what follows from them.

/// Positions, visibility and type tokens.
pub mod types;
/// Comparing text.
pub mod text;
/// Fingerprints.
pub mod hash;
/// Dynamically typed values.
pub mod dynamic;
/// Errors.
pub mod error;
/// Native and script-defined functions as shared handles.
pub mod callable;
/// Tables as vectors of pairs.
pub mod table;
/// Collections of script-defined functions.
pub mod fn_lib;
/// The model of a module and of indexing.
pub mod model;
/// Modules.
pub mod module;
/// Host functions of fixed arity as native functions.
pub mod native;
/// Qualifier chains.
pub mod module_ref;
/// Scopes, and the modules that scripts export.
pub mod scope;
/// Script files of imports.
pub mod paths;
/// Resolvers.
pub mod resolver;
/// Laws.
pub mod laws;
