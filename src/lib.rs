//! Structural analyses over the syntax of a type definition, for code
//! generators: reading flags and string values out of namespaced annotations,
//! giving every field of any shape one uniform reference, and building the
//! match arm that binds every field of an enum variant.
pub mod syntax;
pub mod attrs;
pub mod fields;
pub mod arms;
