//! A project scaffolder's core: template rendering over a flat variable
//! mapping, the upward search for a marker entry, the skip-or-overwrite
//! policy of file generation, the project profiles, and the decisions of
//! the `init` and `test` commands.
pub mod render;
pub mod root;
pub mod materialize;
pub mod profile;
pub mod delegate;
