//! The verified core of a small content site that renders its pages through
//! server-side TSX templates.
//!
//! The site bundles a template and everything it imports into one program
//! and runs it in an embedded script engine. What is decided on the way is
//! decided here, and proved:
//!
//! - [`path`]: paths as text, and the operations resolution needs on them.
//! - [`canonical`]: the canonical spelling of a path.
//! - [`tree`]: what a resolver asks of a file system, and a file system in
//!   memory that answers.
//! - [`resolver`]: the rules of module resolution, and a resolver over a
//!   file system in memory.
//! - [`search`]: the same resolution, one probe at a time, for a caller that
//!   owns the real file system.
//! - [`loader`]: the steps of loading a module, in their order.
//! - [`hook`]: the metadata that stands for `import.meta` in each module.
//! - [`compile`]: the entries and settings of a compile.
//! - [`models`] and [`site`]: the content model, and what the request
//!   handlers decide from it.
//!
//! Reading files, parsing and transforming sources, merging modules, running
//! scripts and talking to the database are left to the program around this
//! library.

pub mod canonical;
pub mod compile;
pub mod hook;
pub mod loader;
pub mod models;
pub mod path;
pub mod resolver;
pub mod search;
pub mod site;
pub mod tree;
