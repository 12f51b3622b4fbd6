//! Process hardening at startup: least-privilege system-call policies that are
//! declared per category and composed in order, the plan for an irreversible
//! restriction of privileges, and the protocol of a single-instance marker file
//! that is opened, locked and filled without ever blocking.
//!
//! The library decides; its driver performs. Whatever touches the kernel or
//! needs an open file (opening and locking the marker file, installing a
//! filter, detaching namespaces, allowing one descriptor) is done by the
//! caller, which reports each outcome back and is told what to do next.
//!
//! - [`category`]: the six categories and the permissions of each.
//! - [`descriptors`]: ascending allow-lists of file descriptors.
//! - [`rule_sets`]: one builder per category, and their union.
//! - [`compare`]: order, equality and hash of rule sets.
//! - [`engine`]: policies and contexts of the enforcement engine.
//! - [`safety_ctx`]: ordered rule sets and their composition.
//! - [`privileges`]: the steps of the restriction of privileges.
//! - [`pid_file`], [`write_all`], [`decimal`]: the marker file.
//! - [`error`]: what can go wrong.
//!
//! The library is made to stand behind a binding for a scripting runtime. The
//! types that such a binding hands out carry the prefix `Py`, and where the
//! runtime has a protocol of its own for an operation, the method bears the
//! protocol's name (`__hash__`, `__richcmp__`).

pub mod category;
pub mod compare;
pub mod decimal;
pub mod descriptors;
pub mod engine;
pub mod error;
pub mod pid_file;
pub mod privileges;
pub mod rule_sets;
pub mod safety_ctx;
pub mod write_all;
