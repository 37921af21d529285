//! Dependency reconciliation for a multi-package workspace.
//!
//! A workspace keeps a shared dependency table in its root manifest; member
//! packages may either *inherit* an entry from that table (marked by
//! `workspace = true`) or carry a fully self-contained (*inlined*) entry.
//! This crate implements the bidirectional translation between the two forms:
//! inlining every inherited entry so a package can be built outside the
//! workspace, and collapsing inlined entries back to inherited ones when they
//! are provably equivalent to the workspace's declaration.
//!
//! The crate works on a plain model of the dependency tables; reading and
//! writing manifest files, and applying the rewritten entries back to an
//! editable document tree, is left to the caller.

pub mod collapse;
pub mod diag;
pub mod inline;
pub mod laws;
pub mod lock;
pub mod model;
pub mod paths;
pub mod text;
pub mod versions;
