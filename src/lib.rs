//! Per-line provenance tracking for a version-control tool: the attribution
//! model, the merge of attribution sets reached through divergent histories,
//! the author overlay applied to line annotations and the annotation
//! command's arguments, the working log, and the decisions taken around
//! `pull --rebase --autostash`.
pub mod text;
pub mod attribution;
pub mod merge;
pub mod blame;
pub mod blame_args;
pub mod store;
pub mod pull;
