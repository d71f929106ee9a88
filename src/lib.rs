//! A per-project toolchain manager: identifiers for published tools, layered
//! manifests that bind aliases to exact tool versions, trust and installation
//! caches, the host/asset compatibility matcher, and the decisions that
//! resolve, install and dispatch managed tools.

pub mod text;
pub mod seqs;
pub mod ident;
pub mod error;
pub mod tool_name;
pub mod version;
pub mod tool_id;
pub mod tool_spec;
pub mod tool_alias;
pub mod asset;
pub mod trust;
pub mod installed;
pub mod resolve;
pub mod archive;
pub mod storage;
pub mod manifest;
pub mod dispatch;
pub mod listing;
pub mod profile;
