//! Find the right place for an application's config, data and cache
//! directories on the host platform.
//!
//! Callers identify themselves with an [`AppInfo`] name/author pair and ask
//! for one of five [`AppDataType`] categories. The crate answers with a
//! priority-ordered list of candidate directories (or the single best one),
//! following the platform's own conventions: XDG base directories on
//! Unix-like systems, `Library` subfolders on macOS, known folders on
//! Windows.

mod common;
mod imp;
mod paths;
mod select;
mod utils;

pub use crate::common::AppDataType;
pub use crate::common::AppDirsError;
pub use crate::common::AppInfo;
pub use crate::imp::compose_app_paths;
pub use crate::imp::get_app_dir;
pub use crate::imp::get_app_dirs;
pub use crate::imp::get_app_root;
pub use crate::imp::get_app_roots;
pub use crate::imp::get_data_root;
pub use crate::imp::get_data_roots;
pub use crate::imp::lemma_app_roots_head;
pub use crate::imp::lemma_app_roots_no_evidence;
pub use crate::imp::lemma_app_roots_unique;
pub use crate::imp::lemma_best_paths_nest;
pub use crate::imp::platform;
pub use crate::imp::spec_app_path;
pub use crate::imp::spec_is_app_dir;
pub use crate::imp::spec_is_app_path;
pub use crate::imp::spec_app_paths;
pub use crate::imp::spec_app_roots;
pub use crate::paths::append_sanitized;
pub use crate::paths::join_segment;
pub use crate::paths::spec_append_sanitized;
pub use crate::paths::spec_join;
pub use crate::paths::spec_segments;
pub use crate::paths::spec_with_path;
pub use crate::paths::split_segments;
pub use crate::select::lemma_narrow_head;
pub use crate::select::lemma_narrow_membership;
pub use crate::select::lemma_narrow_none;
pub use crate::select::lemma_narrow_singleton;
pub use crate::select::lemma_narrow_unique;
pub use crate::select::narrow_candidates;
pub use crate::select::spec_any;
pub use crate::select::spec_first_kept;
pub use crate::select::spec_keep_from;
pub use crate::select::spec_narrow;
pub use crate::utils::sanitized;
pub use crate::utils::lemma_sanitize_identity;
pub use crate::utils::lemma_sanitize_separator_free;
pub use crate::utils::spec_sanitize;
