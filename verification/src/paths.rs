//! The directories of the system that the library builds its paths on.
//!
//! Nothing in this file is proved, and nothing is claimed: a path is carried
//! through the library unread.

use std::path::PathBuf;
use vstd::prelude::*;

verus! {

#[verifier::external_type_specification]
#[verifier::external_body]
pub struct ExPathBuf(std::path::PathBuf);

/// `dirs::data_local_dir`: the directory for this user's local data, where
/// the system names one. The result depends on the system and the
/// environment, so nothing is claimed of it.
#[verifier::external_body]
pub(crate) fn local_data_dir() -> Option<PathBuf> {
    dirs::data_local_dir()
}

/// `dirs::config_dir`: the directory for this user's settings, where the
/// system names one. The result depends on the system and the environment,
/// so nothing is claimed of it.
#[verifier::external_body]
pub(crate) fn user_config_dir() -> Option<PathBuf> {
    dirs::config_dir()
}

/// `Path::join` of std: the path of `part` inside `base`. Nothing is claimed
/// of the result.
#[verifier::external_body]
pub(crate) fn join_path(base: &PathBuf, part: &str) -> PathBuf {
    base.join(part)
}

} // verus!
