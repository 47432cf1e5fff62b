use vstd::prelude::*;

use crate::common::AppDataType;
use crate::common::AppDirsError;

verus! {

/// No conventions are known, so no vendor segment either.
pub const USE_AUTHOR: bool = false;

/// A platform without known directory conventions: every category is
/// unsupported.
pub fn get_app_dirs(_t: AppDataType) -> (roots: Result<Vec<String>, AppDirsError>)
    ensures
        roots matches Err(e) && e is NotSupported,
{
    Err(AppDirsError::NotSupported)
}

} // verus!
