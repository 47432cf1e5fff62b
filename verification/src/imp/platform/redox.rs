use vstd::prelude::*;

use crate::common::AppDataType;
use crate::common::AppDirsError;
use crate::paths::join_segment;
use crate::paths::spec_join;

verus! {

/// Redox conventions do not namespace app directories by vendor.
pub const USE_AUTHOR: bool = false;

/// The directory below the base that holds data of category `t` on Redox:
/// dot-folders below the home directory for the user categories, `etc` or
/// `share` below the filesystem root for the shared ones.
pub open spec fn spec_redox_subfolder(t: AppDataType) -> Seq<char> {
    match t {
        AppDataType::UserConfig => ".config"@,
        AppDataType::UserCache => ".cache"@,
        AppDataType::UserData => ".share"@,
        AppDataType::SharedConfig => "etc"@,
        AppDataType::SharedData => "share"@,
    }
}

/// The single root for `t` under the Redox conventions. `home` is the
/// user's home directory as read by the caller from the live environment;
/// user-scoped categories are unsupported without one.
pub fn get_app_dir(t: AppDataType, home: Option<&str>) -> (root: Result<String, AppDirsError>)
    ensures
        t.spec_is_shared() ==> (root matches Ok(p) && p@ == spec_join(
            "/"@,
            spec_redox_subfolder(t),
        )),
        !t.spec_is_shared() && home is None ==> (root matches Err(e) && e is NotSupported),
        !t.spec_is_shared() && home is Some ==> (root matches Ok(p) && p@ == spec_join(
            home->0@,
            spec_redox_subfolder(t),
        )),
{
    let subfolder: &str = match t {
        AppDataType::UserConfig => ".config",
        AppDataType::UserCache => ".cache",
        AppDataType::UserData => ".share",
        AppDataType::SharedConfig => "etc",
        AppDataType::SharedData => "share",
    };
    if t.is_shared() {
        Ok(join_segment("/", subfolder))
    } else {
        match home {
            None => Err(AppDirsError::NotSupported),
            Some(h) => Ok(join_segment(h, subfolder)),
        }
    }
}

} // verus!
