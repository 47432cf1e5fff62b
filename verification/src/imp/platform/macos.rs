use vstd::prelude::*;

use crate::common::AppDataType;
use crate::common::AppDirsError;
use crate::paths::join_segment;
use crate::paths::spec_join;

verus! {

/// macOS conventions do not namespace app directories by vendor.
pub const USE_AUTHOR: bool = false;

/// The `Library` subfolder that holds data of category `t`.
pub open spec fn spec_library_subfolder(t: AppDataType) -> Seq<char> {
    if t is UserCache {
        "Library/Caches"@
    } else {
        "Library/Application Support"@
    }
}

/// The single root for `t` under the macOS conventions: a `Library`
/// subfolder of the filesystem root for the shared categories, of the
/// caller-supplied home directory otherwise. `home` is the user's home
/// directory as read by the caller from the live environment; user-scoped
/// categories are unsupported without one.
pub fn get_app_dir(t: AppDataType, home: Option<&str>) -> (root: Result<String, AppDirsError>)
    ensures
        t.spec_is_shared() ==> (root matches Ok(p) && p@ == spec_join(
            "/"@,
            spec_library_subfolder(t),
        )),
        !t.spec_is_shared() && home is None ==> (root matches Err(e) && e is NotSupported),
        !t.spec_is_shared() && home is Some ==> (root matches Ok(p) && p@ == spec_join(
            home->0@,
            spec_library_subfolder(t),
        )),
{
    let subfolder: &str = match t {
        AppDataType::UserCache => "Library/Caches",
        _ => "Library/Application Support",
    };
    if t.is_shared() {
        Ok(join_segment("/", subfolder))
    } else {
        match home {
            None => Err(AppDirsError::NotSupported),
            Some(h) => Ok(join_segment(h, subfolder)),
        }
    }
}

} // verus!
