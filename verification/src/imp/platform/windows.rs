use vstd::prelude::*;

use crate::common::AppDataType;
use crate::common::AppDirsError;

verus! {

/// Windows keys per-vendor subfolders below the shared app-data roots, so
/// the author segment takes part in app paths.
pub const USE_AUTHOR: bool = true;

/// The three known folders the Windows layout draws from, as resolved by
/// the caller through the platform's known-folder lookup; `None` records a
/// lookup that failed.
pub struct KnownFolders {
    /// The roaming app-data folder (`%APPDATA%`).
    pub roaming_app_data: Option<String>,
    /// The local app-data folder (`%LOCALAPPDATA%`).
    pub local_app_data: Option<String>,
    /// The machine-wide program-data folder (`%ProgramData%`).
    pub program_data: Option<String>,
}

/// The known folder that holds data of category `t`: user configuration
/// roams with the user, caches and user data stay local to the machine,
/// and the shared categories live under the machine-wide program data.
pub open spec fn spec_known_folder(t: AppDataType, folders: KnownFolders) -> Option<String> {
    match t {
        AppDataType::UserConfig => folders.roaming_app_data,
        AppDataType::SharedConfig => folders.program_data,
        AppDataType::SharedData => folders.program_data,
        AppDataType::UserCache => folders.local_app_data,
        AppDataType::UserData => folders.local_app_data,
    }
}

/// The single root for `t` under the Windows conventions, given the
/// resolved known folders; a category whose known-folder lookup failed is
/// unsupported.
pub fn get_app_dir(t: AppDataType, folders: &KnownFolders) -> (root: Result<String, AppDirsError>)
    ensures
        spec_known_folder(t, *folders) matches Some(p) ==> (root matches Ok(q) && q@ == p@),
        spec_known_folder(t, *folders) is None ==> (root matches Err(e) && e is NotSupported),
{
    let folder = match t {
        AppDataType::UserConfig => &folders.roaming_app_data,
        AppDataType::SharedConfig | AppDataType::SharedData => &folders.program_data,
        AppDataType::UserCache | AppDataType::UserData => &folders.local_app_data,
    };
    match folder {
        Some(p) => Ok(p.clone()),
        None => Err(AppDirsError::NotSupported),
    }
}

} // verus!
