use vstd::prelude::*;

use crate::common::AppDataType;
use crate::common::AppDirsError;

verus! {

/// XDG conventions do not namespace app directories by vendor, so the
/// author segment takes no part in app paths here.
pub const USE_AUTHOR: bool = false;

/// Declares `xdg::BaseDirectories`: a snapshot of the XDG base-directory
/// environment, taken when it is constructed.
#[verifier::external_type_specification]
#[verifier::external_body]
pub struct ExBaseDirectories(xdg::BaseDirectories);

/// Relies on `xdg::BaseDirectories::new`: reads the XDG environment
/// variables; it fails exactly when no home directory can be determined.
#[verifier::external_body]
fn open_base_directories() -> Option<xdg::BaseDirectories> {
    xdg::BaseDirectories::new().ok()
}

/// Relies on `xdg::BaseDirectories::get_config_home`: the user's
/// configuration directory, `$XDG_CONFIG_HOME` or `$HOME/.config`; the
/// path is built from a non-empty home or environment value, so it is
/// never empty.
#[verifier::external_body]
fn config_home_of(x: &xdg::BaseDirectories) -> (dir: String)
    ensures
        dir@.len() > 0,
{
    x.get_config_home().to_string_lossy().into_owned()
}

/// Relies on `xdg::BaseDirectories::get_data_home`: the user's data
/// directory, `$XDG_DATA_HOME` or `$HOME/.local/share`; never empty.
#[verifier::external_body]
fn data_home_of(x: &xdg::BaseDirectories) -> (dir: String)
    ensures
        dir@.len() > 0,
{
    x.get_data_home().to_string_lossy().into_owned()
}

/// Relies on `xdg::BaseDirectories::get_cache_home`: the user's cache
/// directory, `$XDG_CACHE_HOME` or `$HOME/.cache`; never empty.
#[verifier::external_body]
fn cache_home_of(x: &xdg::BaseDirectories) -> (dir: String)
    ensures
        dir@.len() > 0,
{
    x.get_cache_home().to_string_lossy().into_owned()
}

/// Relies on `xdg::BaseDirectories::get_config_dirs`: the ordered shared
/// configuration search path, `$XDG_CONFIG_DIRS` or `/etc/xdg`; it keeps
/// only absolute entries, so every returned path starts with `/`, and an
/// empty or all-relative variable falls back to the non-empty default, so
/// the list is never empty.
#[verifier::external_body]
fn config_dirs_of(x: &xdg::BaseDirectories) -> (dirs: Vec<String>)
    ensures
        dirs@.len() > 0,
        forall|i: int|
            0 <= i < dirs.deep_view().len() ==> (#[trigger] dirs.deep_view()[i]).len() > 0
                && dirs.deep_view()[i][0] == '/',
{
    x.get_config_dirs().iter().map(|p| p.to_string_lossy().into_owned()).collect()
}

/// Relies on `xdg::BaseDirectories::get_data_dirs`: the ordered shared
/// data search path, `$XDG_DATA_DIRS` or `/usr/local/share:/usr/share`; it
/// keeps only absolute entries, so every returned path starts with `/`,
/// and an empty or all-relative variable falls back to the non-empty
/// default, so the list is never empty.
#[verifier::external_body]
fn data_dirs_of(x: &xdg::BaseDirectories) -> (dirs: Vec<String>)
    ensures
        dirs@.len() > 0,
        forall|i: int|
            0 <= i < dirs.deep_view().len() ==> (#[trigger] dirs.deep_view()[i]).len() > 0
                && dirs.deep_view()[i][0] == '/',
{
    x.get_data_dirs().iter().map(|p| p.to_string_lossy().into_owned()).collect()
}

/// The ordered candidate roots for `t` under the XDG conventions: a single
/// home directory for the user categories, the full search path for the
/// shared ones. Fails with `NotSupported` when the environment yields no
/// usable directory at all.
pub fn get_app_dirs(t: AppDataType) -> (roots: Result<Vec<String>, AppDirsError>)
    ensures
        roots is Err ==> roots->Err_0 is NotSupported,
        roots is Ok ==> roots->Ok_0@.len() > 0,
        roots is Ok && !t.spec_is_shared() ==> roots->Ok_0@.len() == 1,
        roots is Ok ==> forall|i: int|
            0 <= i < roots->Ok_0.deep_view().len() ==> (#[trigger] roots->Ok_0.deep_view()[
                i
            ]).len() > 0,
        roots is Ok && t.spec_is_shared() ==> forall|i: int|
            0 <= i < roots->Ok_0.deep_view().len() ==> (#[trigger] roots->Ok_0.deep_view()[i])[0]
                == '/',
{
    let base = match open_base_directories() {
        Some(x) => x,
        None => {
            return Err(AppDirsError::NotSupported);
        },
    };
    match t {
        AppDataType::UserConfig => {
            let mut v: Vec<String> = Vec::new();
            v.push(config_home_of(&base));
            Ok(v)
        },
        AppDataType::UserData => {
            let mut v: Vec<String> = Vec::new();
            v.push(data_home_of(&base));
            Ok(v)
        },
        AppDataType::UserCache => {
            let mut v: Vec<String> = Vec::new();
            v.push(cache_home_of(&base));
            Ok(v)
        },
        AppDataType::SharedConfig => {
            let v = config_dirs_of(&base);
            if v.len() == 0 {
                Err(AppDirsError::NotSupported)
            } else {
                Ok(v)
            }
        },
        AppDataType::SharedData => {
            let v = data_dirs_of(&base);
            if v.len() == 0 {
                Err(AppDirsError::NotSupported)
            } else {
                Ok(v)
            }
        },
    }
}

/// The single best root for `t`: the most preferred candidate reported by
/// [`get_app_dirs`].
pub fn get_app_dir(t: AppDataType) -> (root: Result<String, AppDirsError>)
    ensures
        root is Err ==> root->Err_0 is NotSupported,
        root is Ok ==> root->Ok_0@.len() > 0,
        root is Ok && t.spec_is_shared() ==> root->Ok_0@[0] == '/',
{
    match get_app_dirs(t) {
        Err(e) => Err(e),
        Ok(mut v) => {
            proof {
                assert(v.deep_view()[0] == v@[0]@);
            }
            let first = v.remove(0);
            Ok(first)
        },
    }
}

} // verus!
