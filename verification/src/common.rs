use vstd::prelude::*;

verus! {

/// Identity of the calling application, used to namespace its directories.
///
/// Both fields must be non-empty; app-scoped queries reject an identity with
/// an empty `name` or `author` with [`AppDirsError::InvalidAppData`]. The
/// resulting paths are more readable when both stick to letters, digits,
/// spaces, hyphens and underscores, since every other character is escaped
/// (see [`crate::sanitized`]).
///
/// The `author` field only influences the path on platforms whose
/// conventions fold the vendor into the directory tree (Windows).
#[derive(Clone, Debug, PartialEq, Eq, Hash)]
pub struct AppInfo {
    /// Name of the app (e.g. "Hearthstone").
    pub name: &'static str,
    /// Author of the app (e.g. "Blizzard").
    pub author: &'static str,
}

/// The five logical categories of application data.
///
/// Platforms are not guaranteed to distinguish every category: on Windows,
/// for example, every category except `UserCache` resolves to the same root.
#[derive(Clone, Copy, PartialEq, Eq, Hash, Debug, Structural)]
pub enum AppDataType {
    /// User-specific app configuration data.
    UserConfig,
    /// User-specific arbitrary app data.
    UserData,
    /// User-specific app cache data.
    UserCache,
    /// System-wide arbitrary app data.
    SharedData,
    /// System-wide app configuration data.
    SharedConfig,
}

impl AppDataType {
    /// Whether this category is system-wide rather than per-user.
    pub open spec fn spec_is_shared(self) -> bool {
        self is SharedData || self is SharedConfig
    }

    /// Returns `true` for the non-user-specific categories.
    pub fn is_shared(&self) -> (shared: bool)
        ensures
            shared == self.spec_is_shared(),
    {
        match *self {
            AppDataType::SharedData | AppDataType::SharedConfig => true,
            _ => false,
        }
    }
}

/// Declares `std::io::Error` so that [`AppDirsError`] can carry the cause of
/// a failed directory creation. This crate's own functions never construct
/// one; only the directory-creating callers around the library do.
#[verifier::external_type_specification]
#[verifier::external_body]
pub struct ExIoError(std::io::Error);

/// Error type for every operation of this crate.
#[derive(Debug)]
pub enum AppDirsError {
    /// An I/O error occurred while creating a directory.
    Io(std::io::Error),
    /// The platform/category combination has no resolvable root (e.g. the
    /// required environment variables are missing).
    NotSupported,
    /// The app identity was invalid (empty name or author).
    InvalidAppData,
}

impl From<std::io::Error> for AppDirsError {
    /// Wraps an I/O error from a failed directory creation.
    fn from(e: std::io::Error) -> (r: AppDirsError) {
        AppDirsError::Io(e)
    }
}

impl vstd::std_specs::convert::FromSpecImpl<std::io::Error> for AppDirsError {
    open spec fn obeys_from_spec() -> bool {
        true
    }

    open spec fn from_spec(e: std::io::Error) -> Self {
        AppDirsError::Io(e)
    }
}

} // verus!
