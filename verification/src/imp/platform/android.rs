use vstd::prelude::*;

use crate::common::AppDataType;
use crate::common::AppDirsError;

verus! {

/// Android's app-context directories are already app-private, so no
/// vendor segment is needed.
pub const USE_AUTHOR: bool = false;

/// The name of the Android application-context method that reports the
/// directory holding data of category `t`: the shared categories map to
/// the app's external files directory, the user categories to its private
/// data, files and cache directories.
pub open spec fn spec_context_method(t: AppDataType) -> Seq<char> {
    match t {
        AppDataType::UserConfig => "getDataDir"@,
        AppDataType::UserData => "getFilesDir"@,
        AppDataType::UserCache => "getCacheDir"@,
        AppDataType::SharedData => "getExternalFilesDir"@,
        AppDataType::SharedConfig => "getExternalFilesDir"@,
    }
}

/// The Android application-context method for `t`, and whether that
/// method takes a (null) string argument. The caller owning the
/// native-runtime bridge invokes the named method and hands the resulting
/// path back.
pub fn context_method(t: AppDataType) -> (method: (&'static str, bool))
    ensures
        method.0@ == spec_context_method(t),
        method.1 == t.spec_is_shared(),
{
    match t {
        AppDataType::UserConfig => ("getDataDir", false),
        AppDataType::UserData => ("getFilesDir", false),
        AppDataType::UserCache => ("getCacheDir", false),
        AppDataType::SharedData | AppDataType::SharedConfig => ("getExternalFilesDir", true),
    }
}

/// How the Android lookup proceeds after the XDG attempt.
pub enum AndroidStep {
    /// The XDG environment already names the directory; it is final.
    Resolved(String),
    /// The environment names none: the caller must invoke this context
    /// method on the application context (its name, and whether it takes
    /// a null string argument) and use its answer.
    Query(&'static str, bool),
}

/// The Android precedence rule: constrained runtimes (such as Termux)
/// have no application context but do set the usual XDG environment
/// variables, so a directory resolved from those is final; only when the
/// environment yields none is the application context to be queried, with
/// the method for `t`.
pub fn next_step(t: AppDataType, xdg_outcome: Result<String, AppDirsError>) -> (step: AndroidStep)
    ensures
        xdg_outcome matches Ok(p) ==> (step matches AndroidStep::Resolved(q) && q == p),
        xdg_outcome is Err ==> (step matches AndroidStep::Query(m, b) && m@
            == spec_context_method(t) && b == t.spec_is_shared()),
{
    match xdg_outcome {
        Ok(dir) => AndroidStep::Resolved(dir),
        Err(_) => {
            let method = context_method(t);
            AndroidStep::Query(method.0, method.1)
        },
    }
}

} // verus!
