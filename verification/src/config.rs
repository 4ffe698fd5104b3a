//! Where the slicer keeps its settings, and the field methods a setting
//! can select.

use crate::paths::{join_path, path_joined};
use vstd::prelude::*;

verus! {

/// The directory, under the platform's configuration directory, that holds
/// the slicer's files.
pub const APP_DIR_NAME: &'static str = "shockwave-slicer";

/// The name of the settings file inside the application directory.
pub const SETTINGS_FILE_NAME: &'static str = "settings.json";

/// How the layer field is propagated through the part.
#[derive(Clone, Copy, Debug, PartialEq, Eq, Structural)]
pub enum FieldMethod {
    Anisotropic,
    Trapezoid,
}

/// The name by which settings and the command line refer to a method.
pub open spec fn method_name(method: FieldMethod) -> Seq<char> {
    match method {
        FieldMethod::Anisotropic => "anisotropic"@,
        FieldMethod::Trapezoid => "trapezoid"@,
    }
}

impl FieldMethod {
    /// The method's name: `anisotropic` or `trapezoid`.
    pub fn name(self) -> (r: &'static str)
        ensures
            r@ == method_name(self),
    {
        match self {
            FieldMethod::Anisotropic => "anisotropic",
            FieldMethod::Trapezoid => "trapezoid",
        }
    }
}

/// The settings file's path under the configuration directory `config_dir`:
/// `<config_dir>/shockwave-slicer/settings.json`.
pub open spec fn settings_file_in(config_dir: Seq<char>) -> Seq<char> {
    path_joined(path_joined(config_dir, "shockwave-slicer"@), "settings.json"@)
}

/// The settings file's path under the configuration directory `config_dir`.
pub fn settings_path_in_config_dir(config_dir: &str) -> (r: String)
    ensures
        r@ == settings_file_in(config_dir@),
{
    let app_dir = join_path(config_dir, APP_DIR_NAME);
    join_path(app_dir.as_str(), SETTINGS_FILE_NAME)
}

/// The text of the error for a platform without a configuration directory.
pub open spec fn no_config_dir_message() -> Seq<char> {
    "could not determine platform config directory"@
}

/// The settings file's path, given the platform's configuration directory
/// (absent where the platform has none, which is an error).
pub fn settings_path(config_dir: Option<String>) -> (r: Result<String, String>)
    ensures
        config_dir is None ==> (r matches Err(e) && e@ == no_config_dir_message()),
        config_dir matches Some(d) ==> (r matches Ok(p) && p@ == settings_file_in(d@)),
{
    match config_dir {
        None => Err(String::from_str("could not determine platform config directory")),
        Some(dir) => Ok(settings_path_in_config_dir(dir.as_str())),
    }
}

} // verus!
