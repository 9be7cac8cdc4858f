//! The application settings and where the application keeps its files.
use vstd::prelude::*;

verus! {

/// Switches the user can change.
#[derive(Debug, Clone)]
pub struct FeatureFlags {
    /// Rescan the registered folders when the application starts.
    pub update_db_when_startup: bool,
    /// The interface language code.
    pub language: String,
}

/// The persisted settings.
#[derive(Debug, Clone)]
pub struct Config {
    pub feature_flags: FeatureFlags,
}

/// The settings written on first start: no rescan at startup, Japanese
/// interface.
pub fn default_config() -> (r: Config)
    ensures
        !r.feature_flags.update_db_when_startup,
        r.feature_flags.language@ == "ja"@,
{
    Config {
        feature_flags: FeatureFlags {
            update_db_when_startup: false,
            language: String::from_str("ja"),
        },
    }
}

/// The directory under the local data directory that holds everything.
pub const APP_DIR_NAME: &'static str = "VRCX PhotoSearch";

/// The settings directory, under `APP_DIR_NAME`.
pub const CONFIG_DIR_NAME: &'static str = "config";

/// The settings file, in the settings directory.
pub const CONFIG_FILE_NAME: &'static str = "config.json";

/// The database directory, under `APP_DIR_NAME`.
pub const DATABASE_DIR_NAME: &'static str = "database";

/// The directory of index databases, under the database directory.
pub const INDEX_DIR_NAME: &'static str = "indexes";

/// The main database file, in the database directory.
pub const MAIN_DB_FILE_NAME: &'static str = "main.db";

/// The file name of the index database called `name`.
pub fn index_db_file_name(name: &str) -> (r: String)
    ensures
        r@ == name@ + ".db"@,
{
    let mut f = String::from_str(name);
    f.append(".db");
    f
}

} // verus!
