//! Reading the TOML configuration: the text is parsed by the `toml` crate
//! behind a small trusted boundary, and everything after — which values are
//! essential, which get defaults, and how the connection string is built —
//! is verified here.

use vstd::prelude::*;
use vstd::string::*;

use crate::err::AppError;
use crate::strutil::{
    parse_i32, spec_dec_str, spec_is_blank, spec_is_i32_token, spec_i32_token_val, str_is_blank,
    usize_to_string,
};

verus! {

/// The raw folder section of the configuration, one optional string per key.
#[derive(Debug)]
pub struct TomlFolderPars {
    pub mdr_zipped: Option<String>,
    pub mdr_unzipped: Option<String>,
    pub fdr_zipped: Option<String>,
    pub fdr_unzipped: Option<String>,
    pub log_folder_path: Option<String>,
}

/// The raw database section of the configuration.
#[derive(Debug)]
pub struct TomlDBPars {
    pub db_host: Option<String>,
    pub db_user: Option<String>,
    pub db_password: Option<String>,
    pub db_port: Option<String>,
    pub db_name: Option<String>,
}

/// The raw configuration: its two sections, each absent when the text lacks
/// it.
#[derive(Debug)]
pub struct TomlConfig {
    pub folders: Option<TomlFolderPars>,
    pub database: Option<TomlDBPars>,
}

/// The checked folder parameters.
#[derive(Debug)]
pub struct FolderPars {
    pub mdr_zipped: String,
    pub mdr_unzipped: String,
    pub fdr_zipped: String,
    pub fdr_unzipped: String,
    pub log_folder_path: String,
}

/// The checked database parameters.
#[derive(Debug)]
pub struct DBPars {
    pub db_host: String,
    pub db_user: String,
    pub db_password: String,
    pub db_port: usize,
    pub db_name: String,
}

/// The checked configuration.
#[derive(Debug)]
pub struct Config {
    pub folders: FolderPars,
    pub db_pars: DBPars,
}

/// Whether a text parses as TOML. A function of the text alone.
pub uninterp spec fn toml_text_ok(s: Seq<char>) -> bool;

/// Whether a text that parses has the named top-level entry; false for a
/// text that does not parse. A function of its arguments alone.
pub uninterp spec fn toml_table_at(s: Seq<char>, section: Seq<char>) -> bool;

/// The string under a section and key of a text that parses; nothing when
/// the text does not parse, the key is absent, or the value is no string. A
/// function of its arguments alone.
pub uninterp spec fn toml_string_at(s: Seq<char>, section: Seq<char>, key: Seq<char>) -> Option<
    Seq<char>,
>;

/// Relies on toml::from_str::<toml::Value>: whether the configuration text
/// parses, a deterministic function of the text.
#[verifier::external_body]
fn toml_text_parses(s: &str) -> (r: bool)
    ensures
        r == toml_text_ok(s@),
{
    toml::from_str::<toml::Value>(s).is_ok()
}

/// Relies on toml::from_str and toml::Value::get: whether the parsed text
/// holds the named top-level entry.
#[verifier::external_body]
fn toml_section_present(s: &str, section: &str) -> (r: bool)
    ensures
        r == toml_table_at(s@, section@),
{
    match toml::from_str::<toml::Value>(s) {
        Ok(root) => root.get(section).is_some(),
        Err(_) => false,
    }
}

/// Relies on toml::from_str, toml::Value::get and toml::Value::as_str: the
/// string value under the given section and key of the parsed text.
#[verifier::external_body]
fn toml_read_string(s: &str, section: &str, key: &str) -> (r: Option<String>)
    ensures
        match (r, toml_string_at(s@, section@, key@)) {
            (Some(v), Some(n)) => v@ == n,
            (None, None) => true,
            _ => false,
        },
{
    let root: toml::Value = toml::from_str(s).ok()?;
    let value = root.get(section)?.get(key)?;
    match value.as_str() {
        Some(x) => Some(x.to_string()),
        None => None,
    }
}

/// A present configuration value: neither whitespace alone nor the sentinel
/// "none".
pub open spec fn spec_essential_ok(s: Seq<char>) -> bool {
    !spec_is_blank(s) && s != "none"@
}

/// The detail line of a missing-value error.
pub open spec fn spec_missing_detail(value_name: Seq<char>, config_name: Seq<char>) -> Seq<char> {
    "Cannot find a value for "@ + value_name + " ("@ + config_name + ")."@
}

/// Accepts a configuration value that must be present: absent, blank or
/// "none" is an error naming the value.
pub fn check_essential_string(src_name: Option<String>, value_name: &str, config_name: &str) -> (r:
    Result<String, AppError>)
    ensures
        match src_name {
            Some(s) => if spec_essential_ok(s@) {
                r is Ok && r.unwrap()@ == s@
            } else {
                r is Err
            },
            None => r is Err,
        },
        r is Err ==> (r->Err_0 matches AppError::ConfigurationError(p, d) && p@
            == "Essential configuration value missing or misspelt."@ && d@ == spec_missing_detail(
            value_name@,
            config_name@,
        )),
{
    match src_name {
        Some(s) => {
            let is_none_word = s == String::from_str("none");
            if !is_none_word && !str_is_blank(s.as_str()) {
                return Ok(s);
            }
        },
        None => {},
    }
    let p = "Essential configuration value missing or misspelt.".to_owned();
    let mut d = "Cannot find a value for ".to_owned();
    d.append(value_name);
    d.append(" (");
    d.append(config_name);
    d.append(").");
    proof {
        assert(d@ =~= spec_missing_detail(value_name@, config_name@));
    }
    Err(AppError::ConfigurationError(p, d))
}

/// What a defaulted configuration value works out to.
pub open spec fn spec_defaulted(src_name: Option<String>, default: Seq<char>) -> Seq<char> {
    match src_name {
        Some(s) => if spec_essential_ok(s@) {
            s@
        } else {
            default
        },
        None => default,
    }
}

/// Accepts a configuration value that has a default: absent, blank or "none"
/// falls back to the default.
pub fn check_defaulted_string(src_name: Option<String>, default: &str) -> (r: String)
    ensures
        r@ == spec_defaulted(src_name, default@),
{
    match src_name {
        Some(s) => {
            let is_none_word = s == String::from_str("none");
            if !is_none_word && !str_is_blank(s.as_str()) {
                s
            } else {
                default.to_owned()
            }
        },
        None => default.to_owned(),
    }
}

/// An optional value that is present and passes the essential check.
pub open spec fn spec_essential_some(o: Option<String>) -> bool {
    o matches Some(s) && spec_essential_ok(s@)
}

/// Checks the folder section: the mdr pair and the log folder are essential,
/// the ad hoc pair defaults to empty.
pub fn verify_file_parameters(toml_folders: TomlFolderPars) -> (r: Result<FolderPars, AppError>)
    ensures
        r is Ok <==> spec_essential_some(toml_folders.mdr_zipped) && spec_essential_some(
            toml_folders.mdr_unzipped,
        ) && spec_essential_some(toml_folders.log_folder_path),
        r is Err ==> (r->Err_0 matches AppError::ConfigurationError(_, d) && d@ == (
        if !spec_essential_some(toml_folders.mdr_zipped) {
            spec_missing_detail("mdr zipped folder"@, "mdr_zipped"@)
        } else if !spec_essential_some(toml_folders.mdr_unzipped) {
            spec_missing_detail("mdr unzipped folder"@, "mdr_unzipped"@)
        } else {
            spec_missing_detail("log folder"@, "log_folder_path"@)
        })),
        match r {
            Ok(fp) => {
                &&& toml_folders.mdr_zipped matches Some(s) && fp.mdr_zipped@ == s@
                    && spec_essential_ok(s@)
                &&& toml_folders.mdr_unzipped matches Some(s) && fp.mdr_unzipped@ == s@
                    && spec_essential_ok(s@)
                &&& toml_folders.log_folder_path matches Some(s) && fp.log_folder_path@ == s@
                    && spec_essential_ok(s@)
                &&& fp.fdr_zipped@ == spec_defaulted(toml_folders.fdr_zipped, ""@)
                &&& fp.fdr_unzipped@ == spec_defaulted(toml_folders.fdr_unzipped, ""@)
            },
            Err(e) => e is ConfigurationError,
        },
{
    let mdr_zipped = check_essential_string(toml_folders.mdr_zipped, "mdr zipped folder", "mdr_zipped")?;
    let mdr_unzipped = check_essential_string(
        toml_folders.mdr_unzipped,
        "mdr unzipped folder",
        "mdr_unzipped",
    )?;
    let fdr_zipped = check_defaulted_string(toml_folders.fdr_zipped, "");
    let fdr_unzipped = check_defaulted_string(toml_folders.fdr_unzipped, "");
    let log_folder_path = check_essential_string(
        toml_folders.log_folder_path,
        "log folder",
        "log_folder_path",
    )?;
    Ok(FolderPars { mdr_zipped, mdr_unzipped, fdr_zipped, fdr_unzipped, log_folder_path })
}

/// The port a raw string works out to: its numeric value when it parses as a
/// non-negative integer, the usual default otherwise.
pub open spec fn spec_port_of(s: Seq<char>) -> int {
    if spec_is_i32_token(s) && spec_i32_token_val(s) >= 0 {
        spec_i32_token_val(s)
    } else {
        5432
    }
}

/// Checks the database section: user and password are essential, host, port
/// and name have defaults.
pub fn verify_db_parameters(toml_database: TomlDBPars) -> (r: Result<DBPars, AppError>)
    ensures
        r is Ok <==> spec_essential_some(toml_database.db_user) && spec_essential_some(
            toml_database.db_password,
        ),
        r is Err ==> (r->Err_0 matches AppError::ConfigurationError(_, d) && d@ == (
        if !spec_essential_some(toml_database.db_user) {
            spec_missing_detail("database user name"@, "db_user"@)
        } else {
            spec_missing_detail("database user password"@, "db_password"@)
        })),
        match r {
            Ok(dbp) => {
                &&& toml_database.db_user matches Some(s) && dbp.db_user@ == s@
                    && spec_essential_ok(s@)
                &&& toml_database.db_password matches Some(s) && dbp.db_password@ == s@
                    && spec_essential_ok(s@)
                &&& dbp.db_host@ == spec_defaulted(toml_database.db_host, "localhost"@)
                &&& dbp.db_port == spec_port_of(spec_defaulted(toml_database.db_port, "5432"@))
                &&& dbp.db_name@ == spec_defaulted(toml_database.db_name, "geo"@)
            },
            Err(e) => e is ConfigurationError,
        },
{
    let db_user = check_essential_string(toml_database.db_user, "database user name", "db_user")?;
    let db_password = check_essential_string(
        toml_database.db_password,
        "database user password",
        "db_password",
    )?;
    let db_host = check_defaulted_string(toml_database.db_host, "localhost");
    let db_port_as_string = check_defaulted_string(toml_database.db_port, "5432");
    let db_port: usize = match parse_i32(db_port_as_string.as_str()) {
        Some(v) => if v >= 0 {
            v as usize
        } else {
            5432
        },
        None => 5432,
    };
    let db_name = check_defaulted_string(toml_database.db_name, "geo");
    Ok(DBPars { db_host, db_user, db_password, db_port, db_name })
}

/// A value of one key of the parsed text: present and passing the essential
/// check.
pub open spec fn spec_essential_at(s: Seq<char>, section: Seq<char>, key: Seq<char>) -> bool {
    toml_string_at(s, section, key) matches Some(v) && spec_essential_ok(v)
}

/// What a defaulted key of the parsed text works out to.
pub open spec fn spec_defaulted_at(
    s: Seq<char>,
    section: Seq<char>,
    key: Seq<char>,
    default: Seq<char>,
) -> Seq<char> {
    match toml_string_at(s, section, key) {
        Some(v) => if spec_essential_ok(v) {
            v
        } else {
            default
        },
        None => default,
    }
}

/// A complete configuration text: it parses, both sections are present, and
/// the five essential values pass.
pub open spec fn spec_config_ok(s: Seq<char>) -> bool {
    &&& toml_text_ok(s)
    &&& toml_table_at(s, "database"@)
    &&& toml_table_at(s, "folders"@)
    &&& spec_essential_at(s, "folders"@, "mdr_zipped"@)
    &&& spec_essential_at(s, "folders"@, "mdr_unzipped"@)
    &&& spec_essential_at(s, "folders"@, "log_folder_path"@)
    &&& spec_essential_at(s, "database"@, "db_user"@)
    &&& spec_essential_at(s, "database"@, "db_password"@)
}

/// Reads and checks the whole configuration text: it succeeds exactly on a
/// complete text, and the checked values are then the text's own, with the
/// documented defaults filled in.
pub fn populate_config_vars(config_string: &String) -> (r: Result<Config, AppError>)
    ensures
        r is Ok <==> spec_config_ok(config_string@),
        match r {
            Err(e) => {
                let s = config_string@;
                &&& e is ConfigurationError
                &&& if !toml_text_ok(s) {
                    e matches AppError::ConfigurationError(p, _) && p@
                        == "Unable to parse config file."@
                } else if !toml_table_at(s, "database"@) {
                    e matches AppError::ConfigurationError(_, d) && d@
                        == "Cannot find a section called '[database]'."@
                } else if !toml_table_at(s, "folders"@) {
                    e matches AppError::ConfigurationError(_, d) && d@
                        == "Cannot find a section called '[folders]'."@
                } else if !spec_essential_at(s, "folders"@, "mdr_zipped"@) {
                    e matches AppError::ConfigurationError(_, d) && d@ == spec_missing_detail(
                        "mdr zipped folder"@,
                        "mdr_zipped"@,
                    )
                } else if !spec_essential_at(s, "folders"@, "mdr_unzipped"@) {
                    e matches AppError::ConfigurationError(_, d) && d@ == spec_missing_detail(
                        "mdr unzipped folder"@,
                        "mdr_unzipped"@,
                    )
                } else if !spec_essential_at(s, "folders"@, "log_folder_path"@) {
                    e matches AppError::ConfigurationError(_, d) && d@ == spec_missing_detail(
                        "log folder"@,
                        "log_folder_path"@,
                    )
                } else if !spec_essential_at(s, "database"@, "db_user"@) {
                    e matches AppError::ConfigurationError(_, d) && d@ == spec_missing_detail(
                        "database user name"@,
                        "db_user"@,
                    )
                } else {
                    e matches AppError::ConfigurationError(_, d) && d@ == spec_missing_detail(
                        "database user password"@,
                        "db_password"@,
                    )
                }
            },
            Ok(c) => {
                let s = config_string@;
                &&& c.folders.mdr_zipped@ == toml_string_at(
                    s,
                    "folders"@,
                    "mdr_zipped"@,
                ).unwrap()
                &&& c.folders.mdr_unzipped@ == toml_string_at(
                    s,
                    "folders"@,
                    "mdr_unzipped"@,
                ).unwrap()
                &&& c.folders.log_folder_path@ == toml_string_at(
                    s,
                    "folders"@,
                    "log_folder_path"@,
                ).unwrap()
                &&& c.folders.fdr_zipped@ == spec_defaulted_at(s, "folders"@, "fdr_zipped"@, ""@)
                &&& c.folders.fdr_unzipped@ == spec_defaulted_at(
                    s,
                    "folders"@,
                    "fdr_unzipped"@,
                    ""@,
                )
                &&& c.db_pars.db_user@ == toml_string_at(s, "database"@, "db_user"@).unwrap()
                &&& c.db_pars.db_password@ == toml_string_at(
                    s,
                    "database"@,
                    "db_password"@,
                ).unwrap()
                &&& c.db_pars.db_host@ == spec_defaulted_at(
                    s,
                    "database"@,
                    "db_host"@,
                    "localhost"@,
                )
                &&& c.db_pars.db_port == spec_port_of(
                    spec_defaulted_at(s, "database"@, "db_port"@, "5432"@),
                )
                &&& c.db_pars.db_name@ == spec_defaulted_at(s, "database"@, "db_name"@, "geo"@)
                &&& spec_essential_ok(c.folders.mdr_zipped@)
                &&& spec_essential_ok(c.folders.mdr_unzipped@)
                &&& spec_essential_ok(c.folders.log_folder_path@)
                &&& spec_essential_ok(c.db_pars.db_user@)
                &&& spec_essential_ok(c.db_pars.db_password@)
            },
        },
{
    let cs = config_string.as_str();
    if !toml_text_parses(cs) {
        return Err(
            AppError::ConfigurationError(
                "Unable to parse config file.".to_owned(),
                "File (app_config.toml) may be malformed.".to_owned(),
            ),
        );
    }
    let toml_config = TomlConfig {
        folders: if toml_section_present(cs, "folders") {
            Some(
                TomlFolderPars {
                    mdr_zipped: toml_read_string(cs, "folders", "mdr_zipped"),
                    mdr_unzipped: toml_read_string(cs, "folders", "mdr_unzipped"),
                    fdr_zipped: toml_read_string(cs, "folders", "fdr_zipped"),
                    fdr_unzipped: toml_read_string(cs, "folders", "fdr_unzipped"),
                    log_folder_path: toml_read_string(cs, "folders", "log_folder_path"),
                },
            )
        } else {
            None
        },
        database: if toml_section_present(cs, "database") {
            Some(
                TomlDBPars {
                    db_host: toml_read_string(cs, "database", "db_host"),
                    db_user: toml_read_string(cs, "database", "db_user"),
                    db_password: toml_read_string(cs, "database", "db_password"),
                    db_port: toml_read_string(cs, "database", "db_port"),
                    db_name: toml_read_string(cs, "database", "db_name"),
                },
            )
        } else {
            None
        },
    };
    let toml_database = match toml_config.database {
        Some(d) => d,
        None => {
            return Err(
                AppError::ConfigurationError(
                    "Missing or misspelt configuration section.".to_owned(),
                    "Cannot find a section called '[database]'.".to_owned(),
                ),
            );
        },
    };
    let toml_folders = match toml_config.folders {
        Some(f) => f,
        None => {
            return Err(
                AppError::ConfigurationError(
                    "Missing or misspelt configuration section.".to_owned(),
                    "Cannot find a section called '[folders]'.".to_owned(),
                ),
            );
        },
    };
    let config_folders = verify_file_parameters(toml_folders)?;
    let config_db_pars = verify_db_parameters(toml_database)?;
    Ok(Config { folders: config_folders, db_pars: config_db_pars })
}

/// The database name to connect to, from explicitly held parameters.
pub fn fetch_db_name(db_pars: &Option<DBPars>) -> (r: Result<String, AppError>)
    ensures
        match db_pars {
            Some(dbp) => r is Ok && r.unwrap()@ == dbp.db_name@,
            None => r matches Err(AppError::MissingDBParameters),
        },
{
    match db_pars {
        Some(dbp) => Ok(dbp.db_name.clone()),
        None => Err(AppError::MissingDBParameters),
    }
}

/// The connection string a database name works out to.
pub open spec fn spec_conn_string(dbp: DBPars, db_name: Seq<char>) -> Seq<char> {
    "postgres://"@ + dbp.db_user@ + ":"@ + dbp.db_password@ + "@"@ + dbp.db_host@ + ":"@
        + spec_dec_str(dbp.db_port as int) + "/"@ + db_name
}

/// Builds the connection string for a database, from explicitly held
/// parameters.
pub fn fetch_db_conn_string(db_pars: &Option<DBPars>, db_name: &str) -> (r: Result<
    String,
    AppError,
>)
    ensures
        match db_pars {
            Some(dbp) => r is Ok && r.unwrap()@ == spec_conn_string(*dbp, db_name@),
            None => r matches Err(AppError::MissingDBParameters),
        },
{
    match db_pars {
        Some(dbp) => {
            let mut r = "postgres://".to_owned();
            r.append(dbp.db_user.as_str());
            r.append(":");
            r.append(dbp.db_password.as_str());
            r.append("@");
            r.append(dbp.db_host.as_str());
            r.append(":");
            r.append(usize_to_string(dbp.db_port).as_str());
            r.append("/");
            r.append(db_name);
            proof {
                assert(r@ =~= spec_conn_string(*dbp, db_name@));
            }
            Ok(r)
        },
        None => Err(AppError::MissingDBParameters),
    }
}

} // verus!
