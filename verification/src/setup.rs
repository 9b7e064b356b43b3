//! Combining the command-line values with the configuration into the run's
//! parameters: the id list is parsed, folder values are defaulted, and the
//! mode rules are enforced. Creating folders on disk and configuring the log
//! sinks happen outside; this module only decides.

use vstd::prelude::*;
use vstd::string::*;

use crate::cli_reader::{CliPars, Flags};
use crate::config_reader::{populate_config_vars, spec_config_ok, spec_defaulted_at, toml_string_at};
use crate::err::AppError;
use crate::strutil::{
    parse_i32, spec_is_i32_token, spec_i32_token_val, spec_split_commas, spec_trim, trim_str,
    split_commas,
};

verus! {

/// The run's resolved parameters.
#[derive(Debug)]
pub struct InitParams {
    pub mdr_zipped: String,
    pub mdr_unzipped: String,
    pub fdr_zipped: String,
    pub fdr_unzipped: String,
    pub log_folder_path: String,
    pub source_list: Vec<i32>,
    pub flags: Flags,
}

/// The ids a token list yields: each token trimmed, parsed as an integer,
/// and silently dropped when it does not parse.
pub open spec fn spec_token_ids(toks: Seq<Seq<char>>) -> Seq<i32>
    decreases toks.len(),
{
    if toks.len() == 0 {
        Seq::empty()
    } else {
        spec_token_ids(toks.drop_last()) + if spec_is_i32_token(spec_trim(toks.last())) {
            seq![spec_i32_token_val(spec_trim(toks.last())) as i32]
        } else {
            Seq::empty()
        }
    }
}

/// The ids a comma-separated list yields; the empty string yields none.
pub open spec fn spec_source_ids(s: Seq<char>) -> Seq<i32> {
    if s.len() == 0 {
        Seq::empty()
    } else {
        spec_token_ids(spec_split_commas(s))
    }
}

/// Parses a comma-separated id list, dropping non-numeric tokens silently.
#[verifier::loop_isolation(false)]
pub fn parse_source_list(s: &str) -> (ids: Vec<i32>)
    ensures
        ids@ == spec_source_ids(s@),
{
    let mut ids: Vec<i32> = Vec::new();
    if s.unicode_len() == 0 {
        proof {
            assert(ids@ =~= spec_source_ids(s@));
        }
        return ids;
    }
    let toks = split_commas(s);
    let ghost tv = spec_split_commas(s@);
    proof {
        assert(ids@ =~= spec_token_ids(tv.take(0)));
    }
    let n = toks.len();
    let mut i: usize = 0;
    while i < n
        invariant
            0 <= i <= n,
            n == tv.len(),
            toks@.map_values(|t: String| t@) == tv,
            ids@ == spec_token_ids(tv.take(i as int)),
        decreases n - i,
    {
        proof {
            assert(tv.take(i as int + 1).drop_last() =~= tv.take(i as int));
            assert(tv.take(i as int + 1).last() == tv[i as int]);
            assert(toks@[i as int]@ == tv[i as int]);
        }
        let trimmed = trim_str(toks[i].as_str());
        match parse_i32(trimmed.as_str()) {
            Some(id) => {
                ids.push(id);
                proof {
                    assert(ids@ =~= spec_token_ids(tv.take(i as int + 1)));
                }
            },
            None => {
                proof {
                    assert(ids@ =~= spec_token_ids(tv.take(i as int + 1)));
                }
            },
        }
        i += 1;
    }
    proof {
        assert(tv.take(n as int) =~= tv);
    }
    ids
}

/// The ad hoc folder a run works with: the command-line value when present,
/// else the configuration's.
pub open spec fn spec_resolved_fdr(cli_value: Seq<char>, s: Seq<char>, key: Seq<char>) -> Seq<
    char,
> {
    if cli_value.len() > 0 {
        cli_value
    } else {
        spec_defaulted_at(s, "folders"@, key, ""@)
    }
}

/// When parameter resolution succeeds: the configuration text is complete,
/// folder mode has both of its folders, folder mode and catalog mode are not
/// both requested, and at least one mode is.
pub open spec fn spec_params_ok(cli_pars: CliPars, s: Seq<char>) -> bool {
    &&& spec_config_ok(s)
    &&& cli_pars.flags.use_folder ==> spec_resolved_fdr(
        cli_pars.fz_folder@,
        s,
        "fdr_zipped"@,
    ).len() > 0 && spec_resolved_fdr(cli_pars.fu_folder@, s, "fdr_unzipped"@).len() > 0
    &&& !(cli_pars.flags.use_folder && (cli_pars.flags.all_mdr || spec_source_ids(
        cli_pars.source_list@,
    ).len() > 0))
    &&& cli_pars.flags.all_mdr || cli_pars.flags.use_folder || spec_source_ids(
        cli_pars.source_list@,
    ).len() > 0
}

/// Resolves the run's parameters from the command-line values and the
/// configuration text: the id list is parsed (non-numeric tokens dropped),
/// the ad hoc folder pair falls back to the configuration where the command
/// line left it empty, the folders needed by the requested mode must be
/// present, folder mode and catalog mode exclude each other, and at least one
/// mode must be requested. It succeeds exactly when all of that holds, and
/// the resolved values are then the text's own.
pub fn get_params(cli_pars: CliPars, config_string: &String) -> (r: Result<InitParams, AppError>)
    ensures
        r is Ok <==> spec_params_ok(cli_pars, config_string@),
        match r {
            Ok(ip) => {
                let s = config_string@;
                &&& ip.flags == cli_pars.flags
                &&& ip.source_list@ == spec_source_ids(cli_pars.source_list@)
                &&& ip.mdr_zipped@ == toml_string_at(s, "folders"@, "mdr_zipped"@).unwrap()
                &&& ip.mdr_unzipped@ == toml_string_at(s, "folders"@, "mdr_unzipped"@).unwrap()
                &&& ip.log_folder_path@ == toml_string_at(
                    s,
                    "folders"@,
                    "log_folder_path"@,
                ).unwrap()
                &&& ip.fdr_zipped@ == spec_resolved_fdr(cli_pars.fz_folder@, s, "fdr_zipped"@)
                &&& ip.fdr_unzipped@ == spec_resolved_fdr(cli_pars.fu_folder@, s, "fdr_unzipped"@)
                &&& ip.mdr_zipped@.len() > 0
                &&& ip.mdr_unzipped@.len() > 0
                &&& ip.log_folder_path@.len() > 0
                &&& cli_pars.flags.use_folder ==> ip.fdr_zipped@.len() > 0
                    && ip.fdr_unzipped@.len() > 0
            },
            Err(e) => {
                let s = config_string@;
                if !spec_config_ok(s) {
                    e is ConfigurationError
                } else if cli_pars.flags.use_folder && spec_resolved_fdr(
                    cli_pars.fz_folder@,
                    s,
                    "fdr_zipped"@,
                ).len() == 0 {
                    e matches AppError::MissingProgramParameter(p) && p@ == "fdr_zipped"@
                } else if cli_pars.flags.use_folder && spec_resolved_fdr(
                    cli_pars.fu_folder@,
                    s,
                    "fdr_unzipped"@,
                ).len() == 0 {
                    e matches AppError::MissingProgramParameter(p) && p@ == "fdr_unzipped"@
                } else if cli_pars.flags.use_folder && (cli_pars.flags.all_mdr || spec_source_ids(
                    cli_pars.source_list@,
                ).len() > 0) {
                    e matches AppError::InconsistentProgramParameter(m) && m@
                        == "Both folder and mdr processing requested at the same time!"@
                } else {
                    e matches AppError::InconsistentProgramParameter(m) && m@
                        == "No source type has been identified for zipping or unzipping!"@
                }
            },
        },
{
    let config = populate_config_vars(config_string)?;
    let folder_pars = config.folders;

    let source_list = parse_source_list(cli_pars.source_list.as_str());

    let mut fdr_zipped = cli_pars.fz_folder;
    if fdr_zipped.as_str().unicode_len() == 0 {
        fdr_zipped = folder_pars.fdr_zipped;
    }
    let mut fdr_unzipped = cli_pars.fu_folder;
    if fdr_unzipped.as_str().unicode_len() == 0 {
        fdr_unzipped = folder_pars.fdr_unzipped;
    }

    if cli_pars.flags.use_folder {
        if fdr_zipped.as_str().unicode_len() == 0 {
            return Err(AppError::MissingProgramParameter("fdr_zipped".to_owned()));
        }
        if fdr_unzipped.as_str().unicode_len() == 0 {
            return Err(AppError::MissingProgramParameter("fdr_unzipped".to_owned()));
        }
    }

    if cli_pars.flags.use_folder && (cli_pars.flags.all_mdr || source_list.len() > 0) {
        let msg = "Both folder and mdr processing requested at the same time!".to_owned();
        return Err(AppError::InconsistentProgramParameter(msg));
    }

    if !cli_pars.flags.all_mdr && !cli_pars.flags.use_folder && source_list.len() == 0 {
        let msg = "No source type has been identified for zipping or unzipping!".to_owned();
        return Err(AppError::InconsistentProgramParameter(msg));
    }

    proof {
        assert(folder_pars.mdr_zipped@.len() > 0);
        assert(folder_pars.mdr_unzipped@.len() > 0);
        assert(folder_pars.log_folder_path@.len() > 0);
    }

    Ok(
        InitParams {
            mdr_zipped: folder_pars.mdr_zipped,
            mdr_unzipped: folder_pars.mdr_unzipped,
            fdr_zipped,
            fdr_unzipped,
            log_folder_path: folder_pars.log_folder_path,
            source_list,
            flags: cli_pars.flags,
        },
    )
}

/// Whether the log has been configured; the caller holds one per process.
pub struct LogStatus {
    pub running: bool,
}

/// Whether the log is already running.
pub fn log_set_up(status: &LogStatus) -> (r: bool)
    ensures
        r == status.running,
{
    status.running
}

/// Decides whether the log sinks must still be configured, and marks them
/// running; only the first call per process asks for setup, so repeated calls
/// (as integration tests make them) are harmless.
pub fn establish_log(status: &mut LogStatus) -> (needs_setup: bool)
    ensures
        final(status).running,
        needs_setup == !old(status).running,
{
    let needs = !status.running;
    status.running = true;
    needs
}

} // verus!
