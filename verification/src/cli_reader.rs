//! Validation of the command-line values. The command line itself is parsed
//! outside the library; the plain values arrive here, where the mutually
//! exclusive directions are enforced before anything else runs.

use vstd::prelude::*;

use crate::err::AppError;
use crate::error_defs::CustomError;

verus! {

/// The run's mode flags: which direction to run in, and which source of
/// folder pairs to use.
#[derive(Clone, Copy, PartialEq, Eq, Structural, Debug)]
pub struct Flags {
    pub do_zip: bool,
    pub do_unzip: bool,
    pub all_mdr: bool,
    pub use_folder: bool,
    pub test_run: bool,
}

/// The validated command-line parameters: the raw id list, the ad hoc folder
/// pair (empty when absent), and the flags.
#[derive(Debug)]
pub struct CliPars {
    pub source_list: String,
    pub fz_folder: String,
    pub fu_folder: String,
    pub flags: Flags,
}

/// Checks the command-line values: requesting zip and unzip together is
/// rejected before any other work; everything else passes through.
pub fn fetch_valid_arguments(
    source_list: &str,
    fz_folder: &str,
    fu_folder: &str,
    z_flag: bool,
    u_flag: bool,
    m_flag: bool,
    f_flag: bool,
    t_flag: bool,
) -> (r: Result<CliPars, AppError>)
    ensures
        r is Err <==> z_flag && u_flag,
        match r {
            Ok(cli) => {
                &&& cli.source_list@ == source_list@
                &&& cli.fz_folder@ == fz_folder@
                &&& cli.fu_folder@ == fu_folder@
                &&& cli.flags == (Flags {
                    do_zip: z_flag,
                    do_unzip: u_flag,
                    all_mdr: m_flag,
                    use_folder: f_flag,
                    test_run: t_flag,
                })
            },
            Err(e) => e matches AppError::CsErr(ce) && ce.spec_message()
                == "Both zip and unzip requested at the same time! Unable to proceed."@,
        },
{
    if z_flag && u_flag {
        let msg = "Both zip and unzip requested at the same time! Unable to proceed.";
        let cf_err = CustomError::new(msg);
        return Err(AppError::CsErr(cf_err));
    }
    let flags = Flags {
        do_zip: z_flag,
        do_unzip: u_flag,
        all_mdr: m_flag,
        use_folder: f_flag,
        test_run: t_flag,
    };
    Ok(
        CliPars {
            source_list: source_list.to_owned(),
            fz_folder: fz_folder.to_owned(),
            fu_folder: fu_folder.to_owned(),
            flags,
        },
    )
}

} // verus!
