//! The text the log receives: the log file's name and the block of startup
//! lines recording the run's parameters. The log sinks themselves are
//! configured outside the library.

use vstd::prelude::*;
use vstd::string::*;

use crate::setup::InitParams;

verus! {

/// The name of a run's log file, from a date-time stamp.
pub open spec fn spec_log_file_name(datetime: Seq<char>) -> Seq<char> {
    "zipper log at "@ + datetime + ".log"@
}

/// Builds the name of a run's log file.
pub fn log_file_name(datetime: &str) -> (r: String)
    ensures
        r@ == spec_log_file_name(datetime@),
{
    let mut r = "zipper log at ".to_owned();
    r.append(datetime);
    r.append(".log");
    proof {
        assert(r@ =~= spec_log_file_name(datetime@));
    }
    r
}

/// The text of a flag in the startup block.
pub open spec fn spec_bool_str(b: bool) -> Seq<char> {
    if b {
        "true"@
    } else {
        "false"@
    }
}

fn bool_str(b: bool) -> (r: &'static str)
    ensures
        r@ == spec_bool_str(b),
{
    if b {
        "true"
    } else {
        "false"
    }
}

/// The startup block: a banner, the five folders, and the four mode flags.
pub open spec fn spec_startup_lines(ip: InitParams) -> Seq<Seq<char>> {
    seq![
        "PROGRAM START"@,
        ""@,
        "************************************"@,
        ""@,
        "mdr zipped folder: "@ + ip.mdr_zipped@,
        "mdr unzipped folder: "@ + ip.mdr_unzipped@,
        "fdr zipped folder: "@ + ip.fdr_zipped@,
        "fdr unzipped folder: "@ + ip.fdr_unzipped@,
        "log folder: "@ + ip.log_folder_path@,
        "do zip: "@ + spec_bool_str(ip.flags.do_zip),
        "do_unzip: "@ + spec_bool_str(ip.flags.do_unzip),
        "all_mdr: "@ + spec_bool_str(ip.flags.all_mdr),
        "use_folder: "@ + spec_bool_str(ip.flags.use_folder),
        ""@,
        "************************************"@,
        ""@,
    ]
}

fn labelled(label: &str, value: &str) -> (r: String)
    ensures
        r@ == label@ + value@,
{
    let mut r = label.to_owned();
    r.append(value);
    r
}

/// Builds the startup block that records the run's parameters, one line per
/// entry, for the caller to hand to its log.
pub fn log_startup_params(ip: &InitParams) -> (lines: Vec<String>)
    ensures
        lines@.map_values(|l: String| l@) == spec_startup_lines(*ip),
{
    let mut lines: Vec<String> = Vec::new();
    lines.push("PROGRAM START".to_owned());
    lines.push("".to_owned());
    lines.push("************************************".to_owned());
    lines.push("".to_owned());
    lines.push(labelled("mdr zipped folder: ", ip.mdr_zipped.as_str()));
    lines.push(labelled("mdr unzipped folder: ", ip.mdr_unzipped.as_str()));
    lines.push(labelled("fdr zipped folder: ", ip.fdr_zipped.as_str()));
    lines.push(labelled("fdr unzipped folder: ", ip.fdr_unzipped.as_str()));
    lines.push(labelled("log folder: ", ip.log_folder_path.as_str()));
    lines.push(labelled("do zip: ", bool_str(ip.flags.do_zip)));
    lines.push(labelled("do_unzip: ", bool_str(ip.flags.do_unzip)));
    lines.push(labelled("all_mdr: ", bool_str(ip.flags.all_mdr)));
    lines.push(labelled("use_folder: ", bool_str(ip.flags.use_folder)));
    lines.push("".to_owned());
    lines.push("************************************".to_owned());
    lines.push("".to_owned());
    proof {
        assert(lines@.map_values(|l: String| l@) =~= spec_startup_lines(*ip));
    }
    lines
}

} // verus!
