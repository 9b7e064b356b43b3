//! The error type used throughout the library, and the formatting of the
//! diagnostic block that a failed run reports. Every variant carries plain
//! strings (a problem summary, a detail, an offending path), so callers and
//! tests can match on the kind. Printing the block is the caller's business;
//! here it is only built.

use vstd::prelude::*;
use vstd::string::*;

use crate::error_defs::CustomError;
use crate::strutil::{repeat_str, spec_repeat};

verus! {

/// The failure kinds of the batching system.
#[derive(Debug)]
pub enum AppError {
    /// The configuration text is malformed or misses a required value.
    ConfigurationError(String, String),
    /// Database parameters were asked for before any were stored.
    MissingDBParameters,
    /// A required path or list is absent for the requested mode.
    MissingProgramParameter(String),
    /// Mutually exclusive modes were requested, or no mode at all.
    InconsistentProgramParameter(String),
    /// A file could not be read; carries the message and the path.
    IoReadErrorWithPath(String, String),
    /// A file could not be written; carries the message and the path.
    IoWriteErrorWithPath(String, String),
    /// An archive could not be written; carries the message and the path.
    ZipError(String, String),
    /// An archive could not be extracted; carries the message and the path.
    UnzipError(String, String),
    /// A folder or file is missing or inaccessible.
    FileSystemError(String, String),
    /// The log could not be set up.
    LogSetupError(String, String),
    /// A failure outside the other kinds.
    CsErr(CustomError),
    /// The database pool could not be created.
    DBPoolError(String, String),
    /// A query failed; carries the message and the SQL.
    SqlxError(String, String),
    /// A plain I/O failure without a path.
    IoError(String),
}

/// The width, in characters, of the starred frame around a diagnostic block.
pub const ERROR_BLOCK_WIDTH: usize = 100;

/// A centered header line: a batch of stars, the header (padded by one extra
/// space when its length is odd), and a matching batch of stars.
pub open spec fn spec_header_line(star_num: int, h: Seq<char>) -> Seq<char> {
    let batch = spec_repeat("*"@, (star_num - 2 - h.len()) / 2);
    let spacer = if h.len() % 2 != 0 {
        " "@
    } else {
        Seq::<char>::empty()
    };
    batch + " "@ + h + spacer + " "@ + batch
}

/// Builds the header line of a diagnostic block.
pub fn get_header_line(star_num: usize, header: &str) -> (r: String)
    requires
        header@.len() + 2 <= star_num,
    ensures
        r@ == spec_header_line(star_num as int, header@),
{
    let hdr_len = header.unicode_len();
    let star_batch_num = (star_num - 2 - hdr_len) / 2;
    let batch = repeat_str("*", star_batch_num);
    let mut r = batch.clone();
    r.append(" ");
    r.append(header);
    if hdr_len % 2 != 0 {
        r.append(" ");
    }
    r.append(" ");
    r.append(batch.as_str());
    proof {
        assert(r@ =~= spec_header_line(star_num as int, header@));
    }
    r
}

/// A full diagnostic block: header line, problem summary, detail, and a
/// closing line of stars, framed by blank lines.
pub open spec fn spec_error_block(description: Seq<char>, details: Seq<char>, header: Seq<char>) -> Seq<char> {
    "\n"@ + spec_header_line(ERROR_BLOCK_WIDTH as int, header) + "\n"@ + description + "\n"@
        + details + "\n"@ + spec_repeat("*"@, ERROR_BLOCK_WIDTH as int) + "\n\n"@
}

/// A diagnostic block without a detail line.
pub open spec fn spec_simple_error_block(msg: Seq<char>, header: Seq<char>) -> Seq<char> {
    "\n"@ + spec_header_line(ERROR_BLOCK_WIDTH as int, header) + "\n"@ + msg + "\n"@ + spec_repeat(
        "*"@,
        ERROR_BLOCK_WIDTH as int,
    ) + "\n\n"@
}

/// Builds a diagnostic block with a summary and a detail line.
pub fn print_error(description: &str, details: &str, header: &str) -> (r: String)
    requires
        header@.len() + 2 <= ERROR_BLOCK_WIDTH,
    ensures
        r@ == spec_error_block(description@, details@, header@),
{
    let mut r = String::from_str("\n");
    r.append(get_header_line(ERROR_BLOCK_WIDTH, header).as_str());
    r.append("\n");
    r.append(description);
    r.append("\n");
    r.append(details);
    r.append("\n");
    r.append(repeat_str("*", ERROR_BLOCK_WIDTH).as_str());
    r.append("\n\n");
    proof {
        assert(r@ =~= spec_error_block(description@, details@, header@));
    }
    r
}

/// Builds a diagnostic block with a single message line.
pub fn print_simple_error(msg: &str, header: &str) -> (r: String)
    requires
        header@.len() + 2 <= ERROR_BLOCK_WIDTH,
    ensures
        r@ == spec_simple_error_block(msg@, header@),
{
    let mut r = String::from_str("\n");
    r.append(get_header_line(ERROR_BLOCK_WIDTH, header).as_str());
    r.append("\n");
    r.append(msg);
    r.append("\n");
    r.append(repeat_str("*", ERROR_BLOCK_WIDTH).as_str());
    r.append("\n\n");
    proof {
        assert(r@ =~= spec_simple_error_block(msg@, header@));
    }
    r
}

/// The diagnostic block that each error kind reports.
pub open spec fn spec_report_error(e: AppError) -> Seq<char> {
    match e {
        AppError::ConfigurationError(p, d) => spec_error_block(p@, d@, "CONFIGURATION ERROR"@),
        AppError::MissingDBParameters => spec_error_block(
            "Unable to obtain database parameters."@,
            "No database parameters have been stored."@,
            "DB PARAMETERS ERROR"@,
        ),
        AppError::MissingProgramParameter(p) => spec_error_block(
            "A required parameter is neither in the config file nor the command line arguments"@,
            "Parameter is: "@ + p@,
            "MISSING PARAMETER"@,
        ),
        AppError::InconsistentProgramParameter(s) => spec_error_block(
            "The parameters provided are inconsistent or incompatible"@,
            s@,
            "INCONSISTENT PARAMETERS"@,
        ),
        AppError::IoReadErrorWithPath(m, p) => spec_error_block(
            m@,
            "Path was: "@ + p@,
            "FILE READING PROBLEM"@,
        ),
        AppError::IoWriteErrorWithPath(m, p) => spec_error_block(
            m@,
            "Path was: "@ + p@,
            "FILE WRITING PROBLEM"@,
        ),
        AppError::ZipError(m, p) => spec_error_block(
            m@,
            "Path was: "@ + p@,
            "ZIP ARCHIVING PROBLEM"@,
        ),
        AppError::UnzipError(m, p) => spec_error_block(
            m@,
            "Path was: "@ + p@,
            "UNZIPPING PROBLEM"@,
        ),
        AppError::FileSystemError(p, d) => spec_error_block(p@, d@, "FILE SYSTEM PROBLEM"@),
        AppError::LogSetupError(p, d) => spec_error_block(p@, d@, "LOG SETUP ERROR"@),
        AppError::CsErr(ce) => spec_simple_error_block(ce.spec_message(), "PARAMETER ERROR"@),
        AppError::DBPoolError(d, m) => spec_error_block(d@, m@, "DB POOL ERROR"@),
        AppError::SqlxError(m, s) => spec_error_block(m@, "SQL was: "@ + s@, "SQLX ERROR"@),
        AppError::IoError(m) => spec_simple_error_block(m@, "IO ERROR"@),
    }
}

fn with_path_detail(prefix: &str, p: &String) -> (r: String)
    ensures
        r@ == prefix@ + p@,
{
    let mut d = prefix.to_owned();
    d.append(p.as_str());
    d
}

/// Builds the diagnostic block for an error, ready to be written to standard
/// error or a log sink.
pub fn report_error(e: AppError) -> (r: String)
    ensures
        r@ == spec_report_error(e),
{
    proof {
        reveal_strlit("CONFIGURATION ERROR");
        reveal_strlit("DB PARAMETERS ERROR");
        reveal_strlit("MISSING PARAMETER");
        reveal_strlit("INCONSISTENT PARAMETERS");
        reveal_strlit("FILE READING PROBLEM");
        reveal_strlit("FILE WRITING PROBLEM");
        reveal_strlit("ZIP ARCHIVING PROBLEM");
        reveal_strlit("UNZIPPING PROBLEM");
        reveal_strlit("FILE SYSTEM PROBLEM");
        reveal_strlit("LOG SETUP ERROR");
        reveal_strlit("PARAMETER ERROR");
        reveal_strlit("DB POOL ERROR");
        reveal_strlit("SQLX ERROR");
        reveal_strlit("IO ERROR");
    }
    match e {
        AppError::ConfigurationError(p, d) => print_error(p.as_str(), d.as_str(), "CONFIGURATION ERROR"),
        AppError::MissingDBParameters => print_error(
            "Unable to obtain database parameters.",
            "No database parameters have been stored.",
            "DB PARAMETERS ERROR",
        ),
        AppError::MissingProgramParameter(p) => print_error(
            "A required parameter is neither in the config file nor the command line arguments",
            with_path_detail("Parameter is: ", &p).as_str(),
            "MISSING PARAMETER",
        ),
        AppError::InconsistentProgramParameter(s) => print_error(
            "The parameters provided are inconsistent or incompatible",
            s.as_str(),
            "INCONSISTENT PARAMETERS",
        ),
        AppError::IoReadErrorWithPath(m, p) => print_error(
            m.as_str(),
            with_path_detail("Path was: ", &p).as_str(),
            "FILE READING PROBLEM",
        ),
        AppError::IoWriteErrorWithPath(m, p) => print_error(
            m.as_str(),
            with_path_detail("Path was: ", &p).as_str(),
            "FILE WRITING PROBLEM",
        ),
        AppError::ZipError(m, p) => print_error(
            m.as_str(),
            with_path_detail("Path was: ", &p).as_str(),
            "ZIP ARCHIVING PROBLEM",
        ),
        AppError::UnzipError(m, p) => print_error(
            m.as_str(),
            with_path_detail("Path was: ", &p).as_str(),
            "UNZIPPING PROBLEM",
        ),
        AppError::FileSystemError(p, d) => print_error(p.as_str(), d.as_str(), "FILE SYSTEM PROBLEM"),
        AppError::LogSetupError(p, d) => print_error(p.as_str(), d.as_str(), "LOG SETUP ERROR"),
        AppError::CsErr(ce) => print_simple_error(ce.message().as_str(), "PARAMETER ERROR"),
        AppError::DBPoolError(d, m) => print_error(d.as_str(), m.as_str(), "DB POOL ERROR"),
        AppError::SqlxError(m, s) => print_error(
            m.as_str(),
            with_path_detail("SQL was: ", &s).as_str(),
            "SQLX ERROR",
        ),
        AppError::IoError(m) => print_simple_error(m.as_str(), "IO ERROR"),
    }
}

} // verus!
