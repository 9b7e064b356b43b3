use zipper::err::{get_header_line, print_simple_error, report_error, AppError};
use zipper::error_defs::CustomError;
use zipper::log_helper::{log_file_name, log_startup_params};
use zipper::setup::InitParams;
use zipper::cli_reader::Flags;
use zipper::strutil::{parse_i32, repeat_str, split_commas, trim_str, usize_to_string};
use zipper::unzipper::{grouping_suffix, has_zip_extension, redistribution_folder};

#[test]
fn decimal_rendering_is_exact() {
    assert_eq!(usize_to_string(0), "0");
    assert_eq!(usize_to_string(7), "7");
    assert_eq!(usize_to_string(10), "10");
    assert_eq!(usize_to_string(10001), "10001");
    assert_eq!(usize_to_string(25000), "25000");
}

#[test]
fn integer_parsing_matches_catalog_id_rules() {
    assert_eq!(parse_i32("123"), Some(123));
    assert_eq!(parse_i32("+5"), Some(5));
    assert_eq!(parse_i32("-7"), Some(-7));
    assert_eq!(parse_i32("0000042"), Some(42));
    assert_eq!(parse_i32("2147483647"), Some(2147483647));
    assert_eq!(parse_i32("2147483648"), None);
    assert_eq!(parse_i32("-2147483648"), Some(-2147483648));
    assert_eq!(parse_i32("-2147483649"), None);
    assert_eq!(parse_i32(""), None);
    assert_eq!(parse_i32("-"), None);
    assert_eq!(parse_i32("12a"), None);
    assert_eq!(parse_i32(" 12"), None);
}

#[test]
fn trimming_and_splitting() {
    assert_eq!(trim_str("  abc\t"), "abc");
    assert_eq!(trim_str("   "), "");
    assert_eq!(split_commas("a,b, c"), vec!["a", "b", " c"]);
    assert_eq!(split_commas(""), vec![""]);
    assert_eq!(split_commas("a,,b"), vec!["a", "", "b"]);
    assert_eq!(repeat_str("*", 3), "***");
    assert_eq!(repeat_str("ab", 2), "abab");
}

#[test]
fn zip_extension_is_case_insensitive() {
    assert!(has_zip_extension("archive.zip"));
    assert!(has_zip_extension("ARCHIVE.ZIP"));
    assert!(has_zip_extension("a.Zip"));
    assert!(!has_zip_extension("archive.txt"));
    assert!(!has_zip_extension("zip"));
    assert!(!has_zip_extension("archive.zipx"));
}

#[test]
fn grouping_suffix_counts_powers_of_ten() {
    assert_eq!(grouping_suffix(10), Some("x".to_string()));
    assert_eq!(grouping_suffix(10000), Some("xxxx".to_string()));
    assert_eq!(grouping_suffix(1000000), Some("xxxxxx".to_string()));
    assert_eq!(grouping_suffix(9999), None);
    assert_eq!(grouping_suffix(1), None);
    assert_eq!(grouping_suffix(0), None);
    assert_eq!(grouping_suffix(-100), None);
}

#[test]
fn redistribution_drops_range_digits_from_stem() {
    // grouping range 10,000 drops four trailing digits of the numeric stem
    // and appends four x's.
    assert_eq!(
        redistribution_folder("study 1234505678.xml", 10000),
        Some("study 123450xxxx".to_string())
    );
    assert_eq!(redistribution_folder("1234505678.json", 10000), Some("123450xxxx".to_string()));
    assert_eq!(redistribution_folder("no extension", 10000), None);
    assert_eq!(redistribution_folder("short.xml", 10000), None);
    assert_eq!(redistribution_folder("letters_abcd.xml", 10000), None);
    assert_eq!(redistribution_folder("1234505678.xml", 9999), None);
}

#[test]
fn header_line_is_centered() {
    let line = get_header_line(100, "TEST");
    let stars = "*".repeat(47);
    assert_eq!(line, format!("{} TEST {}", stars, stars));
    let odd = get_header_line(100, "IO ERROR");
    let stars_odd = "*".repeat(45);
    assert_eq!(odd, format!("{} IO ERROR {}", stars_odd, stars_odd));
}

#[test]
fn error_blocks_carry_detail_and_frame() {
    let block = report_error(AppError::MissingProgramParameter("mdr_zipped".to_string()));
    assert!(block.contains("MISSING PARAMETER"));
    assert!(block.contains("Parameter is: mdr_zipped"));
    assert!(block.contains(&"*".repeat(100)));
    let simple = print_simple_error("disk failed", "IO ERROR");
    assert!(simple.contains("disk failed"));
    assert!(simple.starts_with('\n'));
    assert!(simple.ends_with("\n\n"));
}

#[test]
fn custom_error_keeps_its_message() {
    let ce = CustomError::new("something specific");
    assert_eq!(ce.message(), "something specific");
    let block = report_error(AppError::CsErr(ce));
    assert!(block.contains("something specific"));
    assert!(block.contains("PARAMETER ERROR"));
}

#[test]
fn log_lines_record_the_parameters() {
    assert_eq!(log_file_name("06-01 121212"), "zipper log at 06-01 121212.log");
    let ip = InitParams {
        mdr_zipped: "zp".to_string(),
        mdr_unzipped: "uz".to_string(),
        fdr_zipped: "fz".to_string(),
        fdr_unzipped: "fu".to_string(),
        log_folder_path: "lg".to_string(),
        source_list: vec![1, 2],
        flags: Flags {
            do_zip: true,
            do_unzip: false,
            all_mdr: false,
            use_folder: true,
            test_run: false,
        },
    };
    let lines = log_startup_params(&ip);
    assert_eq!(lines.len(), 16);
    assert_eq!(lines[0], "PROGRAM START");
    assert_eq!(lines[4], "mdr zipped folder: zp");
    assert_eq!(lines[8], "log folder: lg");
    assert_eq!(lines[9], "do zip: true");
    assert_eq!(lines[10], "do_unzip: false");
    assert_eq!(lines[12], "use_folder: true");
}
