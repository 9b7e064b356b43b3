use zipper::cli_reader::fetch_valid_arguments;
use zipper::err::AppError;
use zipper::setup::{establish_log, get_params, log_set_up, parse_source_list, LogStatus};

const CONFIG: &str = r#"
[folders]
mdr_zipped="E:\\MDR\\Zipped source files"
mdr_unzipped="E:\\MDR\\MDR Source files"

fdr_zipped="E:\\MDR source data\\UMLS\\zipped data"
fdr_unzipped="E:\\MDR source data\\UMLS\\data"

log_folder_path="E:\\MDR\\Zipping\\logs"

[database]
db_host="localhost"
db_user="user_name"
db_password="password"
db_port="5433"
db_name="mon"
"#;

#[test]
fn check_cli_no_explicit_params() {
    let res = fetch_valid_arguments("", "", "", false, false, false, false, false).unwrap();
    assert_eq!(res.source_list, "");
    assert_eq!(res.fz_folder, "");
    assert_eq!(res.fu_folder, "");
    assert_eq!(res.flags.do_zip, false);
    assert_eq!(res.flags.do_unzip, false);
    assert_eq!(res.flags.all_mdr, false);
    assert_eq!(res.flags.use_folder, false);
    assert_eq!(res.flags.test_run, false);
}

#[test]
fn check_cli_with_m_and_z_flag() {
    let res = fetch_valid_arguments("", "", "", true, false, true, false, false).unwrap();
    assert_eq!(res.source_list, "");
    assert_eq!(res.fz_folder, "");
    assert_eq!(res.fu_folder, "");
    assert_eq!(res.flags.do_zip, true);
    assert_eq!(res.flags.do_unzip, false);
    assert_eq!(res.flags.all_mdr, true);
    assert_eq!(res.flags.use_folder, false);
    assert_eq!(res.flags.test_run, false);
}

#[test]
fn check_cli_with_u_and_f_flag() {
    let res = fetch_valid_arguments("", "", "", false, true, false, true, false).unwrap();
    assert_eq!(res.source_list, "");
    assert_eq!(res.flags.do_zip, false);
    assert_eq!(res.flags.do_unzip, true);
    assert_eq!(res.flags.all_mdr, false);
    assert_eq!(res.flags.use_folder, true);
    assert_eq!(res.flags.test_run, false);
}

#[test]
fn check_cli_with_z_flag_and_s_list() {
    let res = fetch_valid_arguments(
        "100101, 100102, 100103, 100104",
        "",
        "",
        true,
        false,
        false,
        false,
        false,
    )
    .unwrap();
    assert_eq!(res.source_list, "100101, 100102, 100103, 100104");
    assert_eq!(res.flags.do_zip, true);
    assert_eq!(res.flags.do_unzip, false);
    assert_eq!(res.flags.all_mdr, false);
    assert_eq!(res.flags.use_folder, false);
    assert_eq!(res.flags.test_run, false);
}

#[test]
fn check_cli_with_uf_flag_and_fzfu_folders() {
    let res = fetch_valid_arguments(
        "",
        "data\\zipped folder",
        "data\\unzipped folder",
        false,
        true,
        false,
        true,
        false,
    )
    .unwrap();
    assert_eq!(res.source_list, "");
    assert_eq!(res.fz_folder, "data\\zipped folder");
    assert_eq!(res.fu_folder, "data\\unzipped folder");
    assert_eq!(res.flags.do_zip, false);
    assert_eq!(res.flags.do_unzip, true);
    assert_eq!(res.flags.all_mdr, false);
    assert_eq!(res.flags.use_folder, true);
    assert_eq!(res.flags.test_run, false);
}

#[test]
#[should_panic]
fn should_panic_with_z_and_u_flags() {
    let _res = fetch_valid_arguments("", "", "", true, true, false, false, false).unwrap();
}

#[test]
fn check_cli_with_z_m_and_t_flags() {
    let res = fetch_valid_arguments("", "", "", true, false, true, false, true).unwrap();
    assert_eq!(res.source_list, "");
    assert_eq!(res.flags.do_zip, true);
    assert_eq!(res.flags.do_unzip, false);
    assert_eq!(res.flags.all_mdr, true);
    assert_eq!(res.flags.use_folder, false);
    assert_eq!(res.flags.test_run, true);
}

#[test]
fn z_and_u_error_is_a_custom_error() {
    let err = fetch_valid_arguments("", "", "", true, true, false, false, false).unwrap_err();
    match err {
        AppError::CsErr(ce) => assert_eq!(
            ce.message(),
            "Both zip and unzip requested at the same time! Unable to proceed."
        ),
        other => panic!("unexpected error kind: {:?}", other),
    }
}

#[test]
fn check_config_vars_overwrite_blank_cli_values() {
    let config_string = CONFIG.to_string();
    let cli_pars = fetch_valid_arguments("", "", "", true, false, true, false, false).unwrap();
    let res = get_params(cli_pars, &config_string).unwrap();

    assert_eq!(res.flags.all_mdr, true);
    assert_eq!(res.flags.use_folder, false);
    assert_eq!(res.flags.do_zip, true);
    assert_eq!(res.flags.do_unzip, false);
    assert_eq!(res.flags.test_run, false);
    assert_eq!(res.mdr_zipped, "E:\\MDR\\Zipped source files");
    assert_eq!(res.mdr_unzipped, "E:\\MDR\\MDR Source files");
    assert_eq!(res.fdr_zipped, "E:\\MDR source data\\UMLS\\zipped data");
    assert_eq!(res.fdr_unzipped, "E:\\MDR source data\\UMLS\\data");
    assert_eq!(res.log_folder_path, "E:\\MDR\\Zipping\\logs");
    assert_eq!(res.source_list, Vec::<i32>::new());
}

#[test]
fn check_cli_vars_overwrite_env_values() {
    let config_string = CONFIG.to_string();
    let cli_pars = fetch_valid_arguments(
        "",
        "E:\\MDR source data\\funny\\zipped data",
        "E:\\MDR source data\\funny\\data",
        true,
        false,
        false,
        true,
        false,
    )
    .unwrap();
    let res = get_params(cli_pars, &config_string).unwrap();

    assert_eq!(res.flags.do_zip, true);
    assert_eq!(res.flags.all_mdr, false);
    assert_eq!(res.flags.use_folder, true);
    assert_eq!(res.flags.do_unzip, false);
    assert_eq!(res.flags.test_run, false);
    assert_eq!(res.mdr_zipped, "E:\\MDR\\Zipped source files");
    assert_eq!(res.mdr_unzipped, "E:\\MDR\\MDR Source files");
    assert_eq!(res.fdr_zipped, "E:\\MDR source data\\funny\\zipped data");
    assert_eq!(res.fdr_unzipped, "E:\\MDR source data\\funny\\data");
    assert_eq!(res.log_folder_path, "E:\\MDR\\Zipping\\logs");
    assert_eq!(res.source_list, Vec::<i32>::new());
}

#[test]
fn check_s_value_interpreted_correctly() {
    let config_string = CONFIG.to_string();
    let cli_pars =
        fetch_valid_arguments("101, 102, 103, 104, 105", "", "", true, false, false, false, false)
            .unwrap();
    let res = get_params(cli_pars, &config_string).unwrap();

    assert_eq!(res.flags.do_zip, true);
    assert_eq!(res.flags.all_mdr, false);
    assert_eq!(res.flags.use_folder, false);
    assert_eq!(res.flags.do_unzip, false);
    assert_eq!(res.flags.test_run, false);
    assert_eq!(res.mdr_zipped, "E:\\MDR\\Zipped source files");
    assert_eq!(res.mdr_unzipped, "E:\\MDR\\MDR Source files");
    assert_eq!(res.log_folder_path, "E:\\MDR\\Zipping\\logs");
    assert_eq!(res.source_list, vec![101, 102, 103, 104, 105]);
}

#[test]
#[should_panic]
fn check_f_and_m_panics() {
    let config_string = CONFIG.to_string();
    let cli_pars = fetch_valid_arguments("", "", "", true, false, true, true, false).unwrap();
    let _res = get_params(cli_pars, &config_string).unwrap();
}

#[test]
#[should_panic]
fn check_f_and_s_panics() {
    let config_string = CONFIG.to_string();
    let cli_pars =
        fetch_valid_arguments("101, 102, 103", "", "", true, false, false, true, false).unwrap();
    let _res = get_params(cli_pars, &config_string).unwrap();
}

#[test]
#[should_panic]
fn check_no_m_s_or_f_panics() {
    let config_string = CONFIG.to_string();
    let cli_pars = fetch_valid_arguments("", "", "", true, false, false, false, false).unwrap();
    let _res = get_params(cli_pars, &config_string).unwrap();
}

#[test]
fn f_and_m_error_kind_is_inconsistent_parameters() {
    let config_string = CONFIG.to_string();
    let cli_pars = fetch_valid_arguments("", "", "", true, false, true, true, false).unwrap();
    let err = get_params(cli_pars, &config_string).unwrap_err();
    assert!(matches!(err, AppError::InconsistentProgramParameter(_)));
}

#[test]
fn missing_fdr_folders_reported_for_folder_mode() {
    let config_string = r#"
[folders]
mdr_zipped="E:\\MDR\\Zipped source files"
mdr_unzipped="E:\\MDR\\MDR Source files"
log_folder_path="E:\\MDR\\Zipping\\logs"

[database]
db_user="user_name"
db_password="password"
"#
    .to_string();
    let cli_pars = fetch_valid_arguments("", "", "", true, false, false, true, false).unwrap();
    let err = get_params(cli_pars, &config_string).unwrap_err();
    match err {
        AppError::MissingProgramParameter(p) => assert_eq!(p, "fdr_zipped"),
        other => panic!("unexpected error kind: {:?}", other),
    }
}

#[test]
fn source_list_drops_non_numeric_tokens() {
    assert_eq!(parse_source_list("101, abc, 103,, 2147483648, -5"), vec![101, 103, -5]);
    assert_eq!(parse_source_list(""), Vec::<i32>::new());
    assert_eq!(parse_source_list(" 42 "), vec![42]);
}

#[test]
fn log_status_is_set_up_once() {
    let mut status = LogStatus { running: false };
    assert!(!log_set_up(&status));
    assert!(establish_log(&mut status));
    assert!(log_set_up(&status));
    assert!(!establish_log(&mut status));
    assert!(log_set_up(&status));
}
