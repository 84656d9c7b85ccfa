use rzstd::errors::FileError;
use rzstd::pattern::Pattern;
use rzstd::task::{parse_args, plan_file, FileMeta, FilePlan};

fn meta(len: u64, is_dir: bool, is_symlink: bool) -> FileMeta {
    FileMeta { len, is_dir, is_symlink }
}

#[test]
fn empty_file_finishes_with_no_work() {
    let r = plan_file("error", meta(0, false, false));
    assert!(matches!(r, Ok(FilePlan::EmptyFile)));
}

fn expect_err(r: Result<FilePlan, FileError>) -> FileError {
    match r {
        Ok(_) => panic!("expected the plan to be rejected"),
        Err(e) => e,
    }
}

#[test]
fn directory_is_rejected_before_any_read() {
    let e = expect_err(plan_file("error", meta(4096, true, false)));
    assert_eq!(e, FileError::InvalidInput);
}

#[test]
fn symlink_is_rejected_before_any_read() {
    let e = expect_err(plan_file("error", meta(12, false, true)));
    assert_eq!(e, FileError::InvalidInput);
}

#[test]
fn bad_pattern_fails_before_any_decompression() {
    let e = expect_err(plan_file("(", meta(12, false, false)));
    assert_eq!(e, FileError::Pattern);
    assert!(Pattern::new("(").is_err());
}

#[test]
fn good_pattern_plans_a_search_with_the_file_total() {
    let r = plan_file("error", meta(12, false, false));
    match r {
        Ok(FilePlan::Search { pattern: _, total }) => assert_eq!(total, 12),
        _ => panic!("expected a planned search"),
    }
}

#[test]
fn too_few_arguments_call_for_usage() {
    let none: Vec<String> = vec!["rzstd".to_string()];
    assert!(parse_args(&none).is_none());
    let no_files: Vec<String> = vec!["rzstd".to_string(), "error".to_string()];
    assert!(parse_args(&no_files).is_none());
}

#[test]
fn pattern_and_files_are_parsed_in_order() {
    let args: Vec<String> = vec![
        "rzstd".to_string(),
        "error".to_string(),
        "a.zst".to_string(),
        "b.zst".to_string(),
    ];
    let (pat, files) = parse_args(&args).unwrap();
    assert_eq!(pat, "error");
    assert_eq!(files, vec!["a.zst".to_string(), "b.zst".to_string()]);
}

#[test]
fn every_error_kind_has_a_message() {
    assert_eq!(FileError::Open.message(), "cannot open file");
    assert_eq!(
        FileError::InvalidInput.message(),
        "path is a directory or a symbolic link"
    );
    assert_eq!(FileError::Pattern.message(), "invalid regular expression");
    assert_eq!(FileError::Format.message(), "malformed compressed stream");
    assert_eq!(FileError::Io.message(), "read error while streaming");
}
