use isc::diff::CopyTask;
use isc::file_copy::{assemble_outcomes, CopyResult};
use isc::report::{count_failures, count_successes, render_outcomes, Report};

fn task(src: &str, dst: &str) -> CopyTask {
    CopyTask { source_path: src.to_string(), destination_path: dst.to_string() }
}

#[test]
fn can_display() {
    let src = "./".to_string();
    let dst = "./".to_string();
    let copy_result = CopyResult::new(src, dst, Ok(0));

    assert_eq!(copy_result.render_line(), "Copied 0 bytes from ./ to ./");
}

#[test]
fn can_print_vec_of_copy_results() {
    let copy_results: Vec<CopyResult> = vec![
        CopyResult::new("./".to_string(), "./".to_string(), Ok(0)),
        CopyResult::new("./".to_string(), "./".to_string(), Ok(0)),
    ];

    println!("{}", Report(&copy_results).render());

    let expected = "2 files copied successfully; 0 files failed to copy\n\
                         Copied 0 bytes from ./ to ./\n\
                         Copied 0 bytes from ./ to ./\n";

    assert_eq!(expected, Report(&copy_results).render());
}

#[test]
fn failure_line_names_both_paths_and_cause() {
    let outcome = CopyResult::new(
        "s/a.txt".to_string(),
        "d/a.txt".to_string(),
        Err("permission denied".to_string()),
    );
    assert!(outcome.is_err());
    assert!(!outcome.is_ok());
    assert_eq!(
        outcome.render_line(),
        "Failed to copy from s/a.txt to d/a.txt: permission denied"
    );
}

#[test]
fn outcomes_keep_submission_order() {
    let tasks = vec![
        task("s/a.txt", "d/a.txt"),
        task("s/b.txt", "d/b.txt"),
        task("s/c.txt", "d/c.txt"),
    ];
    let results: Vec<Result<u64, String>> = vec![Ok(1), Err("disk full".to_string()), Ok(3)];
    let outcomes = assemble_outcomes(&tasks, results);
    assert_eq!(outcomes.len(), 3);
    assert_eq!(outcomes[0].render_line(), "Copied 1 bytes from s/a.txt to d/a.txt");
    assert_eq!(
        outcomes[1].render_line(),
        "Failed to copy from s/b.txt to d/b.txt: disk full"
    );
    assert_eq!(outcomes[2].render_line(), "Copied 3 bytes from s/c.txt to d/c.txt");
}

#[test]
fn one_failure_leaves_siblings_intact() {
    let tasks = vec![task("s/a.txt", "d/a.txt"), task("s/b.txt", "d/b.txt")];
    let results: Vec<Result<u64, String>> = vec![Ok(5), Err("read-only".to_string())];
    let outcomes = assemble_outcomes(&tasks, results);
    assert_eq!(outcomes.len(), 2);
    assert!(outcomes[0].is_ok());
    assert!(outcomes[1].is_err());
    let report = render_outcomes(&outcomes);
    assert_eq!(
        report,
        "1 files copied successfully; 1 files failed to copy\n\
         Copied 5 bytes from s/a.txt to d/a.txt\n\
         Failed to copy from s/b.txt to d/b.txt: read-only\n"
    );
}

#[test]
fn report_counts_sum_to_total() {
    let tasks = vec![
        task("s/a", "d/a"),
        task("s/b", "d/b"),
        task("s/c", "d/c"),
        task("s/d", "d/d"),
    ];
    let results: Vec<Result<u64, String>> =
        vec![Ok(10), Err("x".to_string()), Ok(0), Err("y".to_string())];
    let outcomes = assemble_outcomes(&tasks, results);
    let successes = count_successes(&outcomes);
    let failures = count_failures(&outcomes);
    assert_eq!(successes, 2);
    assert_eq!(failures, 2);
    assert_eq!(successes + failures, outcomes.len());
    let report = render_outcomes(&outcomes);
    assert!(report.starts_with("2 files copied successfully; 2 files failed to copy\n"));
    assert_eq!(report.lines().count(), 5);
}

#[test]
fn empty_batch_renders_empty_report() {
    let tasks: Vec<CopyTask> = Vec::new();
    let results: Vec<Result<u64, String>> = Vec::new();
    let outcomes = assemble_outcomes(&tasks, results);
    assert!(outcomes.is_empty());
    assert_eq!(
        render_outcomes(&outcomes),
        "0 files copied successfully; 0 files failed to copy\n"
    );
}

#[test]
fn large_byte_counts_render_in_decimal() {
    let outcome = CopyResult::new(
        "s/big.bin".to_string(),
        "d/big.bin".to_string(),
        Ok(1234567890),
    );
    assert_eq!(
        outcome.render_line(),
        "Copied 1234567890 bytes from s/big.bin to d/big.bin"
    );
}

#[test]
fn single_outcome_reports_through_wrapper() {
    let outcome = CopyResult::new("a".to_string(), "b".to_string(), Ok(7));
    assert_eq!(Report(outcome).render(), "Copied 7 bytes from a to b");
}
