use isc::checksum::digest_bytes;
use isc::configuration::Algorithm;
use isc::diff::{base_name_of, diff, join_dir};
use isc::fingerprint::{fingerprint_files, select_files, DirEntry, DirectoryFingerprint};

fn files(pairs: &[(&str, &str)]) -> Vec<(String, Vec<u8>)> {
    pairs
        .iter()
        .map(|(path, content)| (path.to_string(), content.as_bytes().to_vec()))
        .collect()
}

#[test]
fn select_files_accepts_plain_files() {
    let entries = vec![
        DirEntry { path: "src/a.txt".to_string(), is_directory: false },
        DirEntry { path: "src/b.txt".to_string(), is_directory: false },
    ];
    let paths = select_files(&entries).unwrap();
    assert_eq!(paths, vec!["src/a.txt".to_string(), "src/b.txt".to_string()]);
}

#[test]
fn select_files_rejects_subdirectory() {
    let entries = vec![
        DirEntry { path: "src/a.txt".to_string(), is_directory: false },
        DirEntry { path: "src/nested".to_string(), is_directory: true },
        DirEntry { path: "src/b.txt".to_string(), is_directory: false },
    ];
    let err = select_files(&entries).unwrap_err();
    assert_eq!(
        err.describe(),
        "directory entries are not copied: src/nested"
    );
}

#[test]
fn fingerprint_views_are_consistent() {
    let alg = Algorithm::SHA2_256;
    let listing = files(&[("d/a.txt", "hello"), ("d/b.txt", "world")]);
    let fp = fingerprint_files(&alg, &listing);
    assert_eq!(fp.len(), 2);
    assert!(fp.contains_path(&"d/a.txt".to_string()));
    assert!(fp.contains_path(&"d/b.txt".to_string()));
    assert!(!fp.contains_path(&"d/c.txt".to_string()));
    let hello_digest = digest_bytes(&alg, &b"hello".to_vec());
    let world_digest = digest_bytes(&alg, &b"world".to_vec());
    assert!(fp.contains_digest(&hello_digest));
    assert!(fp.contains_digest(&world_digest));
    assert_eq!(fp.path_at(0), "d/a.txt");
    assert_eq!(fp.digest_at(0), &hello_digest);
}

#[test]
fn fingerprint_grows_entry_by_entry() {
    let alg = Algorithm::SHA2_256;
    let mut fp = DirectoryFingerprint::new();
    assert_eq!(fp.len(), 0);
    fp.add_file(&alg, "d/a.txt".to_string(), &b"hello".to_vec());
    fp.add_digest("d/b.txt".to_string(), digest_bytes(&alg, &b"world".to_vec()));
    assert_eq!(fp.len(), 2);
    assert!(fp.contains_digest(&digest_bytes(&alg, &b"world".to_vec())));
    assert!(!fp.contains_digest(&digest_bytes(&alg, &b"other".to_vec())));
}

#[test]
fn base_name_takes_what_follows_the_last_separator() {
    assert_eq!(base_name_of(&"a/b/c.txt".to_string()), "c.txt");
    assert_eq!(base_name_of(&"c.txt".to_string()), "c.txt");
    assert_eq!(base_name_of(&"./b.txt".to_string()), "b.txt");
    assert_eq!(base_name_of(&"a/".to_string()), "");
}

#[test]
fn join_dir_inserts_one_separator() {
    assert_eq!(join_dir(&"dest".to_string(), &"b.txt".to_string()), "dest/b.txt");
    assert_eq!(join_dir(&"./".to_string(), &"b.txt".to_string()), "./b.txt");
    assert_eq!(join_dir(&"".to_string(), &"b.txt".to_string()), "b.txt");
}

#[test]
fn diff_copies_only_missing_content() {
    let alg = Algorithm::SHA2_256;
    let source = fingerprint_files(&alg, &files(&[("source/a.txt", "hello"), ("source/b.txt", "world")]));
    let destination = fingerprint_files(&alg, &files(&[("dest/x.txt", "hello")]));
    let tasks = diff(&source, &destination, &"dest".to_string());
    assert_eq!(tasks.len(), 1);
    assert_eq!(tasks[0].source_path, "source/b.txt");
    assert_eq!(tasks[0].destination_path, "dest/b.txt");
}

#[test]
fn diff_skips_content_present_under_other_name() {
    let alg = Algorithm::SHA2_256;
    let source = fingerprint_files(&alg, &files(&[("source/a.txt", "same")]));
    let destination = fingerprint_files(&alg, &files(&[("dest/renamed.bin", "same")]));
    let tasks = diff(&source, &destination, &"dest".to_string());
    assert!(tasks.is_empty());
}

#[test]
fn diff_of_empty_source_is_empty() {
    let alg = Algorithm::SHA2_256;
    let source = fingerprint_files(&alg, &files(&[]));
    let destination = fingerprint_files(&alg, &files(&[("dest/x.txt", "hello")]));
    let tasks = diff(&source, &destination, &"dest".to_string());
    assert!(tasks.is_empty());
}

#[test]
fn diff_into_empty_destination_copies_everything_in_order() {
    let alg = Algorithm::SHA2_256;
    let source = fingerprint_files(
        &alg,
        &files(&[("s/a.txt", "one"), ("s/b.txt", "two"), ("s/c.txt", "three")]),
    );
    let destination = fingerprint_files(&alg, &files(&[]));
    let tasks = diff(&source, &destination, &"d".to_string());
    let sources: Vec<&str> = tasks.iter().map(|t| t.source_path.as_str()).collect();
    assert_eq!(sources, vec!["s/a.txt", "s/b.txt", "s/c.txt"]);
    let destinations: Vec<&str> = tasks.iter().map(|t| t.destination_path.as_str()).collect();
    assert_eq!(destinations, vec!["d/a.txt", "d/b.txt", "d/c.txt"]);
}

#[test]
fn copies_report_scenario_end_to_end() {
    let alg = Algorithm::SHA2_256;
    let source = fingerprint_files(
        &alg,
        &files(&[("source/a.txt", "hello"), ("source/b.txt", "world")]),
    );
    let destination = fingerprint_files(&alg, &files(&[("dest/x.txt", "hello")]));
    let tasks = diff(&source, &destination, &"dest".to_string());
    assert_eq!(tasks.len(), 1);

    // the one needed copy succeeds, writing the five bytes of "world"
    let results: Vec<Result<u64, String>> = vec![Ok(5)];
    let outcomes = isc::file_copy::assemble_outcomes(&tasks, results);
    let report = isc::report::render_outcomes(&outcomes);
    assert_eq!(
        report,
        "1 files copied successfully; 0 files failed to copy\n\
         Copied 5 bytes from source/b.txt to dest/b.txt\n"
    );
}
