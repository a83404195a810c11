//! Tests for path classification, incremental naming, and creation plans.

use rs_utils::file::{
    create_append_incremental, create_append_new, file_path_incremental,
    file_path_incremental_with_extension, incremental_path, is_file, parent_dir, NamingMode,
    PathError,
};

fn snapshot(paths: &[&str]) -> Vec<String> {
    paths.iter().map(|p| p.to_string()).collect()
}

#[test]
fn is_file_accepts_normal_paths() {
    assert_eq!(is_file("path/to/file"), Ok(true));
    assert_eq!(is_file("somefile"), Ok(true));
    assert_eq!(is_file("/absolute/file.txt"), Ok(true));
    assert_eq!(is_file("dir/.hidden"), Ok(true));
    assert_eq!(is_file("dir/..."), Ok(true));
}

#[test]
fn is_file_rejects_separator_terminated_paths() {
    assert_eq!(is_file("path/to/directory/"), Ok(false));
    assert_eq!(is_file("somepath/"), Ok(false));
    assert_eq!(is_file("/"), Ok(false));
}

#[test]
fn is_file_rejects_marker_paths() {
    assert_eq!(is_file(""), Ok(false));
    assert_eq!(is_file("."), Ok(false));
    assert_eq!(is_file(".."), Ok(false));
    assert_eq!(is_file("dir/."), Ok(false));
    assert_eq!(is_file("dir/.."), Ok(false));
}

#[test]
fn incremental_suffix_starts_at_zero() {
    let empty = snapshot(&[]);
    assert_eq!(
        file_path_incremental("somedir/somefile", &empty).unwrap(),
        "somedir/somefile-0"
    );
    assert_eq!(
        file_path_incremental("archive.tar.gz", &empty).unwrap(),
        "archive.tar.gz-0"
    );
}

#[test]
fn incremental_suffix_skips_existing_indices() {
    let one = snapshot(&["somedir/somefile-0"]);
    assert_eq!(
        file_path_incremental("somedir/somefile", &one).unwrap(),
        "somedir/somefile-1"
    );
    let many = snapshot(&[
        "somedir/somefile-0",
        "somedir/somefile-1",
        "somedir/somefile-2",
    ]);
    assert_eq!(
        file_path_incremental("somedir/somefile", &many).unwrap(),
        "somedir/somefile-3"
    );
    let gap = snapshot(&["somedir/somefile-0", "somedir/somefile-2"]);
    assert_eq!(
        file_path_incremental("somedir/somefile", &gap).unwrap(),
        "somedir/somefile-1"
    );
}

#[test]
fn the_base_path_itself_is_not_a_candidate() {
    // only the incremented siblings are probed, so the base file's own
    // existence does not move the index past zero
    let ex = snapshot(&["somedir/somefile"]);
    assert_eq!(
        file_path_incremental("somedir/somefile", &ex).unwrap(),
        "somedir/somefile-0"
    );
}

#[test]
fn incremental_is_a_repeatable_pure_query() {
    let ex = snapshot(&["logs/run-0", "logs/run-1"]);
    let first = file_path_incremental("logs/run", &ex).unwrap();
    let second = file_path_incremental("logs/run", &ex).unwrap();
    assert_eq!(first, second);
    assert_eq!(first, "logs/run-2");
}

#[test]
fn incremental_rejects_non_files() {
    let empty = snapshot(&[]);
    assert_eq!(
        file_path_incremental("somepath/", &empty),
        Err(PathError::NotAFile)
    );
    assert_eq!(
        file_path_incremental("..", &empty),
        Err(PathError::NotAFile)
    );
    assert_eq!(
        file_path_incremental_with_extension("somepath/", &empty),
        Err(PathError::NotAFile)
    );
}

#[test]
fn incremental_with_extension_inserts_before_extension() {
    let empty = snapshot(&[]);
    assert_eq!(
        file_path_incremental_with_extension("dir/file.txt", &empty).unwrap(),
        "dir/file-0.txt"
    );
    let created = snapshot(&["dir/file-0.txt"]);
    assert_eq!(
        file_path_incremental_with_extension("dir/file.txt", &created).unwrap(),
        "dir/file-1.txt"
    );
    // the last dot decides the extension
    assert_eq!(
        file_path_incremental_with_extension("archive.tar.gz", &empty).unwrap(),
        "archive.tar-0.gz"
    );
}

#[test]
fn incremental_with_extension_falls_back_to_suffix_mode() {
    let empty = snapshot(&[]);
    assert_eq!(
        file_path_incremental_with_extension("dir/file", &empty).unwrap(),
        "dir/file-0"
    );
    // a leading dot is not an extension
    assert_eq!(
        file_path_incremental_with_extension("dir/.gitignore", &empty).unwrap(),
        "dir/.gitignore-0"
    );
}

#[test]
fn incremental_path_dispatches_on_mode() {
    let empty = snapshot(&[]);
    assert_eq!(
        incremental_path("dir/file.txt", NamingMode::Suffix, &empty).unwrap(),
        "dir/file.txt-0"
    );
    assert_eq!(
        incremental_path("dir/file.txt", NamingMode::PreserveExtension, &empty).unwrap(),
        "dir/file-0.txt"
    );
}

#[test]
fn create_append_new_plans_fresh_paths() {
    let empty = snapshot(&[]);
    let plan = create_append_new("tmp/somefile", &empty).unwrap();
    assert_eq!(plan.path, "tmp/somefile");
    assert_eq!(plan.parent, "tmp/");
    let bare = create_append_new("somefile", &empty).unwrap();
    assert_eq!(bare.path, "somefile");
    assert_eq!(bare.parent, "");
}

#[test]
fn create_append_new_fails_on_existing_file() {
    let ex = snapshot(&["tmp/somefile"]);
    assert_eq!(
        create_append_new("tmp/somefile", &ex).unwrap_err(),
        PathError::AlreadyExists
    );
}

#[test]
fn create_append_new_fails_on_directory_paths() {
    let empty = snapshot(&[]);
    assert_eq!(
        create_append_new("somepath/", &empty).unwrap_err(),
        PathError::NotAFile
    );
    assert_eq!(
        create_append_new(".", &empty).unwrap_err(),
        PathError::NotAFile
    );
}

#[test]
fn three_incremental_creations_yield_three_distinct_files() {
    let mut existing = snapshot(&[]);
    let mut created = Vec::new();
    for _ in 0..3 {
        let plan = create_append_incremental("tmp/myfile", NamingMode::Suffix, &existing).unwrap();
        assert_eq!(plan.parent, "tmp/");
        created.push(plan.path.clone());
        existing.push(plan.path);
    }
    assert_eq!(created, vec!["tmp/myfile-0", "tmp/myfile-1", "tmp/myfile-2"]);
}

#[test]
fn created_incremental_path_is_never_returned_again() {
    let mut existing = snapshot(&["out/data-1"]);
    let p = file_path_incremental("out/data", &existing).unwrap();
    assert_eq!(p, "out/data-0");
    existing.push(p.clone());
    let next = file_path_incremental("out/data", &existing).unwrap();
    assert_ne!(next, p);
    assert_eq!(next, "out/data-2");
}

#[test]
fn parent_dir_keeps_the_separator() {
    assert_eq!(parent_dir("dir/sub/f"), "dir/sub/");
    assert_eq!(parent_dir("/f"), "/");
    assert_eq!(parent_dir("f"), "");
}

#[test]
fn error_messages_name_each_failure() {
    assert_eq!(PathError::InvalidEncoding.message(), "not valid unicode");
    assert_eq!(PathError::NotAFile.message(), "not a file");
    assert_eq!(PathError::AlreadyExists.message(), "entity already exists");
    assert_eq!(PathError::IoFailure.message(), "io failure");
}
