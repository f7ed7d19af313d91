use renls::{
    extension, join_path, make_rename_pair, name_list_from_lines, name_source, path_lt,
    plan_renames, proposal_lines, rename_failure_message, renamed_file_name, sort_entries,
    FileEntry, NameSource, RenlsError,
};

fn strings(items: &[&str]) -> Vec<String> {
    items.iter().map(|s| s.to_string()).collect()
}

fn entry(parent: &str, file_name: &str) -> FileEntry {
    FileEntry::new(parent.to_string(), file_name.to_string())
}

fn pair_strings(pairs: &[renls::RenamePair]) -> Vec<(String, String)> {
    pairs.iter().map(|p| (p.source.clone(), p.destination.clone())).collect()
}

#[test]
fn sorted_files_take_names_in_list_order() {
    let names = strings(&["one", "two", "three"]);
    let files = vec![entry("dir", "b.txt"), entry("dir", "a.txt"), entry("dir", "c.txt")];
    let pairs = plan_renames(&names, files).unwrap();
    assert_eq!(
        pair_strings(&pairs),
        vec![
            ("dir/a.txt".to_string(), "dir/one.txt".to_string()),
            ("dir/b.txt".to_string(), "dir/two.txt".to_string()),
            ("dir/c.txt".to_string(), "dir/three.txt".to_string()),
        ]
    );
}

#[test]
fn dry_run_shows_one_line_per_file() {
    let lines = strings(&["# new names", "", "  alpha ", "beta", "gamma"]);
    let names = name_list_from_lines(&lines);
    let files = vec![entry("photos", "img2.jpg"), entry("photos", "img1.png"), entry("photos", "notes")];
    let pairs = plan_renames(&names, files).unwrap();
    let out = proposal_lines(&pairs);
    assert_eq!(
        out,
        strings(&[
            "photos/img1.png --> photos/alpha.png",
            "photos/img2.jpg --> photos/beta.jpg",
            "photos/notes --> photos/gamma",
        ])
    );
}

#[test]
fn count_mismatch_plans_nothing() {
    let names = strings(&["one", "two"]);
    let files = vec![entry("d", "a"), entry("d", "b"), entry("d", "c")];
    assert_eq!(plan_renames(&names, files).err(), Some(RenlsError::CountMismatch));
    let names = strings(&["one", "two", "three"]);
    let files = vec![entry("d", "a")];
    assert_eq!(plan_renames(&names, files).err(), Some(RenlsError::CountMismatch));
}

#[test]
fn empty_list_and_empty_directory_plan_no_renames() {
    let pairs = plan_renames(&Vec::new(), Vec::new()).unwrap();
    assert!(pairs.is_empty());
    assert!(proposal_lines(&pairs).is_empty());
}

#[test]
fn comments_and_blank_lines_do_not_count() {
    let lines = strings(&["#header", "one", "", "# two", "three", "#"]);
    assert_eq!(name_list_from_lines(&lines), strings(&["one", "three"]));
    let files = vec![entry("d", "x.md"), entry("d", "y.md")];
    assert!(plan_renames(&name_list_from_lines(&lines), files).is_ok());
}

#[test]
fn kept_lines_are_trimmed() {
    let lines = strings(&["  padded\t", " # indented hash", "   ", "plain"]);
    assert_eq!(name_list_from_lines(&lines), strings(&["padded", "# indented hash", "", "plain"]));
}

#[test]
fn extension_follows_the_last_dot() {
    assert_eq!(extension("a.txt"), Some("txt".to_string()));
    assert_eq!(extension("archive.tar.gz"), Some("gz".to_string()));
    assert_eq!(extension("trailing."), Some("".to_string()));
    assert_eq!(extension("noext"), None);
    assert_eq!(extension(".profile"), None);
    assert_eq!(extension(".config.toml"), Some("toml".to_string()));
    assert_eq!(extension(".."), None);
    assert_eq!(extension(""), None);
}

#[test]
fn new_name_keeps_the_extension() {
    assert_eq!(renamed_file_name("one", "b.txt"), "one.txt");
    assert_eq!(renamed_file_name("one", "README"), "one");
    assert_eq!(renamed_file_name("one", ".hidden"), "one");
    assert_eq!(renamed_file_name("one", "x.tar.gz"), "one.gz");
    assert_eq!(renamed_file_name("one", "end."), "one.");
}

#[test]
fn joining_paths() {
    assert_eq!(join_path("dir", "a.txt"), "dir/a.txt");
    assert_eq!(join_path("dir/", "a.txt"), "dir/a.txt");
    assert_eq!(join_path("", "a.txt"), "a.txt");
    assert_eq!(join_path("/", "a.txt"), "/a.txt");
    assert_eq!(join_path("dir", "/abs/x"), "/abs/x");
    assert_eq!(entry("./d", "f").path(), "./d/f");
}

#[test]
fn textual_order_of_paths() {
    assert!(path_lt("a", "b"));
    assert!(!path_lt("b", "a"));
    assert!(path_lt("a", "ab"));
    assert!(!path_lt("ab", "a"));
    assert!(!path_lt("same", "same"));
    assert!(path_lt("B", "a"));
    assert!(path_lt("z", "\u{e9}"));
    assert!(path_lt("", "x"));
}

#[test]
fn sorting_entries_by_path() {
    let files = vec![entry("d", "c"), entry("d", "a10"), entry("d", "a2"), entry("d", "B")];
    let sorted: Vec<String> = sort_entries(files).iter().map(|e| e.path()).collect();
    assert_eq!(sorted, strings(&["d/B", "d/a10", "d/a2", "d/c"]));
}

#[test]
fn pairs_follow_the_given_order() {
    let names = strings(&["first", "second"]);
    let files = vec![entry("d", "z.rs"), entry("d", "a.rs")];
    let pairs = make_rename_pair(&names, &files);
    assert_eq!(
        pair_strings(&pairs),
        vec![
            ("d/z.rs".to_string(), "d/first.rs".to_string()),
            ("d/a.rs".to_string(), "d/second.rs".to_string()),
        ]
    );
}

#[test]
fn choosing_the_name_source() {
    assert_eq!(name_source("names.txt", false), Ok(NameSource::File("names.txt".to_string())));
    assert_eq!(name_source("names.txt", true), Ok(NameSource::File("names.txt".to_string())));
    assert_eq!(name_source("", true), Ok(NameSource::Stdin));
    assert_eq!(name_source("", false), Err(RenlsError::EmptyStdin));
}

#[test]
fn error_messages() {
    assert_eq!(RenlsError::EmptyStdin.message(), "renls: error: stdin buffer is empty");
    assert_eq!(RenlsError::UnreadableFile.message(), "renls: error: unable to read file");
    assert_eq!(RenlsError::UnreadableDirectory.message(), "renls: error: unable to read directory");
    assert_eq!(
        RenlsError::CountMismatch.message(),
        "renls: error: file list and new name list do not have the same number of items"
    );
    assert_eq!(
        rename_failure_message("d/a.txt"),
        "renls: error: unable to rename file \"d/a.txt\""
    );
}
