use darklua::cli::utils::{
    decimal_text, entry_action, log_array, maybe_plural, EntryAction, EntryKind, FileProcessing,
};

fn path(components: &[&str]) -> Vec<String> {
    components.iter().map(|component| component.to_string()).collect()
}

#[test]
fn plural_for_more_than_one() {
    assert_eq!(maybe_plural(0), "");
    assert_eq!(maybe_plural(1), "");
    assert_eq!(maybe_plural(2), "s");
}

#[test]
fn numbers_in_base_ten() {
    assert_eq!(decimal_text(0), "0");
    assert_eq!(decimal_text(7), "7");
    assert_eq!(decimal_text(10), "10");
    assert_eq!(decimal_text(9054), "9054");
}

#[test]
fn short_list_is_shown_whole() {
    assert_eq!(log_array(Vec::new()), "[\n    \n]");
    assert_eq!(log_array(vec!["a".to_owned()]), "[\n    a\n]");
    assert_eq!(
        log_array(vec!["a".to_owned(), "b".to_owned()]),
        "[\n    a,\n    b\n]"
    );
}

#[test]
fn long_list_is_cut_after_seven() {
    let seven: Vec<String> = (1..=7).map(|i| i.to_string()).collect();
    assert_eq!(
        log_array(seven),
        "[\n    1,\n    2,\n    3,\n    4,\n    5,\n    6,\n    7\n]"
    );
    let twenty: Vec<String> = (1..=20).map(|i| i.to_string()).collect();
    assert_eq!(
        log_array(twenty),
        "[\n    1,\n    2,\n    3,\n    4,\n    5,\n    6,\n    7,\n    ... and 13 more\n]"
    );
}

#[test]
fn file_in_place() {
    let same = FileProcessing { source: path(&["src", "a.lua"]), output: path(&["src", "a.lua"]) };
    let other = FileProcessing { source: path(&["src", "a.lua"]), output: path(&["out", "a.lua"]) };
    let shorter = FileProcessing { source: path(&["src", "a.lua"]), output: path(&["src"]) };

    assert!(same.is_in_place());
    assert!(!other.is_in_place());
    assert!(!shorter.is_in_place());
}

#[test]
fn find_for_each_kind_of_input() {
    let found = vec![FileProcessing { source: path(&["src", "a.lua"]), output: path(&["out", "a.lua"]) }];

    assert_eq!(
        FileProcessing::find(path(&["a.lua"]), path(&["b.lua"]), EntryKind::File, Vec::new()),
        vec![FileProcessing { source: path(&["a.lua"]), output: path(&["b.lua"]) }]
    );
    assert_eq!(
        FileProcessing::find(path(&["src"]), path(&["out"]), EntryKind::Directory, found.clone()),
        found
    );
    assert_eq!(
        FileProcessing::find(path(&["src"]), path(&["out"]), EntryKind::Other, found),
        Vec::new()
    );
}

#[test]
fn entries_of_a_walked_directory() {
    let output = path(&["out"]);

    assert_eq!(
        entry_action(path(&["src", "lib"]), Some("lib".to_owned()), None, EntryKind::Directory, &output),
        EntryAction::Descend { output: path(&["out", "lib"]) }
    );
    assert_eq!(
        entry_action(
            path(&["src", "a.lua"]),
            Some("a.lua".to_owned()),
            Some("lua".to_owned()),
            EntryKind::File,
            &output
        ),
        EntryAction::Process(FileProcessing {
            source: path(&["src", "a.lua"]),
            output: path(&["out", "a.lua"]),
        })
    );
    assert_eq!(
        entry_action(
            path(&["src", "a.txt"]),
            Some("a.txt".to_owned()),
            Some("txt".to_owned()),
            EntryKind::File,
            &output
        ),
        EntryAction::Ignore
    );
    assert_eq!(
        entry_action(path(&["src", "lua"]), Some("lua".to_owned()), None, EntryKind::File, &output),
        EntryAction::Ignore
    );
    assert_eq!(
        entry_action(path(&["src", "pipe"]), Some("pipe".to_owned()), None, EntryKind::Other, &output),
        EntryAction::ReportUnexpected
    );
    assert_eq!(
        entry_action(path(&["src", ".."]), None, None, EntryKind::Directory, &output),
        EntryAction::ReportUnnamed
    );
}
