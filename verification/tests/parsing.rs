use stg_tui::stgit::{
    get_branch_info, get_history, get_index_files, get_patch_files, get_patches,
    get_worktree_files, history_base, load_state, patch_files_readable, series_readable,
    status_readable, stg_branch_list, trimmed, FileStatus, PatchStatus, RawOutputs,
};
use stg_tui::text::{concat_str, lines_of, parse_usize_str, usize_to_string};

fn strs(v: &[String]) -> Vec<&str> {
    v.iter().map(|s| s.as_str()).collect()
}

#[test]
fn lines_split_like_str_lines() {
    assert_eq!(strs(&lines_of("a\nb")), vec!["a", "b"]);
    assert_eq!(strs(&lines_of("a\r\nb\n")), vec!["a", "b"]);
    assert_eq!(strs(&lines_of("")), Vec::<&str>::new());
    assert_eq!(strs(&lines_of("\n")), vec![""]);
    assert_eq!(strs(&lines_of("a\n\nb")), vec!["a", "", "b"]);
    assert_eq!(strs(&lines_of("a\r")), vec!["a\r"]);
    assert_eq!(strs(&lines_of("x\r\r\n")), vec!["x\r"]);
}

#[test]
fn trimming_removes_unicode_whitespace() {
    assert_eq!(trimmed("  main \n"), "main");
    assert_eq!(trimmed("\u{3000}a b\u{a0}"), "a b");
    assert_eq!(trimmed("   "), "");
}

#[test]
fn decimal_numbers_round_trip() {
    assert_eq!(usize_to_string(0), "0");
    assert_eq!(usize_to_string(7), "7");
    assert_eq!(usize_to_string(1205), "1205");
    assert_eq!(usize_to_string(usize::MAX), usize::MAX.to_string());
    assert_eq!(parse_usize_str("42"), Some(42));
    assert_eq!(parse_usize_str("+7"), Some(7));
    assert_eq!(parse_usize_str("007"), Some(7));
    assert_eq!(parse_usize_str(""), None);
    assert_eq!(parse_usize_str("+"), None);
    assert_eq!(parse_usize_str("-1"), None);
    assert_eq!(parse_usize_str("12a"), None);
    assert_eq!(parse_usize_str(" 1"), None);
    assert_eq!(parse_usize_str("99999999999999999999999"), None);
    let max = usize::MAX.to_string();
    assert_eq!(parse_usize_str(&max), Some(usize::MAX));
    assert_eq!(parse_usize_str(&usize_to_string(123456)), Some(123456));
}

#[test]
fn concat_joins_text() {
    assert_eq!(concat_str("Error: ", "boom"), "Error: boom");
    assert_eq!(concat_str("", ""), "");
}

#[test]
fn series_lines_become_patches() {
    let out = "+ first-patch # Add the first thing\n> current   # Work in progress\n\n- later\n-0 empty-one # nothing yet\n";
    assert!(series_readable(out));
    let p = get_patches(out);
    assert_eq!(p.len(), 4);
    assert_eq!(p[0].name, "first-patch");
    assert_eq!(p[0].description, "Add the first thing");
    assert_eq!(p[0].status, PatchStatus::Applied);
    assert!(!p[0].empty);
    assert_eq!(p[1].name, "current");
    assert_eq!(p[1].description, "Work in progress");
    assert_eq!(p[1].status, PatchStatus::Current);
    assert_eq!(p[2].name, "later");
    assert_eq!(p[2].description, "");
    assert_eq!(p[2].status, PatchStatus::Unapplied);
    assert_eq!(p[3].name, "empty-one");
    assert!(p[3].empty);
    assert_eq!(p[3].status, PatchStatus::Unapplied);
    assert_eq!(p[3].description, "nothing yet");
}

#[test]
fn series_unknown_status_is_unapplied_and_description_keeps_markers() {
    let p = get_patches("* odd # a # b \n");
    assert_eq!(p.len(), 1);
    assert_eq!(p[0].status, PatchStatus::Unapplied);
    assert_eq!(p[0].name, "odd");
    assert_eq!(p[0].description, "a # b ");
}

#[test]
fn series_line_starting_with_wide_char_is_unreadable() {
    assert!(!series_readable("é patch\n"));
    assert!(series_readable(""));
    assert!(series_readable("+é patch\n"));
}

#[test]
fn name_status_reads_renames_as_new_path() {
    let out = "M\tsrc/a.rs\nA\tnew.txt\nD\tgone\nR100\told.rs\tnew.rs\nC75\tx\ty\nT\ttype.rs\nM\n\n";
    let f = get_index_files(out);
    assert_eq!(f.len(), 6);
    assert_eq!((f[0].status.clone(), f[0].path.as_str()), (FileStatus::Modified, "src/a.rs"));
    assert_eq!((f[1].status.clone(), f[1].path.as_str()), (FileStatus::Added, "new.txt"));
    assert_eq!((f[2].status.clone(), f[2].path.as_str()), (FileStatus::Deleted, "gone"));
    assert_eq!((f[3].status.clone(), f[3].path.as_str()), (FileStatus::Renamed, "new.rs"));
    assert_eq!((f[4].status.clone(), f[4].path.as_str()), (FileStatus::Copied, "y"));
    assert_eq!((f[5].status.clone(), f[5].path.as_str()), (FileStatus::Modified, "type.rs"));
}

#[test]
fn rename_without_second_path_keeps_the_only_one() {
    let f = get_index_files("R\tonly\n");
    assert_eq!(f.len(), 1);
    assert_eq!(f[0].path, "only");
}

#[test]
fn worktree_lists_changes_untracked_and_conflicts() {
    let diff = "M\tsrc/lib.rs\nM\tconflicted.rs\n";
    let untracked = "notes.txt\n\nscratch/a\n";
    let status = " M src/lib.rs\nUU conflicted.rs\nAA both.rs\n?? notes.txt\nDD\nxy\n";
    assert!(status_readable(status));
    let f = get_worktree_files(diff, untracked, status);
    let got: Vec<(FileStatus, &str)> = f.iter().map(|e| (e.status.clone(), e.path.as_str())).collect();
    assert_eq!(
        got,
        vec![
            (FileStatus::Modified, "src/lib.rs"),
            (FileStatus::Untracked, "notes.txt"),
            (FileStatus::Untracked, "scratch/a"),
            (FileStatus::Unresolved, "conflicted.rs"),
            (FileStatus::Unresolved, "both.rs"),
        ]
    );
}

#[test]
fn conflict_listed_twice_stays_once() {
    let f = get_worktree_files("", "", "UU a\nDU a\n");
    assert_eq!(f.len(), 1);
    assert_eq!(f[0].status, FileStatus::Unresolved);
    assert_eq!(f[0].path, "a");
}

#[test]
fn status_line_cut_inside_a_char_is_unreadable() {
    assert!(!status_readable("U\u{20ac} x\n"));
    assert!(status_readable("U\u{e9} x\n"));
    let f = get_worktree_files("", "", "U\u{e9} x\n");
    assert_eq!(f[0].path, " x");
}

#[test]
fn patch_files_are_trimmed() {
    let out = "M src/main.rs\nA  added.txt \nD\nX other\n\n";
    assert!(patch_files_readable(out));
    let f = get_patch_files(out);
    assert_eq!(f.len(), 3);
    assert_eq!((f[0].status.clone(), f[0].path.as_str()), (FileStatus::Modified, "src/main.rs"));
    assert_eq!((f[1].status.clone(), f[1].path.as_str()), (FileStatus::Added, "added.txt"));
    assert_eq!((f[2].status.clone(), f[2].path.as_str()), (FileStatus::Modified, "other"));
    assert!(!patch_files_readable("\u{e9}x\n"));
}

#[test]
fn branch_list_names() {
    let out = "> main    | the main line\n  topic | \n   \n>>  x|y|z\n| nothing\n";
    let b = stg_branch_list(out);
    assert_eq!(strs(&b), vec!["main", "topic", "x"]);
}

#[test]
fn branch_info_trims_and_drops_empty_upstream() {
    let b = get_branch_info("main\n", Some("origin/main\n"));
    assert_eq!(b.name, "main");
    assert_eq!(b.upstream.as_deref(), Some("origin/main"));
    let b = get_branch_info(" dev ", Some("\n"));
    assert_eq!(b.name, "dev");
    assert_eq!(b.upstream, None);
    let b = get_branch_info("x", None);
    assert_eq!(b.upstream, None);
}

#[test]
fn history_base_and_lines() {
    assert_eq!(history_base(Some("abc123\n")).as_deref(), Some("abc123"));
    assert_eq!(history_base(Some("  \n")), None);
    assert_eq!(history_base(None), None);
    assert_eq!(strs(&get_history("fix b\nadd a\n")), vec!["fix b", "add a"]);
}

#[test]
fn load_state_combines_all_outputs() {
    let raw = RawOutputs {
        head: "main\n".to_string(),
        upstream: None,
        history_log: Some("older\noldest\n".to_string()),
        series: "+ a\n> b # desc\n- c\n".to_string(),
        index_diff: "A\tnew\n".to_string(),
        worktree_diff: "M\tfile\n".to_string(),
        untracked: "u\n".to_string(),
        status: "UU file\n".to_string(),
    };
    let st = load_state(&raw);
    assert_eq!(st.branch.name, "main");
    assert_eq!(st.branch.upstream, None);
    assert_eq!(strs(&st.history), vec!["older", "oldest"]);
    assert_eq!(st.patches.len(), 3);
    assert_eq!(st.patches[1].description, "desc");
    assert_eq!(st.index_files.len(), 1);
    let wt: Vec<(FileStatus, &str)> =
        st.worktree_files.iter().map(|e| (e.status.clone(), e.path.as_str())).collect();
    assert_eq!(wt, vec![(FileStatus::Untracked, "u"), (FileStatus::Unresolved, "file")]);
    let raw2 = RawOutputs { history_log: None, ..raw };
    assert!(load_state(&raw2).history.is_empty());
}

#[test]
fn labels() {
    assert_eq!(FileStatus::Modified.label(), "Modified");
    assert_eq!(FileStatus::Added.label(), "Added");
    assert_eq!(FileStatus::Deleted.label(), "Deleted");
    assert_eq!(FileStatus::Renamed.label(), "Renamed");
    assert_eq!(FileStatus::Copied.label(), "Copied");
    assert_eq!(FileStatus::Untracked.label(), "Unknown");
    assert_eq!(FileStatus::Unresolved.label(), "Unresolved");
}
