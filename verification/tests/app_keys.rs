use stg_tui::app::{App, AppMode, InputAction, LineItem, DEFAULT_HISTORY_COUNT};
use stg_tui::keys::{command, Action, Command, Key, KeyCode, Modifiers};
use stg_tui::stgit::{load_state, CmdLine, FileStatus, RawOutputs, StackState};

fn mods(shift: bool, control: bool) -> Modifiers {
    Modifiers { shift, control, alt: false, other: false }
}

fn key(code: KeyCode) -> Key {
    Key { code, modifiers: mods(false, false) }
}

fn ch(c: char) -> Key {
    key(KeyCode::Char(c))
}

fn shift(c: char) -> Key {
    Key { code: KeyCode::Char(c), modifiers: mods(true, false) }
}

fn ctrl(c: char) -> Key {
    Key { code: KeyCode::Char(c), modifiers: mods(false, true) }
}

fn state() -> StackState {
    load_state(&RawOutputs {
        head: "main\n".to_string(),
        upstream: Some("origin/main\n".to_string()),
        history_log: Some("second\nfirst\n".to_string()),
        series: "+ alpha # one\n> beta\n- gamma # three\n".to_string(),
        index_diff: "A\tstaged.rs\n".to_string(),
        worktree_diff: "M\tchanged.rs\n".to_string(),
        untracked: "new.txt\n".to_string(),
        status: String::new(),
    })
}

fn app() -> App {
    App::new(state())
}

fn run_args(a: &Action) -> Vec<Vec<String>> {
    match a {
        Action::Run(cmds) => cmds.iter().map(|c: &CmdLine| c.args.clone()).collect(),
        other => panic!("expected commands to run, got {:?}", other),
    }
}

fn strs(v: &[&str]) -> Vec<String> {
    v.iter().map(|s| s.to_string()).collect()
}

#[test]
fn new_app_lays_out_lines_and_starts_on_index() {
    let a = app();
    assert_eq!(
        a.lines,
        vec![
            LineItem::Header,
            LineItem::History(1),
            LineItem::History(0),
            LineItem::Patch(0),
            LineItem::Patch(1),
            LineItem::IndexHeader,
            LineItem::IndexFile(0),
            LineItem::WorkTreeHeader,
            LineItem::WorkTreeFile(0),
            LineItem::Patch(2),
            LineItem::Footer,
        ]
    );
    assert_eq!(a.cursor, 5);
    assert_eq!(*a.current_line(), LineItem::IndexHeader);
    assert_eq!(a.history_count, DEFAULT_HISTORY_COUNT);
    assert!(matches!(a.mode, AppMode::Normal));
    assert_eq!(a.current_patch_index(), None);
    assert!(a.effective_patches().is_empty());
}

#[test]
fn key_map() {
    assert_eq!(command(ch('q')), Command::Quit);
    assert_eq!(command(shift('q')), Command::Ignore);
    assert_eq!(command(key(KeyCode::Up)), Command::Up);
    assert_eq!(command(ch('j')), Command::Down);
    assert_eq!(command(ctrl('r')), Command::RefreshPatch);
    assert_eq!(command(ch('r')), Command::Refresh);
    assert_eq!(command(shift('>')), Command::PushNext);
    assert_eq!(command(ctrl('<')), Command::PopCurrent);
    assert_eq!(command(shift('.')), Command::PushNext);
    assert_eq!(command(shift('G')), Command::Goto);
    assert_eq!(command(ch('G')), Command::Ignore);
    assert_eq!(command(ch('h')), Command::Help);
    assert_eq!(command(ctrl('z')), Command::Undo);
    assert_eq!(command(Key { code: KeyCode::Enter, modifiers: mods(true, false) }), Command::Ignore);
}

#[test]
fn cursor_moves_within_lines() {
    let mut a = app();
    a.handle_key(key(KeyCode::Home));
    assert_eq!(a.cursor, 0);
    a.handle_key(ch('k'));
    assert_eq!(a.cursor, 0);
    a.handle_key(ch('j'));
    assert_eq!(a.cursor, 1);
    a.handle_key(key(KeyCode::End));
    assert_eq!(a.cursor, 10);
    a.handle_key(key(KeyCode::Down));
    assert_eq!(a.cursor, 10);
    a.handle_key(key(KeyCode::PageUp));
    assert_eq!(a.cursor, 0);
    a.handle_key(key(KeyCode::PageDown));
    assert_eq!(a.cursor, 10);
    a.handle_key(key(KeyCode::Up));
    assert_eq!(a.cursor, 9);
    assert_eq!(a.current_patch_index(), Some(2));
}

#[test]
fn toggle_shows_untracked_files_and_back() {
    let mut a = app();
    a.handle_key(ch('t'));
    assert!(a.show_unknown);
    assert_eq!(a.lines.len(), 12);
    assert_eq!(a.lines[9], LineItem::WorkTreeFile(1));
    assert_eq!(a.state.worktree_files[1].status, FileStatus::Untracked);
    a.handle_key(ch('t'));
    assert!(!a.show_unknown);
    assert_eq!(a.lines.len(), 11);
}

#[test]
fn mark_unmark_and_effective_patches() {
    let mut a = app();
    a.cursor = 3;
    a.status_msg = "old".to_string();
    a.handle_key(ch('m'));
    assert_eq!(a.marked, vec![0]);
    assert_eq!(a.cursor, 4);
    assert_eq!(a.status_msg, "");
    a.handle_key(ch('m'));
    assert_eq!(a.marked, vec![0, 1]);
    a.cursor = 3;
    a.handle_key(ch('m'));
    assert_eq!(a.marked, vec![0, 1]);
    assert_eq!(a.effective_patches(), vec![0, 1]);
    assert_eq!(a.patch_names(&[1, 7, 0]), strs(&["beta", "alpha"]));
    a.cursor = 4;
    a.handle_key(ch('u'));
    assert_eq!(a.marked, vec![0]);
}

#[test]
fn push_or_pop_follows_first_patch() {
    let mut a = app();
    a.cursor = 9;
    let r = a.handle_key(shift('P'));
    assert_eq!(run_args(&r), vec![strs(&["push", "gamma"])]);
    a.cursor = 3;
    a.handle_key(ch('m'));
    a.handle_key(ch('m'));
    let r = a.handle_key(shift('P'));
    assert_eq!(run_args(&r), vec![strs(&["pop", "alpha", "beta"])]);
    assert!(a.marked.is_empty());
    a.cursor = 0;
    assert!(matches!(a.handle_key(shift('P')), Action::Nothing));
}

#[test]
fn move_and_squash_need_marks() {
    let mut a = app();
    assert!(matches!(a.handle_key(shift('M')), Action::Nothing));
    assert_eq!(a.status_msg, "Mark patches first with 'm'");
    assert!(matches!(a.handle_key(shift('S')), Action::Nothing));
    assert_eq!(a.status_msg, "Mark at least 2 patches to squash");
    a.cursor = 9;
    a.handle_key(ch('m'));
    a.cursor = 3;
    let r = a.handle_key(shift('M'));
    assert_eq!(run_args(&r), vec![strs(&["sink", "-t", "alpha", "gamma"])]);
    assert!(a.marked.is_empty());
    a.handle_key(ch('m'));
    a.handle_key(ch('m'));
    let r = a.handle_key(shift('S'));
    assert_eq!(run_args(&r), vec![strs(&["squash", "alpha", "beta"])]);
}

#[test]
fn file_operations_depend_on_line() {
    let mut a = app();
    a.cursor = 6;
    assert_eq!(run_args(&a.handle_key(ch('i'))), vec![strs(&["reset", "HEAD", "staged.rs"])]);
    assert_eq!(run_args(&a.handle_key(shift('U'))), vec![strs(&["checkout", "HEAD", "--", "staged.rs"])]);
    assert!(matches!(a.handle_key(shift('R')), Action::Nothing));
    a.cursor = 8;
    assert_eq!(run_args(&a.handle_key(ch('i'))), vec![strs(&["add", "changed.rs"])]);
    assert_eq!(run_args(&a.handle_key(shift('U'))), vec![strs(&["checkout", "--", "changed.rs"])]);
    assert_eq!(run_args(&a.handle_key(shift('R'))), vec![strs(&["add", "changed.rs"])]);
}

#[test]
fn commit_and_uncommit() {
    let mut a = app();
    a.cursor = 4;
    assert_eq!(run_args(&a.handle_key(shift('C'))), vec![strs(&["commit", "beta"])]);
    a.cursor = 9;
    assert!(matches!(a.handle_key(shift('C')), Action::Nothing));
    a.cursor = 1;
    assert_eq!(run_args(&a.handle_key(shift('C'))), vec![strs(&["uncommit", "-n", "2"])]);
}

#[test]
fn simple_operations_and_quit() {
    let mut a = app();
    assert_eq!(run_args(&a.handle_key(ch('r'))), vec![strs(&["refresh"])]);
    assert!(matches!(a.handle_key(ctrl('r')), Action::Nothing));
    a.cursor = 4;
    assert_eq!(run_args(&a.handle_key(ctrl('r'))), vec![strs(&["refresh", "-p", "beta"])]);
    assert_eq!(run_args(&a.handle_key(shift('G'))), vec![strs(&["goto", "beta"])]);
    assert_eq!(run_args(&a.handle_key(ch('>'))), vec![strs(&["push"])]);
    assert_eq!(run_args(&a.handle_key(ch('<'))), vec![strs(&["pop"])]);
    assert_eq!(run_args(&a.handle_key(ctrl('z'))), vec![strs(&["undo"])]);
    assert_eq!(run_args(&a.handle_key(ctrl('y'))), vec![strs(&["redo"])]);
    assert_eq!(run_args(&a.handle_key(ch('!'))), vec![strs(&["repair"])]);
    assert_eq!(run_args(&a.handle_key(shift('B'))), vec![strs(&["rebase"])]);
    assert_eq!(run_args(&a.handle_key(shift('D'))), vec![strs(&["delete", "beta"])]);
    let r = a.handle_key(ch('f'));
    assert_eq!(run_args(&r), vec![strs(&["fetch"])]);
    assert_eq!(a.status_msg, "Fetching...");
    assert!(matches!(a.handle_key(ch('g')), Action::Reload { announce: true }));
    assert!(!a.should_quit);
    a.handle_key(ch('q'));
    assert!(a.should_quit);
}

#[test]
fn edit_key_works_in_any_mode_on_a_patch() {
    let mut a = app();
    assert!(matches!(a.handle_key(ch('e')), Action::Nothing));
    a.cursor = 3;
    match a.handle_key(ch('e')) {
        Action::Edit(c) => assert_eq!(c.args, strs(&["edit", "-e", "alpha"])),
        other => panic!("{:?}", other),
    }
    a.handle_key(shift('N'));
    match a.handle_key(ch('e')) {
        Action::Edit(_) => {}
        other => panic!("{:?}", other),
    }
}

#[test]
fn prompt_editing_and_new_patch() {
    let mut a = app();
    a.handle_key(shift('N'));
    match &a.mode {
        AppMode::Input { prompt, value, action } => {
            assert_eq!(prompt, "Patch message: ");
            assert_eq!(value, "");
            assert_eq!(*action, InputAction::NewPatch);
        }
        other => panic!("{:?}", other),
    }
    a.handle_key(ch('h'));
    a.handle_key(shift('I'));
    a.handle_key(ch('x'));
    a.handle_key(key(KeyCode::Backspace));
    match &a.mode {
        AppMode::Input { value, .. } => assert_eq!(value, "hI"),
        other => panic!("{:?}", other),
    }
    let r = a.handle_key(key(KeyCode::Enter));
    assert_eq!(run_args(&r), vec![strs(&["new", "-m", "hI"])]);
    assert!(matches!(a.mode, AppMode::Normal));
    a.handle_key(ch('c'));
    let r = a.handle_key(key(KeyCode::Enter));
    assert_eq!(run_args(&r), vec![strs(&["new", "-m", "New patch"]), strs(&["refresh"])]);
    a.handle_key(ch('c'));
    a.handle_key(key(KeyCode::Backspace));
    assert!(matches!(a.handle_key(key(KeyCode::Esc)), Action::Nothing));
    assert!(matches!(a.mode, AppMode::Normal));
}

#[test]
fn history_size_prompt() {
    let mut a = app();
    a.handle_key(shift('H'));
    match &a.mode {
        AppMode::Input { prompt, .. } => assert_eq!(prompt, "History size [5]: "),
        other => panic!("{:?}", other),
    }
    a.handle_key(ch('1'));
    a.handle_key(ch('2'));
    assert!(matches!(a.handle_key(key(KeyCode::Enter)), Action::Reload { announce: false }));
    assert_eq!(a.history_count, 12);
    a.handle_key(shift('H'));
    a.handle_key(ch('x'));
    assert!(matches!(a.handle_key(key(KeyCode::Enter)), Action::Nothing));
    assert_eq!(a.status_msg, "Invalid number");
    assert_eq!(a.history_count, 12);
}

#[test]
fn push_confirmation() {
    let mut a = app();
    a.handle_key(ch('p'));
    a.handle_key(ch('y'));
    assert_eq!(run_args(&a.handle_key(key(KeyCode::Enter))), vec![strs(&["push"])]);
    a.handle_key(shift('F'));
    a.handle_key(shift('Y'));
    assert_eq!(
        run_args(&a.handle_key(key(KeyCode::Enter))),
        vec![strs(&["push", "--force-with-lease"])]
    );
    a.handle_key(ch('p'));
    a.handle_key(ch('n'));
    assert!(matches!(a.handle_key(key(KeyCode::Enter)), Action::Nothing));
    a.handle_key(ch('p'));
    a.handle_key(ch('y'));
    a.handle_key(ch('y'));
    assert!(matches!(a.handle_key(key(KeyCode::Enter)), Action::Nothing));
}

#[test]
fn expanding_a_patch_reads_its_files_once() {
    let mut a = app();
    a.cursor = 3;
    let r = a.handle_key(key(KeyCode::Enter));
    match r {
        Action::PatchFiles { patch, cmd } => {
            assert_eq!(patch, 0);
            assert_eq!(cmd.args, strs(&["files", "alpha"]));
        }
        other => panic!("{:?}", other),
    }
    a.show_patch_files(0, Ok("M a.rs\nA b.rs\n".to_string()));
    assert_eq!(a.expanded, vec![0]);
    assert_eq!(a.lines[4], LineItem::PatchFile(0, 0));
    assert_eq!(a.lines[5], LineItem::PatchFile(0, 1));
    assert_eq!(a.lines.len(), 13);
    assert!(matches!(a.handle_key(key(KeyCode::Enter)), Action::Nothing));
    assert!(a.expanded.is_empty());
    assert_eq!(a.lines.len(), 11);
    assert!(matches!(a.handle_key(key(KeyCode::Enter)), Action::Nothing));
    assert_eq!(a.expanded, vec![0]);
    assert_eq!(a.lines.len(), 13);
    a.cursor = 5;
    assert_eq!(a.current_patch_index(), Some(0));
    a.cursor = 9;
    a.show_patch_files(2, Err("failed to run stg".to_string()));
    assert_eq!(a.status_msg, "Error: failed to run stg");
    assert_eq!(a.expanded, vec![0]);
}

#[test]
fn enter_twice_on_loaded_patch_restores_lines() {
    let mut a = app();
    a.cursor = 9;
    assert!(matches!(a.handle_key(key(KeyCode::Enter)), Action::PatchFiles { patch: 2, .. }));
    a.show_patch_files(2, Ok("M c.rs\n".to_string()));
    assert!(matches!(a.handle_key(key(KeyCode::Enter)), Action::Nothing));
    let before = a.lines.clone();
    let expanded = a.expanded.clone();
    assert!(matches!(a.handle_key(key(KeyCode::Enter)), Action::Nothing));
    assert_eq!(a.lines[9], LineItem::Patch(2));
    assert_eq!(a.lines[10], LineItem::PatchFile(2, 0));
    assert!(matches!(a.handle_key(key(KeyCode::Enter)), Action::Nothing));
    assert_eq!(a.lines, before);
    assert_eq!(a.expanded, expanded);
    assert_eq!(a.cursor, 9);
}

#[test]
fn diff_view_opens_and_scrolls() {
    let mut a = app();
    a.cursor = 6;
    match a.handle_key(ch('=')) {
        Action::Diff { cmd, title } => {
            assert_eq!(cmd.args, strs(&["diff", "--cached", "--", "staged.rs"]));
            assert_eq!(title, "Index: staged.rs");
        }
        other => panic!("{:?}", other),
    }
    a.cursor = 8;
    match a.handle_key(ch('=')) {
        Action::Diff { title, .. } => assert_eq!(title, "WorkTree: changed.rs"),
        other => panic!("{:?}", other),
    }
    a.cursor = 4;
    match a.handle_key(ch('=')) {
        Action::Diff { cmd, title } => {
            assert_eq!(cmd.args, strs(&["show", "beta"]));
            assert_eq!(title, "Patch: beta");
        }
        other => panic!("{:?}", other),
    }
    a.show_diff(Ok(String::new()), "t".to_string());
    assert_eq!(a.status_msg, "No diff to show");
    let text: String = (0..30).map(|i| format!("line {}\n", i)).collect();
    a.show_diff(Ok(text), "Patch: beta".to_string());
    let scroll = |a: &App| match &a.mode {
        AppMode::DiffView { scroll, .. } => *scroll,
        other => panic!("{:?}", other),
    };
    assert_eq!(scroll(&a), 0);
    a.handle_key(ch('k'));
    assert_eq!(scroll(&a), 0);
    a.handle_key(ch('j'));
    assert_eq!(scroll(&a), 1);
    a.handle_key(key(KeyCode::PageDown));
    assert_eq!(scroll(&a), 21);
    a.handle_key(key(KeyCode::PageDown));
    assert_eq!(scroll(&a), 29);
    a.handle_key(key(KeyCode::Down));
    assert_eq!(scroll(&a), 29);
    a.handle_key(key(KeyCode::PageUp));
    assert_eq!(scroll(&a), 9);
    a.handle_key(key(KeyCode::Home));
    assert_eq!(scroll(&a), 0);
    a.handle_key(key(KeyCode::End));
    assert_eq!(scroll(&a), 29);
    a.handle_key(ch('q'));
    assert!(matches!(a.mode, AppMode::Normal));
    a.cursor = 0;
    assert!(matches!(a.handle_key(ch('=')), Action::Nothing));
}

#[test]
fn branch_list_switches_and_creates() {
    let mut a = app();
    match a.handle_key(ch('b')) {
        Action::Branches(c) => assert_eq!(c.args, strs(&["branch", "--list"])),
        other => panic!("{:?}", other),
    }
    a.show_branches(Ok("> main | x\n  dev\n".to_string()));
    a.handle_key(ch('k'));
    a.handle_key(ch('j'));
    a.handle_key(ch('j'));
    match &a.mode {
        AppMode::BranchList { branches, selected } => {
            assert_eq!(*branches, strs(&["main", "dev"]));
            assert_eq!(*selected, 1);
        }
        other => panic!("{:?}", other),
    }
    assert_eq!(run_args(&a.handle_key(key(KeyCode::Enter))), vec![strs(&["branch", "dev"])]);
    assert!(matches!(a.mode, AppMode::Normal));
    a.show_branches(Ok(String::new()));
    assert!(matches!(a.handle_key(key(KeyCode::Enter)), Action::Nothing));
    a.show_branches(Ok("main\n".to_string()));
    a.handle_key(ch('n'));
    a.handle_key(ch('z'));
    assert_eq!(run_args(&a.handle_key(key(KeyCode::Enter))), vec![strs(&["branch", "--create", "z"])]);
    a.show_branches(Err("no stg".to_string()));
    assert_eq!(a.status_msg, "Error: no stg");
}

#[test]
fn help_opens_and_closes() {
    let mut a = app();
    a.handle_key(ch('?'));
    assert!(matches!(a.mode, AppMode::Help));
    a.handle_key(ch('x'));
    assert!(matches!(a.mode, AppMode::Help));
    a.handle_key(key(KeyCode::Esc));
    assert!(matches!(a.mode, AppMode::Normal));
    a.handle_key(ch('h'));
    a.handle_key(ch('?'));
    assert!(matches!(a.mode, AppMode::Normal));
}

#[test]
fn run_op_reports_outcome() {
    let mut a = app();
    assert!(a.run_op(Ok((true, "Pushed p\nmore\n".to_string(), String::new()))));
    assert_eq!(a.status_msg, "Pushed p");
    assert!(a.run_op(Ok((true, String::new(), String::new()))));
    assert_eq!(a.status_msg, "OK");
    assert!(!a.run_op(Ok((false, String::new(), "error: bad\nhint\n".to_string()))));
    assert_eq!(a.status_msg, "Error: error: bad");
    assert!(!a.run_op(Ok((false, String::new(), String::new()))));
    assert_eq!(a.status_msg, "Error: failed");
    assert!(!a.run_op(Err("failed to run stg".to_string())));
    assert_eq!(a.status_msg, "Error: failed to run stg");
}

#[test]
fn reload_replaces_state_and_keeps_cursor_on_a_line() {
    let mut a = app();
    a.cursor = 3;
    a.handle_key(key(KeyCode::Enter));
    a.show_patch_files(0, Ok("M a.rs\n".to_string()));
    a.handle_key(ch('m'));
    a.cursor = 11;
    let small = load_state(&RawOutputs {
        head: "main".to_string(),
        upstream: None,
        history_log: None,
        series: String::new(),
        index_diff: String::new(),
        worktree_diff: String::new(),
        untracked: String::new(),
        status: String::new(),
    });
    a.reload(Ok(small));
    assert_eq!(a.lines, vec![LineItem::Header, LineItem::IndexHeader, LineItem::WorkTreeHeader, LineItem::Footer]);
    assert_eq!(a.cursor, 3);
    assert!(a.expanded.is_empty());
    assert!(a.patch_files.is_empty());
    assert_eq!(a.marked, vec![0]);
    a.reload(Err("failed to run git".to_string()));
    assert_eq!(a.status_msg, "Error: failed to run git");
    assert_eq!(a.lines.len(), 4);
    a.reload_announced(Ok(state()));
    assert_eq!(a.status_msg, "Reloaded");
    assert_eq!(a.lines.len(), 11);
    assert_eq!(a.cursor, 3);
}
