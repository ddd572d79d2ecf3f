use stg_tui::stgit::{
    base_command, branch_list_command, git_diff, git_fetch, git_push, git_push_force,
    git_resolve, git_revert_index, git_revert_worktree, git_stage, git_unstage, head_command,
    history_log_command, index_diff_command, patch_files_command, series_command, status_command,
    stg_branch_create, stg_branch_switch, stg_commit, stg_delete, stg_diff, stg_edit, stg_float,
    stg_goto, stg_new, stg_pop, stg_pop_current, stg_push, stg_push_one, stg_rebase, stg_redo,
    stg_refresh, stg_repair, stg_sink, stg_squash, stg_uncommit, stg_undo, untracked_command,
    upstream_command, worktree_diff_command, CmdLine, Program,
};

fn args(c: &CmdLine) -> Vec<&str> {
    c.args.iter().map(|s| s.as_str()).collect()
}

fn names(v: &[&str]) -> Vec<String> {
    v.iter().map(|s| s.to_string()).collect()
}

#[test]
fn state_reading_commands() {
    assert_eq!(args(&head_command()), vec!["rev-parse", "--abbrev-ref", "HEAD"]);
    assert_eq!(head_command().program, Program::Git);
    assert_eq!(
        args(&upstream_command()),
        vec!["rev-parse", "--abbrev-ref", "--symbolic-full-name", "@{u}"]
    );
    assert_eq!(args(&base_command()), vec!["id", "{base}"]);
    assert_eq!(base_command().program, Program::Stg);
    assert_eq!(args(&history_log_command(5, "abc")), vec!["log", "--format=%s", "-5", "abc"]);
    assert_eq!(args(&history_log_command(120, "b")), vec!["log", "--format=%s", "-120", "b"]);
    assert_eq!(args(&series_command()), vec!["series", "--all", "--description"]);
    assert_eq!(args(&index_diff_command()), vec!["diff", "--cached", "--name-status"]);
    assert_eq!(args(&worktree_diff_command()), vec!["diff", "--name-status"]);
    assert_eq!(args(&untracked_command()), vec!["ls-files", "--others", "--exclude-standard"]);
    assert_eq!(args(&status_command()), vec!["status", "--porcelain"]);
    assert_eq!(args(&patch_files_command("p1")), vec!["files", "p1"]);
    assert_eq!(args(&branch_list_command()), vec!["branch", "--list"]);
}

#[test]
fn patch_operations() {
    assert_eq!(args(&stg_refresh(None)), vec!["refresh"]);
    assert_eq!(args(&stg_refresh(Some("p"))), vec!["refresh", "-p", "p"]);
    assert_eq!(args(&stg_goto("p")), vec!["goto", "p"]);
    let ps = names(&["a", "b"]);
    assert_eq!(args(&stg_push(&ps)), vec!["push", "a", "b"]);
    assert_eq!(args(&stg_pop(&ps)), vec!["pop", "a", "b"]);
    assert_eq!(args(&stg_pop_current()), vec!["pop"]);
    assert_eq!(args(&stg_push_one()), vec!["push"]);
    assert_eq!(args(&stg_new("msg here")), vec!["new", "-m", "msg here"]);
    assert_eq!(args(&stg_delete(&ps)), vec!["delete", "a", "b"]);
    assert_eq!(args(&stg_squash(&ps)), vec!["squash", "a", "b"]);
    assert_eq!(args(&stg_float(&ps)), vec!["float", "a", "b"]);
    assert_eq!(args(&stg_sink(&ps, Some("t"))), vec!["sink", "-t", "t", "a", "b"]);
    assert_eq!(args(&stg_sink(&ps, None)), vec!["sink", "a", "b"]);
    assert_eq!(args(&stg_undo(false)), vec!["undo"]);
    assert_eq!(args(&stg_undo(true)), vec!["undo", "--hard"]);
    assert_eq!(args(&stg_redo()), vec!["redo"]);
    assert_eq!(args(&stg_repair()), vec!["repair"]);
    assert_eq!(args(&stg_commit(&ps)), vec!["commit", "a", "b"]);
    assert_eq!(args(&stg_uncommit(3)), vec!["uncommit", "-n", "3"]);
    assert_eq!(args(&stg_uncommit(10)), vec!["uncommit", "-n", "10"]);
    assert_eq!(args(&stg_edit("p")), vec!["edit", "-e", "p"]);
    assert_eq!(stg_edit("p").program, Program::Stg);
    assert_eq!(args(&stg_push(&[])), vec!["push"]);
}

#[test]
fn file_and_remote_operations() {
    assert_eq!(args(&git_stage("f")), vec!["add", "f"]);
    assert_eq!(git_stage("f").program, Program::Git);
    assert_eq!(args(&git_unstage("f")), vec!["reset", "HEAD", "f"]);
    assert_eq!(args(&git_revert_worktree("f")), vec!["checkout", "--", "f"]);
    assert_eq!(args(&git_revert_index("f")), vec!["checkout", "HEAD", "--", "f"]);
    assert_eq!(args(&git_diff("f", true)), vec!["diff", "--cached", "--", "f"]);
    assert_eq!(args(&git_diff("f", false)), vec!["diff", "--", "f"]);
    assert_eq!(args(&stg_diff("p")), vec!["show", "p"]);
    assert_eq!(args(&git_resolve("f")), vec!["add", "f"]);
    assert_eq!(args(&stg_branch_switch("b")), vec!["branch", "b"]);
    assert_eq!(args(&stg_branch_create("b")), vec!["branch", "--create", "b"]);
    assert_eq!(args(&git_fetch()), vec!["fetch"]);
    assert_eq!(args(&git_push()), vec!["push"]);
    assert_eq!(args(&git_push_force()), vec!["push", "--force-with-lease"]);
    assert_eq!(args(&stg_rebase(None)), vec!["rebase"]);
    assert_eq!(args(&stg_rebase(Some("origin/main"))), vec!["rebase", "origin/main"]);
}
