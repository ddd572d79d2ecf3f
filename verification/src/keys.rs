//! Key handling: what each key does in each mode, and the outside work
//! (commands to run, output to read, a reload) that it asks for.
use vstd::prelude::*;
use crate::app::{
    App, AppMode, AppView, InputAction, LineItem, ModeView, build_lines, contains_index, in_group,
    item_valid, lemma_index_header_unique, lemma_lines_valid, lemma_without, names_at,
    no_duplicates, reloaded_state, reloaded_view, remove_index, without,
};
use crate::stgit::{
    CmdLine, PatchStatus, Program, StackState, branch_list_command, branch_names_of, file_models,
    get_patch_files, git_diff, git_fetch, git_push, git_push_force, git_resolve, git_revert_index,
    git_revert_worktree, git_stage, git_unstage, is_cmd, patch_files_command, patch_files_of,
    patch_files_ok, patch_models, stg_branch_create, stg_branch_list, stg_branch_switch,
    stg_commit, stg_delete, stg_diff, stg_edit, stg_goto, stg_new, stg_pop, stg_pop_current,
    stg_push, stg_push_one, stg_rebase, stg_redo, stg_refresh, stg_repair, stg_sink, stg_squash,
    stg_uncommit, stg_undo,
};
use crate::text::{
    chars_of, concat_str, decimal, lines, lines_of, parse_usize, parse_usize_str, pop_char,
    push_char, push_decimal, strings_view,
};

verus! {

broadcast use vstd::std_specs::hash::group_hash_axioms;

// ---------------------------------------------------------------------------
// Keys
// ---------------------------------------------------------------------------

/// The keys the interface tells apart.
#[derive(Debug, Clone, Copy, PartialEq, Eq, Structural)]
pub enum KeyCode {
    Char(char),
    Up,
    Down,
    PageUp,
    PageDown,
    Home,
    End,
    Enter,
    Esc,
    Backspace,
    Other,
}

/// The modifier keys held down; `other` stands for super, hyper and meta.
#[derive(Debug, Clone, Copy, PartialEq, Eq, Structural)]
pub struct Modifiers {
    pub shift: bool,
    pub control: bool,
    pub alt: bool,
    pub other: bool,
}

/// A key press.
#[derive(Debug, Clone, Copy, PartialEq, Eq, Structural)]
pub struct Key {
    pub code: KeyCode,
    pub modifiers: Modifiers,
}

pub open spec fn no_mods(m: Modifiers) -> bool {
    !m.shift && !m.control && !m.alt && !m.other
}

pub open spec fn shift_only(m: Modifiers) -> bool {
    m.shift && !m.control && !m.alt && !m.other
}

pub open spec fn control_only(m: Modifiers) -> bool {
    !m.shift && m.control && !m.alt && !m.other
}

/// The commands of normal mode.
#[derive(Debug, Clone, Copy, PartialEq, Eq, Structural)]
pub enum Command {
    Quit,
    Up,
    Down,
    Home,
    End,
    PageUp,
    PageDown,
    Reload,
    Enter,
    ToggleUnknown,
    Mark,
    Unmark,
    Refresh,
    RefreshPatch,
    Goto,
    PushNext,
    PopCurrent,
    PushOrPop,
    Move,
    NewPatch,
    CreatePatch,
    Delete,
    Squash,
    Stage,
    Revert,
    Resolve,
    CommitOrUncommit,
    Undo,
    Redo,
    Repair,
    HistorySize,
    ShowDiff,
    Branches,
    Fetch,
    Push,
    ForcePush,
    Rebase,
    Help,
    Ignore,
}

/// The key map of normal mode.
pub open spec fn command_of(key: Key) -> Command {
    let m = key.modifiers;
    match key.code {
        KeyCode::Char(c) => if c == '>' {
            Command::PushNext
        } else if c == '<' {
            Command::PopCurrent
        } else if no_mods(m) {
            match c {
                'q' => Command::Quit,
                'k' => Command::Up,
                'j' => Command::Down,
                'g' => Command::Reload,
                't' => Command::ToggleUnknown,
                'm' => Command::Mark,
                'u' => Command::Unmark,
                'r' => Command::Refresh,
                'c' => Command::CreatePatch,
                'i' => Command::Stage,
                '!' => Command::Repair,
                '=' => Command::ShowDiff,
                'b' => Command::Branches,
                'f' => Command::Fetch,
                'p' => Command::Push,
                '?' => Command::Help,
                'h' => Command::Help,
                _ => Command::Ignore,
            }
        } else if shift_only(m) {
            match c {
                'G' => Command::Goto,
                '.' => Command::PushNext,
                ',' => Command::PopCurrent,
                'P' => Command::PushOrPop,
                'M' => Command::Move,
                'N' => Command::NewPatch,
                'D' => Command::Delete,
                'S' => Command::Squash,
                'U' => Command::Revert,
                'R' => Command::Resolve,
                'C' => Command::CommitOrUncommit,
                'H' => Command::HistorySize,
                'F' => Command::ForcePush,
                'B' => Command::Rebase,
                _ => Command::Ignore,
            }
        } else if control_only(m) {
            match c {
                'r' => Command::RefreshPatch,
                'z' => Command::Undo,
                'y' => Command::Redo,
                _ => Command::Ignore,
            }
        } else {
            Command::Ignore
        },
        KeyCode::Up => if no_mods(m) {
            Command::Up
        } else {
            Command::Ignore
        },
        KeyCode::Down => if no_mods(m) {
            Command::Down
        } else {
            Command::Ignore
        },
        KeyCode::Home => if no_mods(m) {
            Command::Home
        } else {
            Command::Ignore
        },
        KeyCode::End => if no_mods(m) {
            Command::End
        } else {
            Command::Ignore
        },
        KeyCode::PageUp => if no_mods(m) {
            Command::PageUp
        } else {
            Command::Ignore
        },
        KeyCode::PageDown => if no_mods(m) {
            Command::PageDown
        } else {
            Command::Ignore
        },
        KeyCode::Enter => if no_mods(m) {
            Command::Enter
        } else {
            Command::Ignore
        },
        _ => Command::Ignore,
    }
}

/// The command that a key gives in normal mode.
pub fn command(key: Key) -> (c: Command)
    ensures
        c == command_of(key),
{
    let m = key.modifiers;
    let none = !m.shift && !m.control && !m.alt && !m.other;
    let shift = m.shift && !m.control && !m.alt && !m.other;
    let control = !m.shift && m.control && !m.alt && !m.other;
    match key.code {
        KeyCode::Char(c) => if c == '>' {
            Command::PushNext
        } else if c == '<' {
            Command::PopCurrent
        } else if none {
            match c {
                'q' => Command::Quit,
                'k' => Command::Up,
                'j' => Command::Down,
                'g' => Command::Reload,
                't' => Command::ToggleUnknown,
                'm' => Command::Mark,
                'u' => Command::Unmark,
                'r' => Command::Refresh,
                'c' => Command::CreatePatch,
                'i' => Command::Stage,
                '!' => Command::Repair,
                '=' => Command::ShowDiff,
                'b' => Command::Branches,
                'f' => Command::Fetch,
                'p' => Command::Push,
                '?' => Command::Help,
                'h' => Command::Help,
                _ => Command::Ignore,
            }
        } else if shift {
            match c {
                'G' => Command::Goto,
                '.' => Command::PushNext,
                ',' => Command::PopCurrent,
                'P' => Command::PushOrPop,
                'M' => Command::Move,
                'N' => Command::NewPatch,
                'D' => Command::Delete,
                'S' => Command::Squash,
                'U' => Command::Revert,
                'R' => Command::Resolve,
                'C' => Command::CommitOrUncommit,
                'H' => Command::HistorySize,
                'F' => Command::ForcePush,
                'B' => Command::Rebase,
                _ => Command::Ignore,
            }
        } else if control {
            match c {
                'r' => Command::RefreshPatch,
                'z' => Command::Undo,
                'y' => Command::Redo,
                _ => Command::Ignore,
            }
        } else {
            Command::Ignore
        },
        KeyCode::Up => if none {
            Command::Up
        } else {
            Command::Ignore
        },
        KeyCode::Down => if none {
            Command::Down
        } else {
            Command::Ignore
        },
        KeyCode::Home => if none {
            Command::Home
        } else {
            Command::Ignore
        },
        KeyCode::End => if none {
            Command::End
        } else {
            Command::Ignore
        },
        KeyCode::PageUp => if none {
            Command::PageUp
        } else {
            Command::Ignore
        },
        KeyCode::PageDown => if none {
            Command::PageDown
        } else {
            Command::Ignore
        },
        KeyCode::Enter => if none {
            Command::Enter
        } else {
            Command::Ignore
        },
        _ => Command::Ignore,
    }
}

// ---------------------------------------------------------------------------
// Actions
// ---------------------------------------------------------------------------

/// The outside work that a key asks for. The front end does it and hands the
/// outcome back:
/// - `Run`: runs the commands in turn, passing each outcome to
///   [`App::run_op`], and reloads the state (then [`App::reload`]) whenever
///   that asks for it;
/// - `Edit`: the same for one command, with the terminal handed to the editor;
/// - `Reload`: loads the state for `history_count` commits and passes it to
///   [`App::reload`], or to [`App::reload_announced`] when `announce` is set;
/// - `PatchFiles`, `Diff`, `Branches`: runs the command and passes its output
///   (or why it failed) to [`App::show_patch_files`], [`App::show_diff`] or
///   [`App::show_branches`].
#[derive(Debug)]
pub enum Action {
    Nothing,
    Run(Vec<CmdLine>),
    Edit(CmdLine),
    Reload { announce: bool },
    PatchFiles { patch: usize, cmd: CmdLine },
    Diff { cmd: CmdLine, title: String },
    Branches(CmdLine),
}

/// A command line as a program and its arguments.
pub struct CmdSpec {
    pub program: Program,
    pub args: Seq<Seq<char>>,
}

/// The action runs exactly these command lines, in this order.
pub open spec fn runs(r: Action, cmds: Seq<CmdSpec>) -> bool {
    &&& r matches Action::Run(v)
    &&& v@.len() == cmds.len()
    &&& forall|k: int| 0 <= k < cmds.len() ==> is_cmd(#[trigger] v@[k], cmds[k].program, cmds[k].args)
}

pub open spec fn runs1(r: Action, program: Program, args: Seq<Seq<char>>) -> bool {
    runs(r, seq![CmdSpec { program, args }])
}

// ---------------------------------------------------------------------------
// The effect of a key
// ---------------------------------------------------------------------------

/// The view of `a` with the status line cleared.
pub open spec fn cleared(a: App) -> AppView {
    AppView { status: Seq::<char>::empty(), ..a@ }
}

/// The cursor one line down, unless it is on the last line or past it.
pub open spec fn cursor_down(a: App) -> usize {
    if a.cursor + 1 < a.lines@.len() {
        (a.cursor + 1) as usize
    } else {
        a.cursor
    }
}

/// The index of the last line.
pub open spec fn last_line(a: App) -> usize {
    (a.lines@.len() - 1) as usize
}

pub open spec fn patch_name(a: App, i: usize) -> Seq<char> {
    a.state.patches@[i as int].name@
}

pub open spec fn worktree_path(a: App, i: usize) -> Seq<char> {
    a.state.worktree_files@[i as int].path@
}

pub open spec fn index_path(a: App, i: usize) -> Seq<char> {
    a.state.index_files@[i as int].path@
}

pub open spec fn effective_names(a: App) -> Seq<Seq<char>> {
    names_at(patch_models(a.state.patches@), a.effective())
}

pub open spec fn marked_names(a: App) -> Seq<Seq<char>> {
    names_at(patch_models(a.state.patches@), a.marked@)
}

/// A prompt with an empty answer.
pub open spec fn prompt(text: Seq<char>, action: InputAction) -> ModeView {
    ModeView::Input { prompt: text, value: Seq::<char>::empty(), action }
}

/// The lines of `a` with other expansions or another filter.
pub open spec fn relined(a: App, expanded: Seq<usize>, show_unknown: bool) -> Seq<LineItem> {
    build_lines(a.state, expanded, a.patch_files@, show_unknown)
}

/// Enter: expands or collapses the patch under the cursor; its files are
/// read first when they have not been loaded.
pub open spec fn enter_effect(a: App, b: App, r: Action) -> bool {
    match a.line_at_cursor() {
        LineItem::Patch(i) => if a.expanded@.contains(i) {
            let e = without(a.expanded@, i);
            b@ == AppView { expanded: e, lines: relined(a, e, a.show_unknown), ..cleared(a) }
                && r is Nothing
        } else if a.patch_files@.contains_key(i) {
            let e = a.expanded@.push(i);
            b@ == AppView { expanded: e, lines: relined(a, e, a.show_unknown), ..cleared(a) }
                && r is Nothing
        } else {
            b@ == cleared(a) && (r matches Action::PatchFiles { patch, cmd } && patch == i
                && is_cmd(cmd, Program::Stg, seq!["files"@, patch_name(a, i)]))
        },
        _ => b@ == cleared(a) && r is Nothing,
    }
}

/// `=`: the diff of what is under the cursor, with its title.
pub open spec fn diff_action(a: App, r: Action) -> bool {
    match a.line_at_cursor() {
        LineItem::Patch(i) => r matches Action::Diff { cmd, title } && is_cmd(
            cmd,
            Program::Stg,
            seq!["show"@, patch_name(a, i)],
        ) && title@ == "Patch: "@ + patch_name(a, i),
        LineItem::PatchFile(i, _) => r matches Action::Diff { cmd, title } && is_cmd(
            cmd,
            Program::Stg,
            seq!["show"@, patch_name(a, i)],
        ) && title@ == "Patch: "@ + patch_name(a, i),
        LineItem::IndexFile(i) => r matches Action::Diff { cmd, title } && is_cmd(
            cmd,
            Program::Git,
            seq!["diff"@, "--cached"@, "--"@, index_path(a, i)],
        ) && title@ == "Index: "@ + index_path(a, i),
        LineItem::WorkTreeFile(i) => r matches Action::Diff { cmd, title } && is_cmd(
            cmd,
            Program::Git,
            seq!["diff"@, "--"@, worktree_path(a, i)],
        ) && title@ == "WorkTree: "@ + worktree_path(a, i),
        _ => r is Nothing,
    }
}

/// `P`: pushes the chosen patches when the first is unapplied, else pops them.
pub open spec fn push_or_pop_effect(a: App, b: App, r: Action) -> bool {
    if a.effective().len() == 0 {
        b@ == cleared(a) && r is Nothing
    } else {
        let verb = if a.state.patches@[a.effective()[0] as int].status == PatchStatus::Unapplied {
            "push"@
        } else {
            "pop"@
        };
        b@ == AppView { marked: Seq::empty(), ..cleared(a) } && runs1(
            r,
            Program::Stg,
            seq![verb] + effective_names(a),
        )
    }
}

/// `C`: commits the chosen patches when an applied patch is under the cursor;
/// on a history line, uncommits down to that commit.
pub open spec fn commit_effect(a: App, b: App, r: Action) -> bool {
    match a.line_at_cursor() {
        LineItem::Patch(i) => if in_group(a.state.patches@[i as int].status, true) {
            b@ == AppView { marked: Seq::empty(), ..cleared(a) } && runs1(
                r,
                Program::Stg,
                seq!["commit"@] + effective_names(a),
            )
        } else {
            b@ == cleared(a) && r is Nothing
        },
        LineItem::History(i) => b@ == cleared(a) && runs1(
            r,
            Program::Stg,
            seq!["uncommit"@, "-n"@, decimal((i + 1) as nat)],
        ),
        _ => b@ == cleared(a) && r is Nothing,
    }
}

/// What a key does in normal mode.
pub open spec fn normal_effect(a: App, key: Key, b: App, r: Action) -> bool {
    let last = last_line(a);
    match command_of(key) {
        Command::Quit => b@ == AppView { should_quit: true, ..cleared(a) } && r is Nothing,
        Command::Up => b@ == AppView {
            cursor: if a.cursor > 0 {
                (a.cursor - 1) as usize
            } else {
                a.cursor
            },
            ..cleared(a)
        } && r is Nothing,
        Command::Down => b@ == AppView { cursor: cursor_down(a), ..cleared(a) } && r is Nothing,
        Command::Home => b@ == AppView { cursor: 0, ..cleared(a) } && r is Nothing,
        Command::End => b@ == AppView { cursor: last, ..cleared(a) } && r is Nothing,
        Command::PageUp => b@ == AppView {
            cursor: if a.cursor >= 20 {
                (a.cursor - 20) as usize
            } else {
                0
            },
            ..cleared(a)
        } && r is Nothing,
        Command::PageDown => b@ == AppView {
            cursor: if a.cursor + 20 <= last {
                (a.cursor + 20) as usize
            } else {
                last
            },
            ..cleared(a)
        } && r is Nothing,
        Command::Reload => b@ == cleared(a) && (r matches Action::Reload { announce } && announce),
        Command::Enter => enter_effect(a, b, r),
        Command::ToggleUnknown => b@ == AppView {
            show_unknown: !a.show_unknown,
            lines: relined(a, a.expanded@, !a.show_unknown),
            ..cleared(a)
        } && r is Nothing,
        Command::Mark => r is Nothing && match a.patch_at_cursor() {
            Some(i) => b@ == AppView {
                marked: if a.marked@.contains(i) {
                    a.marked@
                } else {
                    a.marked@.push(i)
                },
                cursor: cursor_down(a),
                ..cleared(a)
            },
            None => b@ == cleared(a),
        },
        Command::Unmark => r is Nothing && match a.patch_at_cursor() {
            Some(i) => b@ == AppView { marked: without(a.marked@, i), ..cleared(a) },
            None => b@ == cleared(a),
        },
        Command::Refresh => b@ == cleared(a) && runs1(r, Program::Stg, seq!["refresh"@]),
        Command::RefreshPatch => b@ == cleared(a) && match a.patch_at_cursor() {
            Some(i) => runs1(r, Program::Stg, seq!["refresh"@, "-p"@, patch_name(a, i)]),
            None => r is Nothing,
        },
        Command::Goto => b@ == cleared(a) && match a.patch_at_cursor() {
            Some(i) => runs1(r, Program::Stg, seq!["goto"@, patch_name(a, i)]),
            None => r is Nothing,
        },
        Command::PushNext => b@ == cleared(a) && runs1(r, Program::Stg, seq!["push"@]),
        Command::PopCurrent => b@ == cleared(a) && runs1(r, Program::Stg, seq!["pop"@]),
        Command::PushOrPop => push_or_pop_effect(a, b, r),
        Command::Move => if a.marked@.len() == 0 {
            b@ == AppView { status: "Mark patches first with 'm'"@, ..a@ } && r is Nothing
        } else {
            b@ == AppView { marked: Seq::empty(), ..cleared(a) } && runs1(
                r,
                Program::Stg,
                match a.patch_at_cursor() {
                    Some(i) => seq!["sink"@, "-t"@, patch_name(a, i)],
                    None => seq!["sink"@],
                } + marked_names(a),
            )
        },
        Command::NewPatch => b@ == AppView {
            mode: prompt("Patch message: "@, InputAction::NewPatch),
            ..cleared(a)
        } && r is Nothing,
        Command::CreatePatch => b@ == AppView {
            mode: prompt("New patch message: "@, InputAction::CreatePatchFromChanges),
            ..cleared(a)
        } && r is Nothing,
        Command::Delete => if a.effective().len() == 0 {
            b@ == cleared(a) && r is Nothing
        } else {
            b@ == AppView { marked: Seq::empty(), ..cleared(a) } && runs1(
                r,
                Program::Stg,
                seq!["delete"@] + effective_names(a),
            )
        },
        Command::Squash => if a.marked@.len() < 2 {
            b@ == AppView { status: "Mark at least 2 patches to squash"@, ..a@ } && r is Nothing
        } else {
            b@ == AppView { marked: Seq::empty(), ..cleared(a) } && runs1(
                r,
                Program::Stg,
                seq!["squash"@] + marked_names(a),
            )
        },
        Command::Stage => b@ == cleared(a) && match a.line_at_cursor() {
            LineItem::WorkTreeFile(i) => runs1(r, Program::Git, seq!["add"@, worktree_path(a, i)]),
            LineItem::IndexFile(i) => runs1(
                r,
                Program::Git,
                seq!["reset"@, "HEAD"@, index_path(a, i)],
            ),
            _ => r is Nothing,
        },
        Command::Revert => b@ == cleared(a) && match a.line_at_cursor() {
            LineItem::WorkTreeFile(i) => runs1(
                r,
                Program::Git,
                seq!["checkout"@, "--"@, worktree_path(a, i)],
            ),
            LineItem::IndexFile(i) => runs1(
                r,
                Program::Git,
                seq!["checkout"@, "HEAD"@, "--"@, index_path(a, i)],
            ),
            _ => r is Nothing,
        },
        Command::Resolve => b@ == cleared(a) && match a.line_at_cursor() {
            LineItem::WorkTreeFile(i) => runs1(r, Program::Git, seq!["add"@, worktree_path(a, i)]),
            _ => r is Nothing,
        },
        Command::CommitOrUncommit => commit_effect(a, b, r),
        Command::Undo => b@ == cleared(a) && runs1(r, Program::Stg, seq!["undo"@]),
        Command::Redo => b@ == cleared(a) && runs1(r, Program::Stg, seq!["redo"@]),
        Command::Repair => b@ == cleared(a) && runs1(r, Program::Stg, seq!["repair"@]),
        Command::HistorySize => b@ == AppView {
            mode: prompt(
                "History size ["@ + decimal(a.history_count as nat) + "]: "@,
                InputAction::HistorySize,
            ),
            ..cleared(a)
        } && r is Nothing,
        Command::ShowDiff => b@ == cleared(a) && diff_action(a, r),
        Command::Branches => b@ == cleared(a) && (r matches Action::Branches(cmd) && is_cmd(
            cmd,
            Program::Stg,
            seq!["branch"@, "--list"@],
        )),
        Command::Fetch => b@ == AppView { status: "Fetching..."@, ..a@ } && runs1(
            r,
            Program::Git,
            seq!["fetch"@],
        ),
        Command::Push => b@ == AppView {
            mode: prompt("Push to remote? (y/n): "@, InputAction::ConfirmPush),
            ..cleared(a)
        } && r is Nothing,
        Command::ForcePush => b@ == AppView {
            mode: prompt("Force push? (y/n): "@, InputAction::ConfirmForcePush),
            ..cleared(a)
        } && r is Nothing,
        Command::Rebase => b@ == cleared(a) && runs1(r, Program::Stg, seq!["rebase"@]),
        Command::Help => b@ == AppView { mode: ModeView::Help, ..cleared(a) } && r is Nothing,
        Command::Ignore => b@ == cleared(a) && r is Nothing,
    }
}

/// What a key does in the help screen: Esc, `q` and `?` close it.
pub open spec fn help_effect(a: App, key: Key, b: App, r: Action) -> bool {
    r is Nothing && if key.code == KeyCode::Esc || key.code == KeyCode::Char('q') || key.code
        == KeyCode::Char('?') {
        b@ == AppView { mode: ModeView::Normal, ..a@ }
    } else {
        b@ == a@
    }
}

/// What a key does in the diff view: close it or scroll it.
pub open spec fn diff_effect(a: App, key: Key, b: App, r: Action) -> bool {
    r is Nothing && match mode_of(a) {
        ModeView::DiffView { lines, scroll, title } => {
            let last = (lines.len() - 1) as usize;
            let s = match key.code {
                KeyCode::Down => if scroll + 1 < lines.len() {
                    (scroll + 1) as usize
                } else {
                    scroll
                },
                KeyCode::Char('j') => if scroll + 1 < lines.len() {
                    (scroll + 1) as usize
                } else {
                    scroll
                },
                KeyCode::Up => if scroll > 0 {
                    (scroll - 1) as usize
                } else {
                    0
                },
                KeyCode::Char('k') => if scroll > 0 {
                    (scroll - 1) as usize
                } else {
                    0
                },
                KeyCode::PageDown => if scroll + 20 <= last {
                    (scroll + 20) as usize
                } else {
                    last
                },
                KeyCode::PageUp => if scroll >= 20 {
                    (scroll - 20) as usize
                } else {
                    0
                },
                KeyCode::Home => 0,
                KeyCode::End => last,
                _ => scroll,
            };
            if key.code == KeyCode::Esc || key.code == KeyCode::Char('q') {
                b@ == AppView { mode: ModeView::Normal, ..a@ }
            } else {
                b@ == AppView { mode: ModeView::DiffView { lines, scroll: s, title }, ..a@ }
            }
        },
        _ => true,
    }
}

pub open spec fn mode_of(a: App) -> ModeView {
    a@.mode
}

/// The message of a new patch: the answer, or "New patch" when it is empty.
pub open spec fn patch_message(value: Seq<char>) -> Seq<char> {
    if value.len() == 0 {
        "New patch"@
    } else {
        value
    }
}

pub open spec fn is_yes(value: Seq<char>) -> bool {
    value == seq!['y'] || value == seq!['Y']
}

/// What submitting an answer does; `b` starts from the state in normal mode.
pub open spec fn submit_effect(
    base: AppView,
    value: Seq<char>,
    action: InputAction,
    b: App,
    r: Action,
) -> bool {
    match action {
        InputAction::NewPatch => b@ == base && runs1(
            r,
            Program::Stg,
            seq!["new"@, "-m"@, patch_message(value)],
        ),
        InputAction::CreatePatchFromChanges => b@ == base && runs(
            r,
            seq![
                CmdSpec { program: Program::Stg, args: seq!["new"@, "-m"@, patch_message(value)] },
                CmdSpec { program: Program::Stg, args: seq!["refresh"@] },
            ],
        ),
        InputAction::HistorySize => match parse_usize(value) {
            Some(n) => b@ == AppView { history_count: n as usize, ..base } && (r matches Action::Reload {
                announce,
            } && !announce),
            None => b@ == AppView { status: "Invalid number"@, ..base } && r is Nothing,
        },
        InputAction::BranchCreate => b@ == base && if value.len() > 0 {
            runs1(r, Program::Stg, seq!["branch"@, "--create"@, value])
        } else {
            r is Nothing
        },
        InputAction::ConfirmPush => b@ == base && if is_yes(value) {
            runs1(r, Program::Git, seq!["push"@])
        } else {
            r is Nothing
        },
        InputAction::ConfirmForcePush => b@ == base && if is_yes(value) {
            runs1(r, Program::Git, seq!["push"@, "--force-with-lease"@])
        } else {
            r is Nothing
        },
    }
}

/// What a key does at a prompt: Esc cancels, Enter submits, Backspace and
/// characters edit the answer.
pub open spec fn input_effect(a: App, key: Key, b: App, r: Action) -> bool {
    match mode_of(a) {
        ModeView::Input { prompt, value, action } => match key.code {
            KeyCode::Esc => b@ == AppView { mode: ModeView::Normal, ..a@ } && r is Nothing,
            KeyCode::Enter => submit_effect(
                AppView { mode: ModeView::Normal, ..a@ },
                value,
                action,
                b,
                r,
            ),
            KeyCode::Backspace => b@ == AppView {
                mode: ModeView::Input {
                    prompt,
                    value: if value.len() > 0 {
                        value.drop_last()
                    } else {
                        value
                    },
                    action,
                },
                ..a@
            } && r is Nothing,
            KeyCode::Char(c) => b@ == AppView {
                mode: ModeView::Input { prompt, value: value.push(c), action },
                ..a@
            } && r is Nothing,
            _ => b@ == a@ && r is Nothing,
        },
        _ => true,
    }
}

/// What a key does in the branch list: move, switch, create, or leave.
pub open spec fn branch_effect(a: App, key: Key, b: App, r: Action) -> bool {
    match mode_of(a) {
        ModeView::BranchList { branches, selected } => match key.code {
            KeyCode::Esc => b@ == AppView { mode: ModeView::Normal, ..a@ } && r is Nothing,
            KeyCode::Char('q') => b@ == AppView { mode: ModeView::Normal, ..a@ } && r is Nothing,
            KeyCode::Up => b@ == AppView {
                mode: ModeView::BranchList {
                    branches,
                    selected: if selected > 0 {
                        (selected - 1) as usize
                    } else {
                        0
                    },
                },
                ..a@
            } && r is Nothing,
            KeyCode::Char('k') => b@ == AppView {
                mode: ModeView::BranchList {
                    branches,
                    selected: if selected > 0 {
                        (selected - 1) as usize
                    } else {
                        0
                    },
                },
                ..a@
            } && r is Nothing,
            KeyCode::Down => b@ == AppView {
                mode: ModeView::BranchList {
                    branches,
                    selected: if selected + 1 < branches.len() {
                        (selected + 1) as usize
                    } else {
                        selected
                    },
                },
                ..a@
            } && r is Nothing,
            KeyCode::Char('j') => b@ == AppView {
                mode: ModeView::BranchList {
                    branches,
                    selected: if selected + 1 < branches.len() {
                        (selected + 1) as usize
                    } else {
                        selected
                    },
                },
                ..a@
            } && r is Nothing,
            KeyCode::Enter => b@ == AppView { mode: ModeView::Normal, ..a@ } && if selected
                < branches.len() {
                runs1(r, Program::Stg, seq!["branch"@, branches[selected as int]])
            } else {
                r is Nothing
            },
            KeyCode::Char('n') => b@ == AppView {
                mode: prompt("New branch name: "@, InputAction::BranchCreate),
                ..a@
            } && r is Nothing,
            _ => b@ == a@ && r is Nothing,
        },
        _ => true,
    }
}

/// `e` with no modifier on a patch edits it, whatever the mode.
pub open spec fn is_edit_key(key: Key) -> bool {
    key.code == KeyCode::Char('e') && no_mods(key.modifiers)
}

/// What a key does.
pub open spec fn key_effect(a: App, key: Key, b: App, r: Action) -> bool {
    if is_edit_key(key) && a.patch_at_cursor() is Some {
        b@ == a@ && (r matches Action::Edit(cmd) && is_cmd(
            cmd,
            Program::Stg,
            seq!["edit"@, "-e"@, patch_name(a, a.patch_at_cursor()->0)],
        ))
    } else {
        match a.mode {
            AppMode::Normal => normal_effect(a, key, b, r),
            AppMode::DiffView { .. } => diff_effect(a, key, b, r),
            AppMode::Input { .. } => input_effect(a, key, b, r),
            AppMode::Help => help_effect(a, key, b, r),
            AppMode::BranchList { .. } => branch_effect(a, key, b, r),
        }
    }
}

/// The keys that do not fail: `P` needs the first chosen patch to exist.
pub open spec fn key_safe(a: App, key: Key) -> bool {
    (a.mode is Normal && command_of(key) == Command::PushOrPop && a.effective().len() > 0) ==> a.effective()[0]
        < a.state.patches@.len()
}


// ---------------------------------------------------------------------------
// Executable key handling
// ---------------------------------------------------------------------------

/// The line under the cursor of a well-formed application names things that exist.
pub proof fn lemma_cursor_valid(a: App)
    requires
        a.wf(),
    ensures
        item_valid(a.line_at_cursor(), a.state, a.patch_files@),
        a.lines@.len() >= 4,
{
    lemma_lines_valid(a.state, a.expanded@, a.patch_files@, a.show_unknown);
    lemma_index_header_unique(a.state, a.expanded@, a.patch_files@, a.show_unknown);
    if a.cursor < a.lines@.len() {
        assert(item_valid(a.lines@[a.cursor as int], a.state, a.patch_files@));
    }
}

fn one(c: CmdLine) -> (r: Action)
    ensures
        r matches Action::Run(v) && v@.len() == 1 && v@[0] == c,
{
    let mut v: Vec<CmdLine> = Vec::new();
    v.push(c);
    Action::Run(v)
}

fn input_mode(text: &str, action: InputAction) -> (m: AppMode)
    ensures
        crate::app::mode_view(m) == prompt(text@, action),
{
    AppMode::Input { prompt: text.to_owned(), value: String::new(), action }
}

/// Whether the answer is "y" or "Y".
fn answer_is_yes(value: &str) -> (b: bool)
    ensures
        b == is_yes(value@),
{
    let v = chars_of(value);
    if v.len() == 1 && (v[0] == 'y' || v[0] == 'Y') {
        assert(v@ =~= seq!['y'] || v@ =~= seq!['Y']);
        true
    } else {
        false
    }
}

impl App {
    /// Handles a key: edits the patch under the cursor on `e`, else does what
    /// the key means in the current mode. The returned action says what
    /// outside work the key asks for.
    pub fn handle_key(&mut self, key: Key) -> (r: Action)
        requires
            old(self).wf(),
            key_safe(*old(self), key),
        ensures
            final(self).wf(),
            final(self).state == old(self).state,
            key_effect(*old(self), key, *final(self), r),
    {
        proof {
            lemma_cursor_valid(*self);
        }
        let none = !key.modifiers.shift && !key.modifiers.control && !key.modifiers.alt
            && !key.modifiers.other;
        if key.code == KeyCode::Char('e') && none {
            if let Some(i) = self.current_patch_index() {
                return Action::Edit(stg_edit(self.state.patches[i].name.as_str()));
            }
        }
        let kind: u8 = match &self.mode {
            AppMode::Normal => 0,
            AppMode::DiffView { .. } => 1,
            AppMode::Input { .. } => 2,
            AppMode::Help => 3,
            AppMode::BranchList { .. } => 4,
        };
        if kind == 0 {
            self.handle_normal_key(key)
        } else if kind == 1 {
            self.handle_diff_key(key)
        } else if kind == 2 {
            self.handle_input_key(key)
        } else if kind == 3 {
            self.handle_help_key(key)
        } else {
            self.handle_branch_list_key(key)
        }
    }

    fn handle_help_key(&mut self, key: Key) -> (r: Action)
        requires
            old(self).wf(),
            old(self).mode is Help,
        ensures
            final(self).wf(),
            final(self).state == old(self).state,
            help_effect(*old(self), key, *final(self), r),
    {
        if key.code == KeyCode::Esc || key.code == KeyCode::Char('q') || key.code == KeyCode::Char(
            '?',
        ) {
            self.mode = AppMode::Normal;
        }
        Action::Nothing
    }

    fn handle_diff_key(&mut self, key: Key) -> (r: Action)
        requires
            old(self).wf(),
            old(self).mode is DiffView,
        ensures
            final(self).wf(),
            final(self).state == old(self).state,
            diff_effect(*old(self), key, *final(self), r),
    {
        let mut mode = AppMode::Normal;
        std::mem::swap(&mut mode, &mut self.mode);
        match mode {
            AppMode::DiffView { lines, scroll, title } => {
                if key.code == KeyCode::Esc || key.code == KeyCode::Char('q') {
                    return Action::Nothing;
                }
                let n = lines.len();
                let last = n - 1;
                let s = match key.code {
                    KeyCode::Down | KeyCode::Char('j') => if scroll < last {
                        scroll + 1
                    } else {
                        scroll
                    },
                    KeyCode::Up | KeyCode::Char('k') => if scroll > 0 {
                        scroll - 1
                    } else {
                        0
                    },
                    KeyCode::PageDown => if last >= 20 && scroll <= last - 20 {
                        scroll + 20
                    } else {
                        last
                    },
                    KeyCode::PageUp => if scroll >= 20 {
                        scroll - 20
                    } else {
                        0
                    },
                    KeyCode::Home => 0,
                    KeyCode::End => last,
                    _ => scroll,
                };
                self.mode = AppMode::DiffView { lines, scroll: s, title };
                Action::Nothing
            },
            other => {
                self.mode = other;
                Action::Nothing
            },
        }
    }

    fn handle_input_key(&mut self, key: Key) -> (r: Action)
        requires
            old(self).wf(),
            old(self).mode is Input,
        ensures
            final(self).wf(),
            final(self).state == old(self).state,
            input_effect(*old(self), key, *final(self), r),
    {
        let mut mode = AppMode::Normal;
        std::mem::swap(&mut mode, &mut self.mode);
        match mode {
            AppMode::Input { prompt, mut value, action } => match key.code {
                KeyCode::Esc => Action::Nothing,
                KeyCode::Enter => self.submit_input(action, value.as_str()),
                KeyCode::Backspace => {
                    pop_char(&mut value);
                    self.mode = AppMode::Input { prompt, value, action };
                    Action::Nothing
                },
                KeyCode::Char(c) => {
                    push_char(&mut value, c);
                    self.mode = AppMode::Input { prompt, value, action };
                    Action::Nothing
                },
                _ => {
                    self.mode = AppMode::Input { prompt, value, action };
                    Action::Nothing
                },
            },
            other => {
                self.mode = other;
                Action::Nothing
            },
        }
    }

    fn submit_input(&mut self, action: InputAction, value: &str) -> (r: Action)
        requires
            old(self).wf(),
            old(self).mode is Normal,
        ensures
            final(self).wf(),
            final(self).state == old(self).state,
            submit_effect(old(self)@, value@, action, *final(self), r),
    {
        let msg: &str = if value.is_empty() {
            "New patch"
        } else {
            value
        };
        match action {
            InputAction::NewPatch => one(stg_new(msg)),
            InputAction::CreatePatchFromChanges => {
                let mut v: Vec<CmdLine> = Vec::new();
                v.push(stg_new(msg));
                v.push(stg_refresh(None));
                Action::Run(v)
            },
            InputAction::HistorySize => match parse_usize_str(value) {
                Some(n) => {
                    self.history_count = n;
                    Action::Reload { announce: false }
                },
                None => {
                    self.status_msg = "Invalid number".to_owned();
                    Action::Nothing
                },
            },
            InputAction::BranchCreate => if !value.is_empty() {
                one(stg_branch_create(value))
            } else {
                Action::Nothing
            },
            InputAction::ConfirmPush => if answer_is_yes(value) {
                one(git_push())
            } else {
                Action::Nothing
            },
            InputAction::ConfirmForcePush => if answer_is_yes(value) {
                one(git_push_force())
            } else {
                Action::Nothing
            },
        }
    }

    fn handle_branch_list_key(&mut self, key: Key) -> (r: Action)
        requires
            old(self).wf(),
            old(self).mode is BranchList,
        ensures
            final(self).wf(),
            final(self).state == old(self).state,
            branch_effect(*old(self), key, *final(self), r),
    {
        let mut mode = AppMode::Normal;
        std::mem::swap(&mut mode, &mut self.mode);
        match mode {
            AppMode::BranchList { branches, selected } => match key.code {
                KeyCode::Esc | KeyCode::Char('q') => Action::Nothing,
                KeyCode::Up | KeyCode::Char('k') => {
                    let s = if selected > 0 {
                        selected - 1
                    } else {
                        0
                    };
                    self.mode = AppMode::BranchList { branches, selected: s };
                    Action::Nothing
                },
                KeyCode::Down | KeyCode::Char('j') => {
                    let n = branches.len();
                    let s = if n > 0 && selected < n - 1 {
                        selected + 1
                    } else {
                        selected
                    };
                    self.mode = AppMode::BranchList { branches, selected: s };
                    Action::Nothing
                },
                KeyCode::Enter => {
                    if selected < branches.len() {
                        assert(strings_view(branches@)[selected as int] == branches@[selected as int]@);
                        one(stg_branch_switch(branches[selected].as_str()))
                    } else {
                        Action::Nothing
                    }
                },
                KeyCode::Char('n') => {
                    self.mode = input_mode("New branch name: ", InputAction::BranchCreate);
                    Action::Nothing
                },
                _ => {
                    self.mode = AppMode::BranchList { branches, selected };
                    Action::Nothing
                },
            },
            other => {
                self.mode = other;
                Action::Nothing
            },
        }
    }
}


impl App {
    fn handle_enter(&mut self) -> (r: Action)
        requires
            old(self).wf(),
            old(self).status_msg@ == Seq::<char>::empty(),
        ensures
            final(self).wf(),
            final(self).state == old(self).state,
            enter_effect(*old(self), *final(self), r),
    {
        proof {
            lemma_cursor_valid(*self);
        }
        match *self.current_line() {
            LineItem::Patch(i) => {
                if contains_index(&self.expanded, i) {
                    proof {
                        lemma_without(self.expanded@, i);
                    }
                    remove_index(&mut self.expanded, i);
                    self.rebuild_lines();
                    Action::Nothing
                } else if self.patch_files.contains_key(&i) {
                    self.expanded.push(i);
                    self.rebuild_lines();
                    Action::Nothing
                } else {
                    Action::PatchFiles {
                        patch: i,
                        cmd: patch_files_command(self.state.patches[i].name.as_str()),
                    }
                }
            },
            _ => Action::Nothing,
        }
    }

    fn open_diff_view(&self) -> (r: Action)
        requires
            self.wf(),
        ensures
            diff_action(*self, r),
    {
        proof {
            lemma_cursor_valid(*self);
        }
        match *self.current_line() {
            LineItem::Patch(i) | LineItem::PatchFile(i, _) => {
                let name = self.state.patches[i].name.as_str();
                Action::Diff { cmd: stg_diff(name), title: concat_str("Patch: ", name) }
            },
            LineItem::IndexFile(i) => {
                let path = self.state.index_files[i].path.as_str();
                Action::Diff { cmd: git_diff(path, true), title: concat_str("Index: ", path) }
            },
            LineItem::WorkTreeFile(i) => {
                let path = self.state.worktree_files[i].path.as_str();
                Action::Diff { cmd: git_diff(path, false), title: concat_str("WorkTree: ", path) }
            },
            _ => Action::Nothing,
        }
    }

    fn handle_commit_uncommit(&mut self) -> (r: Action)
        requires
            old(self).wf(),
            old(self).status_msg@ == Seq::<char>::empty(),
        ensures
            final(self).wf(),
            final(self).state == old(self).state,
            commit_effect(*old(self), *final(self), r),
    {
        proof {
            lemma_cursor_valid(*self);
        }
        match *self.current_line() {
            LineItem::Patch(i) => {
                let st = self.state.patches[i].status;
                if st == PatchStatus::Applied || st == PatchStatus::Current {
                    let indices = self.effective_patches();
                    let names = self.patch_names(indices.as_slice());
                    let c = stg_commit(names.as_slice());
                    self.marked.clear();
                    one(c)
                } else {
                    Action::Nothing
                }
            },
            LineItem::History(i) => {
                let n = self.state.history.len();
                assert(i < n);
                one(stg_uncommit(i + 1))
            },
            _ => Action::Nothing,
        }
    }

    fn move_cursor(&mut self, cmd: Command)
        requires
            old(self).wf(),
        ensures
            final(self).wf(),
            final(self).state == old(self).state,
            final(self)@ == (AppView {
                cursor: match cmd {
                    Command::Up => if old(self).cursor > 0 {
                        (old(self).cursor - 1) as usize
                    } else {
                        old(self).cursor
                    },
                    Command::Down => cursor_down(*old(self)),
                    Command::Home => 0,
                    Command::End => last_line(*old(self)),
                    Command::PageUp => if old(self).cursor >= 20 {
                        (old(self).cursor - 20) as usize
                    } else {
                        0
                    },
                    Command::PageDown => if old(self).cursor + 20 <= last_line(*old(self)) {
                        (old(self).cursor + 20) as usize
                    } else {
                        last_line(*old(self))
                    },
                    _ => old(self).cursor,
                },
                ..old(self)@
            }),
    {
        proof {
            lemma_cursor_valid(*self);
        }
        let n = self.lines.len();
        let last = n - 1;
        match cmd {
            Command::Up => {
                if self.cursor > 0 {
                    self.cursor -= 1;
                }
            },
            Command::Down => {
                if self.cursor < last {
                    self.cursor += 1;
                }
            },
            Command::Home => {
                self.cursor = 0;
            },
            Command::End => {
                self.cursor = last;
            },
            Command::PageUp => {
                self.cursor = if self.cursor >= 20 {
                    self.cursor - 20
                } else {
                    0
                };
            },
            Command::PageDown => {
                self.cursor = if last >= 20 && self.cursor <= last - 20 {
                    self.cursor + 20
                } else {
                    last
                };
            },
            _ => {},
        }
    }

    fn mark_current(&mut self)
        requires
            old(self).wf(),
        ensures
            final(self).wf(),
            final(self).state == old(self).state,
            final(self)@ == (match old(self).patch_at_cursor() {
                Some(i) => AppView {
                    marked: if old(self).marked@.contains(i) {
                        old(self).marked@
                    } else {
                        old(self).marked@.push(i)
                    },
                    cursor: cursor_down(*old(self)),
                    ..old(self)@
                },
                None => old(self)@,
            }),
    {
        proof {
            lemma_cursor_valid(*self);
        }
        if let Some(i) = self.current_patch_index() {
            if !contains_index(&self.marked, i) {
                let ghost before = self.marked@;
                self.marked.push(i);
                assert(no_duplicates(self.marked@)) by {
                    assert forall|p: int, q: int| 0 <= p < q < self.marked@.len() implies self.marked@[p]
                        != self.marked@[q] by {
                        if q == before.len() {
                            assert(before[p] == self.marked@[p]);
                        }
                    }
                }
            }
            let last = self.lines.len() - 1;
            if self.cursor < last {
                self.cursor += 1;
            }
        }
    }

    #[verifier::spinoff_prover]
    #[verifier::rlimit(60)]
    fn handle_normal_key(&mut self, key: Key) -> (r: Action)
        requires
            old(self).wf(),
            old(self).mode is Normal,
            key_safe(*old(self), key),
        ensures
            final(self).wf(),
            final(self).state == old(self).state,
            normal_effect(*old(self), key, *final(self), r),
    {
        self.status_msg = String::new();
        proof {
            lemma_cursor_valid(*self);
        }
        let cmd = command(key);
        match cmd {
            Command::Quit => {
                self.should_quit = true;
                Action::Nothing
            },
            Command::Up | Command::Down | Command::Home | Command::End | Command::PageUp
            | Command::PageDown => {
                self.move_cursor(cmd);
                Action::Nothing
            },
            Command::Reload => Action::Reload { announce: true },
            Command::Enter => self.handle_enter(),
            Command::ToggleUnknown => {
                self.show_unknown = !self.show_unknown;
                self.rebuild_lines();
                Action::Nothing
            },
            Command::Mark => {
                self.mark_current();
                Action::Nothing
            },
            Command::Unmark => {
                if let Some(i) = self.current_patch_index() {
                    proof {
                        lemma_without(self.marked@, i);
                    }
                    remove_index(&mut self.marked, i);
                }
                Action::Nothing
            },
            Command::Refresh => one(stg_refresh(None)),
            Command::RefreshPatch => match self.current_patch_index() {
                Some(i) => one(stg_refresh(Some(self.state.patches[i].name.as_str()))),
                None => Action::Nothing,
            },
            Command::Goto => match self.current_patch_index() {
                Some(i) => one(stg_goto(self.state.patches[i].name.as_str())),
                None => Action::Nothing,
            },
            Command::PushNext => one(stg_push_one()),
            Command::PopCurrent => one(stg_pop_current()),
            Command::PushOrPop => {
                let indices = self.effective_patches();
                if indices.len() == 0 {
                    return Action::Nothing;
                }
                let names = self.patch_names(indices.as_slice());
                let first = self.state.patches[indices[0]].status;
                let c = if first == PatchStatus::Unapplied {
                    stg_push(names.as_slice())
                } else {
                    stg_pop(names.as_slice())
                };
                self.marked.clear();
                one(c)
            },
            Command::Move => {
                if self.marked.len() == 0 {
                    self.status_msg = "Mark patches first with 'm'".to_owned();
                    return Action::Nothing;
                }
                let marked = self.marked.clone();
                let names = self.patch_names(marked.as_slice());
                let c = match self.current_patch_index() {
                    Some(i) => stg_sink(names.as_slice(), Some(self.state.patches[i].name.as_str())),
                    None => stg_sink(names.as_slice(), None),
                };
                self.marked.clear();
                one(c)
            },
            Command::NewPatch => {
                self.mode = input_mode("Patch message: ", InputAction::NewPatch);
                Action::Nothing
            },
            Command::CreatePatch => {
                self.mode = input_mode("New patch message: ", InputAction::CreatePatchFromChanges);
                Action::Nothing
            },
            Command::Delete => {
                let indices = self.effective_patches();
                if indices.len() == 0 {
                    return Action::Nothing;
                }
                let names = self.patch_names(indices.as_slice());
                let c = stg_delete(names.as_slice());
                self.marked.clear();
                one(c)
            },
            Command::Squash => {
                if self.marked.len() < 2 {
                    self.status_msg = "Mark at least 2 patches to squash".to_owned();
                    return Action::Nothing;
                }
                let marked = self.marked.clone();
                let names = self.patch_names(marked.as_slice());
                let c = stg_squash(names.as_slice());
                self.marked.clear();
                one(c)
            },
            Command::Stage => match *self.current_line() {
                LineItem::WorkTreeFile(i) => one(git_stage(self.state.worktree_files[i].path.as_str())),
                LineItem::IndexFile(i) => one(git_unstage(self.state.index_files[i].path.as_str())),
                _ => Action::Nothing,
            },
            Command::Revert => match *self.current_line() {
                LineItem::WorkTreeFile(i) => one(
                    git_revert_worktree(self.state.worktree_files[i].path.as_str()),
                ),
                LineItem::IndexFile(i) => one(git_revert_index(self.state.index_files[i].path.as_str())),
                _ => Action::Nothing,
            },
            Command::Resolve => match *self.current_line() {
                LineItem::WorkTreeFile(i) => one(git_resolve(self.state.worktree_files[i].path.as_str())),
                _ => Action::Nothing,
            },
            Command::CommitOrUncommit => self.handle_commit_uncommit(),
            Command::Undo => one(stg_undo(false)),
            Command::Redo => one(stg_redo()),
            Command::Repair => one(stg_repair()),
            Command::HistorySize => {
                let mut text = "History size [".to_owned();
                push_decimal(&mut text, self.history_count);
                let text = concat_str(text.as_str(), "]: ");
                self.mode = input_mode(text.as_str(), InputAction::HistorySize);
                Action::Nothing
            },
            Command::ShowDiff => self.open_diff_view(),
            Command::Branches => Action::Branches(branch_list_command()),
            Command::Fetch => {
                self.status_msg = "Fetching...".to_owned();
                one(git_fetch())
            },
            Command::Push => {
                self.mode = input_mode("Push to remote? (y/n): ", InputAction::ConfirmPush);
                Action::Nothing
            },
            Command::ForcePush => {
                self.mode = input_mode("Force push? (y/n): ", InputAction::ConfirmForcePush);
                Action::Nothing
            },
            Command::Rebase => one(stg_rebase(None)),
            Command::Help => {
                self.mode = AppMode::Help;
                Action::Nothing
            },
            Command::Ignore => Action::Nothing,
        }
    }
}


impl App {
    /// Takes in the output of `stg files` for patch `patch` (or why it could
    /// not be read): the files are kept, the patch is expanded and the lines
    /// are rebuilt; a failure is reported in the status line.
    pub fn show_patch_files(&mut self, patch: usize, outcome: Result<String, String>)
        requires
            old(self).wf(),
            outcome matches Ok(o) ==> patch_files_ok(o@),
        ensures
            final(self).wf(),
            final(self).state == old(self).state,
            match outcome {
                Ok(o) => {
                    &&& final(self).patch_files@.dom() == old(self).patch_files@.dom().insert(patch)
                    &&& forall|k: usize|
                        k != patch && #[trigger] old(self).patch_files@.contains_key(k)
                            ==> final(self).patch_files@[k] == old(self).patch_files@[k]
                    &&& file_models(final(self).patch_files@[patch]@) == patch_files_of(lines(o@))
                    &&& final(self)@ == (AppView {
                        files: final(self).patch_files@,
                        expanded: old(self).expanded@.push(patch),
                        lines: build_lines(
                            old(self).state,
                            old(self).expanded@.push(patch),
                            final(self).patch_files@,
                            old(self).show_unknown,
                        ),
                        ..old(self)@
                    })
                },
                Err(e) => final(self)@ == (AppView { status: "Error: "@ + e@, ..old(self)@ }),
            },
    {
        match outcome {
            Ok(o) => {
                let files = get_patch_files(o.as_str());
                self.patch_files.insert(patch, files);
                self.expanded.push(patch);
                self.rebuild_lines();
            },
            Err(e) => {
                self.status_msg = concat_str("Error: ", e.as_str());
            },
        }
    }

    /// Takes in a diff and its title (or why it could not be read): a diff
    /// with lines opens the diff view at its top, an empty one is reported.
    pub fn show_diff(&mut self, outcome: Result<String, String>, title: String)
        requires
            old(self).wf(),
        ensures
            final(self).wf(),
            final(self).state == old(self).state,
            final(self)@ == (match outcome {
                Ok(d) => if lines(d@).len() == 0 {
                    AppView { status: "No diff to show"@, ..old(self)@ }
                } else {
                    AppView {
                        mode: ModeView::DiffView { lines: lines(d@), scroll: 0, title: title@ },
                        ..old(self)@
                    }
                },
                Err(e) => AppView { status: "Error: "@ + e@, ..old(self)@ },
            }),
    {
        match outcome {
            Ok(d) => {
                let ls = lines_of(d.as_str());
                if ls.len() == 0 {
                    self.status_msg = "No diff to show".to_owned();
                } else {
                    self.mode = AppMode::DiffView { lines: ls, scroll: 0, title };
                }
            },
            Err(e) => {
                self.status_msg = concat_str("Error: ", e.as_str());
            },
        }
    }

    /// Takes in the output of `stg branch --list` (or why it could not be
    /// read): the branch list opens with the first branch selected.
    pub fn show_branches(&mut self, outcome: Result<String, String>)
        requires
            old(self).wf(),
        ensures
            final(self).wf(),
            final(self).state == old(self).state,
            final(self)@ == (match outcome {
                Ok(o) => AppView {
                    mode: ModeView::BranchList {
                        branches: branch_names_of(lines(o@)),
                        selected: 0,
                    },
                    ..old(self)@
                },
                Err(e) => AppView { status: "Error: "@ + e@, ..old(self)@ },
            }),
    {
        match outcome {
            Ok(o) => {
                let branches = stg_branch_list(o.as_str());
                self.mode = AppMode::BranchList { branches, selected: 0 };
            },
            Err(e) => {
                self.status_msg = concat_str("Error: ", e.as_str());
            },
        }
    }

    /// A reload asked for by the user: as [`App::reload`], then the status
    /// line says "Reloaded" whether or not the state could be loaded.
    pub fn reload_announced(&mut self, loaded: Result<StackState, String>)
        requires
            old(self).wf(),
        ensures
            final(self).wf(),
            final(self).state == reloaded_state(*old(self), loaded),
            final(self)@ == (AppView { status: "Reloaded"@, ..reloaded_view(*old(self), loaded) }),
    {
        self.reload(loaded);
        self.status_msg = "Reloaded".to_owned();
    }
}

} // verus!
