use stg_tui::app::{App, LineItem};
use stg_tui::stgit::{load_state, FileStatus, RawOutputs};
use stg_tui::ui::{
    branch_entry, diff_line_style, file_status_style, pad_label, render_line, scroll_offset,
    Color, SpanStyle, StyledLine,
};

fn app() -> App {
    App::new(load_state(&RawOutputs {
        head: "main\n".to_string(),
        upstream: Some("origin/main".to_string()),
        history_log: Some("second\n".to_string()),
        series: "+0 alpha # one\n> beta\n- gamma\n".to_string(),
        index_diff: "A\tstaged.rs\n".to_string(),
        worktree_diff: "M\tchanged.rs\n".to_string(),
        untracked: String::new(),
        status: String::new(),
    }))
}

fn texts(l: &StyledLine) -> Vec<&str> {
    l.spans.iter().map(|s| s.text.as_str()).collect()
}

fn st(fg: Option<Color>, bold: bool) -> SpanStyle {
    SpanStyle { fg, bg: None, bold }
}

#[test]
fn header_and_history_lines() {
    let a = app();
    let l = render_line(&a, &LineItem::Header, false);
    assert_eq!(texts(&l), vec!["Branch: ", "main", " <-> ", "origin/main"]);
    assert_eq!(l.spans[1].style, st(Some(Color::Cyan), true));
    assert!(!l.highlighted);
    let l = render_line(&a, &LineItem::History(0), true);
    assert_eq!(texts(&l), vec!["  ", "second"]);
    assert!(l.highlighted);
    let l = render_line(&a, &LineItem::History(9), false);
    assert_eq!(texts(&l), vec!["  ", ""]);
}

#[test]
fn patch_lines_show_flags_and_description() {
    let mut a = app();
    a.marked.push(1);
    let l = render_line(&a, &LineItem::Patch(0), false);
    assert_eq!(texts(&l), vec!["+ 0", "alpha", "  # one"]);
    assert_eq!(l.spans[0].style, st(Some(Color::Green), false));
    assert_eq!(l.spans[2].style, st(Some(Color::DarkGray), false));
    let l = render_line(&a, &LineItem::Patch(1), false);
    assert_eq!(texts(&l), vec![">* ", "beta"]);
    assert_eq!(l.spans[1].style, st(Some(Color::White), true));
    let l = render_line(&a, &LineItem::Patch(2), false);
    assert_eq!(texts(&l), vec!["-  ", "gamma"]);
    assert_eq!(l.spans[0].style, st(Some(Color::Red), false));
}

#[test]
fn file_lines_pad_labels() {
    let a = app();
    let l = render_line(&a, &LineItem::IndexFile(0), false);
    assert_eq!(texts(&l), vec!["    ", "Added       ", "staged.rs"]);
    assert_eq!(l.spans[1].style, st(Some(Color::Green), false));
    let l = render_line(&a, &LineItem::WorkTreeFile(0), false);
    assert_eq!(texts(&l), vec!["    ", "Modified    ", "changed.rs"]);
    let l = render_line(&a, &LineItem::PatchFile(0, 0), false);
    assert!(l.spans.is_empty());
    assert_eq!(texts(&render_line(&a, &LineItem::IndexHeader, false)), vec!["  Index"]);
    assert_eq!(texts(&render_line(&a, &LineItem::WorkTreeHeader, false)), vec!["  Work Tree"]);
    assert_eq!(texts(&render_line(&a, &LineItem::Footer, false)), vec!["--"]);
}

#[test]
fn expanded_patch_file_line() {
    let mut a = app();
    a.show_patch_files(0, Ok("D gone.rs\n".to_string()));
    let l = render_line(&a, &LineItem::PatchFile(0, 0), false);
    assert_eq!(texts(&l), vec!["      ", "Deleted     ", "gone.rs"]);
    assert_eq!(l.spans[1].style, st(Some(Color::Red), false));
}

#[test]
fn padding_and_status_styles() {
    assert_eq!(pad_label("Unresolved"), "Unresolved  ");
    assert_eq!(pad_label("exactly12chr"), "exactly12chr");
    assert_eq!(pad_label("longer than twelve"), "longer than twelve");
    assert_eq!(file_status_style(&FileStatus::Unresolved), st(Some(Color::Magenta), true));
    assert_eq!(file_status_style(&FileStatus::Untracked), st(Some(Color::DarkGray), false));
    assert_eq!(file_status_style(&FileStatus::Renamed), st(Some(Color::Cyan), false));
    assert_eq!(file_status_style(&FileStatus::Modified), st(Some(Color::Yellow), false));
}

#[test]
fn diff_line_colors() {
    assert_eq!(diff_line_style("+added"), st(Some(Color::Green), false));
    assert_eq!(diff_line_style("+++ b/file"), st(Some(Color::White), true));
    assert_eq!(diff_line_style("-gone"), st(Some(Color::Red), false));
    assert_eq!(diff_line_style("--- a/file"), st(Some(Color::White), true));
    assert_eq!(diff_line_style("@@ -1 +1 @@"), st(Some(Color::Cyan), false));
    assert_eq!(diff_line_style("diff --git a b"), st(Some(Color::White), true));
    assert_eq!(diff_line_style("diff"), st(None, false));
    assert_eq!(diff_line_style(" context"), st(None, false));
    assert_eq!(diff_line_style(""), st(None, false));
}

#[test]
fn scrolling_keeps_cursor_visible() {
    assert_eq!(scroll_offset(5, 10), 0);
    assert_eq!(scroll_offset(10, 10), 1);
    assert_eq!(scroll_offset(25, 10), 16);
    assert_eq!(scroll_offset(3, 0), 4);
}

#[test]
fn branch_entries() {
    let s = branch_entry("main", true);
    assert_eq!(s.text, "  > main");
    assert_eq!(s.style, SpanStyle { fg: Some(Color::White), bg: Some(Color::Selection), bold: true });
    let s = branch_entry("dev", false);
    assert_eq!(s.text, "    dev");
    assert_eq!(s.style, st(Some(Color::White), false));
}
