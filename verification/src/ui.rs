//! What the screen shows: the text and style of each line, the colors of
//! diff lines and file states, and how far the list scrolls.
use vstd::prelude::*;
use crate::app::{App, LineItem};
use crate::stgit::{FileStatus, PatchStatus, label_of};
use crate::text::{chars_of, concat_str, push_char};

verus! {

/// The colors the interface uses; `Selection` is the dark blue of the
/// selected line.
#[derive(Debug, Clone, Copy, PartialEq, Eq, Structural)]
pub enum Color {
    Yellow,
    Green,
    Red,
    Cyan,
    White,
    DarkGray,
    Magenta,
    Selection,
}

/// Foreground, background and weight of a piece of text.
#[derive(Debug, Clone, Copy, PartialEq, Eq, Structural)]
pub struct SpanStyle {
    pub fg: Option<Color>,
    pub bg: Option<Color>,
    pub bold: bool,
}

/// A piece of text in one style.
#[derive(Debug)]
pub struct StyledSpan {
    pub text: String,
    pub style: SpanStyle,
}

/// A line of pieces; a highlighted line is drawn on the selection color.
#[derive(Debug)]
pub struct StyledLine {
    pub spans: Vec<StyledSpan>,
    pub highlighted: bool,
}

/// The mathematical content of a [`StyledSpan`].
pub struct SpanModel {
    pub text: Seq<char>,
    pub style: SpanStyle,
}

pub open spec fn span_models(v: Seq<StyledSpan>) -> Seq<SpanModel> {
    v.map_values(|s: StyledSpan| SpanModel { text: s.text@, style: s.style })
}

pub open spec fn plain() -> SpanStyle {
    SpanStyle { fg: None, bg: None, bold: false }
}

pub open spec fn fg(c: Color) -> SpanStyle {
    SpanStyle { fg: Some(c), bg: None, bold: false }
}

pub open spec fn fg_bold(c: Color) -> SpanStyle {
    SpanStyle { fg: Some(c), bg: None, bold: true }
}

/// The style of a file state's label.
pub open spec fn status_style(s: FileStatus) -> SpanStyle {
    match s {
        FileStatus::Modified => fg(Color::Yellow),
        FileStatus::Added => fg(Color::Green),
        FileStatus::Deleted => fg(Color::Red),
        FileStatus::Renamed => fg(Color::Cyan),
        FileStatus::Copied => fg(Color::Cyan),
        FileStatus::Untracked => fg(Color::DarkGray),
        FileStatus::Unresolved => fg_bold(Color::Magenta),
    }
}

fn style(fg: Option<Color>, bold: bool) -> (s: SpanStyle)
    ensures
        s == (SpanStyle { fg, bg: None, bold }),
{
    SpanStyle { fg, bg: None, bold }
}

/// The style of a file state's label.
pub fn file_status_style(status: &FileStatus) -> (s: SpanStyle)
    ensures
        s == status_style(*status),
{
    match status {
        FileStatus::Modified => style(Some(Color::Yellow), false),
        FileStatus::Added => style(Some(Color::Green), false),
        FileStatus::Deleted => style(Some(Color::Red), false),
        FileStatus::Renamed => style(Some(Color::Cyan), false),
        FileStatus::Copied => style(Some(Color::Cyan), false),
        FileStatus::Untracked => style(Some(Color::DarkGray), false),
        FileStatus::Unresolved => style(Some(Color::Magenta), true),
    }
}

/// `n` spaces.
pub open spec fn spaces(n: nat) -> Seq<char> {
    Seq::new(n, |i: int| ' ')
}

/// `s` padded with spaces to 12 characters (`format!("{:<12}", s)`).
pub open spec fn pad12(s: Seq<char>) -> Seq<char> {
    if s.len() < 12 {
        s + spaces((12 - s.len()) as nat)
    } else {
        s
    }
}

/// `s` padded with spaces to 12 characters.
pub fn pad_label(s: &str) -> (r: String)
    ensures
        r@ == pad12(s@),
{
    let n = chars_of(s).len();
    let mut r = s.to_owned();
    let mut k = n;
    while k < 12
        invariant
            n == s@.len(),
            n <= k <= 12 || (k == n && n >= 12),
            r@ == s@ + spaces((k - n) as nat),
        decreases 12 - k,
    {
        push_char(&mut r, ' ');
        assert(r@ =~= s@ + spaces((k + 1 - n) as nat));
        k += 1;
    }
    assert(n < 12 ==> k == 12);
    assert(n >= 12 ==> r@ =~= s@);
    r
}

/// Whether `s` begins with `p`.
pub open spec fn has_prefix(s: Seq<char>, p: Seq<char>) -> bool {
    p.len() <= s.len() && s.take(p.len() as int) == p
}

/// The style of a line of a diff: additions green, removals red, hunk
/// headers cyan, file headers bold white.
pub open spec fn diff_style(l: Seq<char>) -> SpanStyle {
    if has_prefix(l, seq!['+']) && !has_prefix(l, seq!['+', '+', '+']) {
        fg(Color::Green)
    } else if has_prefix(l, seq!['-']) && !has_prefix(l, seq!['-', '-', '-']) {
        fg(Color::Red)
    } else if has_prefix(l, seq!['@', '@']) {
        fg(Color::Cyan)
    } else if has_prefix(l, seq!['d', 'i', 'f', 'f', ' ']) || has_prefix(l, seq!['-', '-', '-'])
        || has_prefix(l, seq!['+', '+', '+']) {
        fg_bold(Color::White)
    } else {
        plain()
    }
}

fn starts_with(v: &Vec<char>, p: &Vec<char>) -> (b: bool)
    ensures
        b == has_prefix(v@, p@),
{
    if p.len() > v.len() {
        return false;
    }
    let mut i: usize = 0;
    while i < p.len()
        invariant
            p@.len() <= v@.len(),
            i <= p@.len(),
            forall|k: int| 0 <= k < i ==> v@[k] == p@[k],
        decreases p@.len() - i,
    {
        if v[i] != p[i] {
            assert(v@.take(p@.len() as int)[i as int] != p@[i as int]);
            return false;
        }
        i += 1;
    }
    assert(v@.take(p@.len() as int) =~= p@);
    true
}

/// The style of a line of a diff.
pub fn diff_line_style(line: &str) -> (s: SpanStyle)
    ensures
        s == diff_style(line@),
{
    let v = chars_of(line);
    let plus = vec!['+'];
    let plus3 = vec!['+', '+', '+'];
    let minus = vec!['-'];
    let minus3 = vec!['-', '-', '-'];
    let at2 = vec!['@', '@'];
    let diff = vec!['d', 'i', 'f', 'f', ' '];
    assert(plus@ =~= seq!['+']);
    assert(plus3@ =~= seq!['+', '+', '+']);
    assert(minus@ =~= seq!['-']);
    assert(minus3@ =~= seq!['-', '-', '-']);
    assert(at2@ =~= seq!['@', '@']);
    assert(diff@ =~= seq!['d', 'i', 'f', 'f', ' ']);
    if starts_with(&v, &plus) && !starts_with(&v, &plus3) {
        style(Some(Color::Green), false)
    } else if starts_with(&v, &minus) && !starts_with(&v, &minus3) {
        style(Some(Color::Red), false)
    } else if starts_with(&v, &at2) {
        style(Some(Color::Cyan), false)
    } else if starts_with(&v, &diff) || starts_with(&v, &minus3) || starts_with(&v, &plus3) {
        style(Some(Color::White), true)
    } else {
        style(None, false)
    }
}

/// How many lines the list scrolls so that the cursor stays in a window of
/// `height` lines.
pub fn scroll_offset(cursor: usize, height: usize) -> (r: usize)
    requires
        height > 0 || cursor < usize::MAX,
    ensures
        r == (if cursor >= height {
            cursor - height + 1
        } else {
            0
        }),
{
    if cursor >= height {
        if height == 0 {
            cursor + 1
        } else {
            cursor - (height - 1)
        }
    } else {
        0
    }
}

/// A branch of the branch list, marked and highlighted when selected.
pub fn branch_entry(branch: &str, is_selected: bool) -> (s: StyledSpan)
    ensures
        s.text@ == (if is_selected {
            "  > "@
        } else {
            "    "@
        }) + branch@,
        s.style == (if is_selected {
            SpanStyle { fg: Some(Color::White), bg: Some(Color::Selection), bold: true }
        } else {
            fg(Color::White)
        }),
{
    if is_selected {
        StyledSpan {
            text: concat_str("  > ", branch),
            style: SpanStyle { fg: Some(Color::White), bg: Some(Color::Selection), bold: true },
        }
    } else {
        StyledSpan { text: concat_str("    ", branch), style: style(Some(Color::White), false) }
    }
}

// ---------------------------------------------------------------------------
// The lines of the main list
// ---------------------------------------------------------------------------

pub open spec fn span(text: Seq<char>, style: SpanStyle) -> SpanModel {
    SpanModel { text, style }
}

/// The three spans of a file line: indentation, padded label, path.
pub open spec fn file_spans(indent: Seq<char>, status: FileStatus, path: Seq<char>) -> Seq<
    SpanModel,
> {
    seq![
        span(indent, plain()),
        span(pad12(label_of(status)), status_style(status)),
        span(path, fg(Color::White)),
    ]
}

/// The color of a patch line.
pub open spec fn patch_color(s: PatchStatus) -> Color {
    match s {
        PatchStatus::Current => Color::White,
        PatchStatus::Applied => Color::Green,
        PatchStatus::Unapplied => Color::Red,
    }
}

pub open spec fn status_sign(s: PatchStatus) -> Seq<char> {
    match s {
        PatchStatus::Current => ">"@,
        PatchStatus::Applied => "+"@,
        PatchStatus::Unapplied => "-"@,
    }
}

/// The spans that a line item shows.
pub open spec fn line_spans(app: App, item: LineItem) -> Seq<SpanModel> {
    match item {
        LineItem::Header => {
            let b = app.state.branch;
            let head = seq![span("Branch: "@, fg_bold(Color::White)), span(b.name@, fg_bold(Color::Cyan))];
            match b.upstream {
                Some(u) => head + seq![span(" <-> "@, fg(Color::DarkGray)), span(u@, fg(Color::Cyan))],
                None => head,
            }
        },
        LineItem::History(i) => seq![
            span("  "@, plain()),
            span(
                if i < app.state.history@.len() {
                    app.state.history@[i as int]@
                } else {
                    Seq::empty()
                },
                fg(Color::DarkGray),
            ),
        ],
        LineItem::Patch(i) => {
            let p = app.state.patches@[i as int];
            let st = if p.status == PatchStatus::Current {
                fg_bold(patch_color(p.status))
            } else {
                fg(patch_color(p.status))
            };
            let flags = status_sign(p.status) + (if app.marked@.contains(i) {
                "*"@
            } else {
                " "@
            }) + (if p.empty {
                "0"@
            } else {
                " "@
            });
            let main = seq![span(flags, st), span(p.name@, st)];
            if p.description@.len() > 0 {
                main.push(span("  # "@ + p.description@, fg(Color::DarkGray)))
            } else {
                main
            }
        },
        LineItem::PatchFile(pi, fi) => if app.patch_files@.contains_key(pi) && fi
            < app.patch_files@[pi]@.len() {
            let f = app.patch_files@[pi]@[fi as int];
            file_spans("      "@, f.status, f.path@)
        } else {
            Seq::empty()
        },
        LineItem::IndexHeader => seq![span("  Index"@, fg_bold(Color::Yellow))],
        LineItem::IndexFile(i) => {
            let f = app.state.index_files@[i as int];
            file_spans("    "@, f.status, f.path@)
        },
        LineItem::WorkTreeHeader => seq![span("  Work Tree"@, fg_bold(Color::Yellow))],
        LineItem::WorkTreeFile(i) => {
            let f = app.state.worktree_files@[i as int];
            file_spans("    "@, f.status, f.path@)
        },
        LineItem::Footer => seq![span("--"@, fg(Color::DarkGray))],
    }
}

/// The items that can be drawn: those that index the stack name what exists.
pub open spec fn drawable(app: App, item: LineItem) -> bool {
    match item {
        LineItem::Patch(i) => i < app.state.patches@.len(),
        LineItem::IndexFile(i) => i < app.state.index_files@.len(),
        LineItem::WorkTreeFile(i) => i < app.state.worktree_files@.len(),
        _ => true,
    }
}

fn push_span(v: &mut Vec<StyledSpan>, text: String, style: SpanStyle)
    ensures
        span_models(final(v)@) == span_models(old(v)@).push(span(text@, style)),
{
    let ghost t = text@;
    v.push(StyledSpan { text, style });
    assert(span_models(final(v)@) =~= span_models(old(v)@).push(span(t, style)));
}

fn push_file_spans(v: &mut Vec<StyledSpan>, indent: &str, status: FileStatus, path: &String)
    ensures
        span_models(final(v)@) == span_models(old(v)@) + file_spans(indent@, status, path@),
{
    let ghost start = span_models(v@);
    push_span(v, indent.to_owned(), style(None, false));
    push_span(v, pad_label(status.label()), file_status_style(&status));
    push_span(v, path.clone(), style(Some(Color::White), false));
    assert(span_models(v@) =~= start + file_spans(indent@, status, path@));
}

/// The text and styles of a line of the main list.
pub fn render_line(app: &App, item: &LineItem, is_cursor: bool) -> (l: StyledLine)
    requires
        drawable(*app, *item),
    ensures
        span_models(l.spans@) == line_spans(*app, *item),
        l.highlighted == is_cursor,
{
    let mut spans: Vec<StyledSpan> = Vec::new();
    match *item {
        LineItem::Header => {
            push_span(&mut spans, "Branch: ".to_owned(), style(Some(Color::White), true));
            push_span(&mut spans, app.state.branch.name.clone(), style(Some(Color::Cyan), true));
            if let Some(u) = &app.state.branch.upstream {
                push_span(&mut spans, " <-> ".to_owned(), style(Some(Color::DarkGray), false));
                push_span(&mut spans, u.clone(), style(Some(Color::Cyan), false));
            }
        },
        LineItem::History(i) => {
            push_span(&mut spans, "  ".to_owned(), style(None, false));
            let subject = if i < app.state.history.len() {
                app.state.history[i].clone()
            } else {
                String::new()
            };
            push_span(&mut spans, subject, style(Some(Color::DarkGray), false));
        },
        LineItem::Patch(i) => {
            let p = &app.state.patches[i];
            let color = match p.status {
                PatchStatus::Current => Color::White,
                PatchStatus::Applied => Color::Green,
                PatchStatus::Unapplied => Color::Red,
            };
            let st = style(Some(color), p.status == PatchStatus::Current);
            let sign = match p.status {
                PatchStatus::Current => ">",
                PatchStatus::Applied => "+",
                PatchStatus::Unapplied => "-",
            };
            let mark = if crate::app::contains_index(&app.marked, i) {
                "*"
            } else {
                " "
            };
            let empty = if p.empty {
                "0"
            } else {
                " "
            };
            let flags = concat_str(concat_str(sign, mark).as_str(), empty);
            push_span(&mut spans, flags, st);
            push_span(&mut spans, p.name.clone(), st);
            if !p.description.as_str().is_empty() {
                push_span(
                    &mut spans,
                    concat_str("  # ", p.description.as_str()),
                    style(Some(Color::DarkGray), false),
                );
            }
        },
        LineItem::PatchFile(pi, fi) => {
            if let Some(files) = app.patch_files.get(&pi) {
                if fi < files.len() {
                    let f = &files[fi];
                    push_file_spans(&mut spans, "      ", f.status, &f.path);
                }
            }
        },
        LineItem::IndexHeader => {
            push_span(&mut spans, "  Index".to_owned(), style(Some(Color::Yellow), true));
        },
        LineItem::IndexFile(i) => {
            let f = &app.state.index_files[i];
            push_file_spans(&mut spans, "    ", f.status, &f.path);
        },
        LineItem::WorkTreeHeader => {
            push_span(&mut spans, "  Work Tree".to_owned(), style(Some(Color::Yellow), true));
        },
        LineItem::WorkTreeFile(i) => {
            let f = &app.state.worktree_files[i];
            push_file_spans(&mut spans, "    ", f.status, &f.path);
        },
        LineItem::Footer => {
            push_span(&mut spans, "--".to_owned(), style(Some(Color::DarkGray), false));
        },
    }
    assert(span_models(spans@) =~= line_spans(*app, *item));
    StyledLine { spans, highlighted: is_cursor }
}

} // verus!
