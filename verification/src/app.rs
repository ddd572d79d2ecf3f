//! The application state: the list of lines shown, the cursor, the marks and
//! the mode, and the steps that rebuild and reload them.
use std::collections::HashMap;
use vstd::prelude::*;
use crate::stgit::{FileEntry, FileStatus, Patch, PatchModel, PatchStatus, StackState, patch_models};
use crate::text::{concat_str, first_line_or, lines, lines_of, strings_view};

verus! {

broadcast use vstd::std_specs::hash::group_hash_axioms;

/// What to do when an input prompt is submitted.
#[derive(Debug, Clone, Copy, PartialEq, Eq, Structural)]
pub enum InputAction {
    NewPatch,
    CreatePatchFromChanges,
    HistorySize,
    BranchCreate,
    ConfirmPush,
    ConfirmForcePush,
}

/// The current UI mode.
#[derive(Debug)]
pub enum AppMode {
    Normal,
    DiffView { lines: Vec<String>, scroll: usize, title: String },
    Input { prompt: String, value: String, action: InputAction },
    Help,
    BranchList { branches: Vec<String>, selected: usize },
}

/// What kind of line the cursor is on.
#[derive(Debug, Clone, Copy, PartialEq, Eq, Structural)]
pub enum LineItem {
    Header,
    History(usize),
    Patch(usize),
    /// A file of an expanded patch: patch index, file index.
    PatchFile(usize, usize),
    IndexHeader,
    IndexFile(usize),
    WorkTreeHeader,
    WorkTreeFile(usize),
    Footer,
}

/// The whole state of the user interface.
pub struct App {
    pub state: StackState,
    pub cursor: usize,
    pub lines: Vec<LineItem>,
    pub marked: Vec<usize>,
    pub expanded: Vec<usize>,
    pub patch_files: HashMap<usize, Vec<FileEntry>>,
    pub history_count: usize,
    pub show_unknown: bool,
    pub status_msg: String,
    pub should_quit: bool,
    pub mode: AppMode,
}

/// The mathematical content of an [`AppMode`].
pub enum ModeView {
    Normal,
    DiffView { lines: Seq<Seq<char>>, scroll: usize, title: Seq<char> },
    Input { prompt: Seq<char>, value: Seq<char>, action: InputAction },
    Help,
    BranchList { branches: Seq<Seq<char>>, selected: usize },
}

pub open spec fn mode_view(m: AppMode) -> ModeView {
    match m {
        AppMode::Normal => ModeView::Normal,
        AppMode::DiffView { lines, scroll, title } => ModeView::DiffView {
            lines: strings_view(lines@),
            scroll,
            title: title@,
        },
        AppMode::Input { prompt, value, action } => ModeView::Input {
            prompt: prompt@,
            value: value@,
            action,
        },
        AppMode::Help => ModeView::Help,
        AppMode::BranchList { branches, selected } => ModeView::BranchList {
            branches: strings_view(branches@),
            selected,
        },
    }
}

/// The mathematical content of an [`App`], but for the stack state, which
/// only a reload replaces.
pub struct AppView {
    pub cursor: usize,
    pub lines: Seq<LineItem>,
    pub marked: Seq<usize>,
    pub expanded: Seq<usize>,
    pub files: Map<usize, Vec<FileEntry>>,
    pub history_count: usize,
    pub show_unknown: bool,
    pub status: Seq<char>,
    pub should_quit: bool,
    pub mode: ModeView,
}

impl View for App {
    type V = AppView;

    open spec fn view(&self) -> AppView {
        AppView {
            cursor: self.cursor,
            lines: self.lines@,
            marked: self.marked@,
            expanded: self.expanded@,
            files: self.patch_files@,
            history_count: self.history_count,
            show_unknown: self.show_unknown,
            status: self.status_msg@,
            should_quit: self.should_quit,
            mode: mode_view(self.mode),
        }
    }
}

/// How many commits below the stack are shown at start.
pub const DEFAULT_HISTORY_COUNT: usize = 5;

// ---------------------------------------------------------------------------
// The list of lines
// ---------------------------------------------------------------------------

pub open spec fn patch_statuses(ps: Seq<Patch>) -> Seq<PatchStatus> {
    ps.map_values(|p: Patch| p.status)
}

pub open spec fn file_statuses(fs: Seq<FileEntry>) -> Seq<FileStatus> {
    fs.map_values(|f: FileEntry| f.status)
}

/// Applied patches (the current one included) come above the index, the
/// unapplied ones below the work tree.
pub open spec fn in_group(s: PatchStatus, applied: bool) -> bool {
    if applied {
        s == PatchStatus::Applied || s == PatchStatus::Current
    } else {
        s == PatchStatus::Unapplied
    }
}

/// The file lines under patch `i`: one per loaded file when it is expanded.
pub open spec fn expansion(i: usize, expanded: Seq<usize>, files: Map<usize, Vec<FileEntry>>) -> Seq<
    LineItem,
> {
    if expanded.contains(i) && files.contains_key(i) {
        Seq::new(files[i]@.len(), |fi: int| LineItem::PatchFile(i, fi as usize))
    } else {
        Seq::empty()
    }
}

/// The lines of the patches of one group, in stack order, each followed by its expansion.
pub open spec fn group_lines(
    st: Seq<PatchStatus>,
    applied: bool,
    expanded: Seq<usize>,
    files: Map<usize, Vec<FileEntry>>,
) -> Seq<LineItem>
    decreases st.len(),
{
    if st.len() == 0 {
        Seq::empty()
    } else {
        let i = (st.len() - 1) as usize;
        let prev = group_lines(st.drop_last(), applied, expanded, files);
        if in_group(st.last(), applied) {
            prev + seq![LineItem::Patch(i)] + expansion(i, expanded, files)
        } else {
            prev
        }
    }
}

/// The history, oldest commit first.
pub open spec fn history_lines(n: nat) -> Seq<LineItem> {
    Seq::new(n, |k: int| LineItem::History((n - 1 - k) as usize))
}

pub open spec fn index_lines(n: nat) -> Seq<LineItem> {
    Seq::new(n, |i: int| LineItem::IndexFile(i as usize))
}

/// The work tree files, untracked ones only when they are shown.
pub open spec fn worktree_lines(fs: Seq<FileStatus>, show_unknown: bool) -> Seq<LineItem>
    decreases fs.len(),
{
    if fs.len() == 0 {
        Seq::empty()
    } else {
        let prev = worktree_lines(fs.drop_last(), show_unknown);
        if show_unknown || fs.last() != FileStatus::Untracked {
            prev.push(LineItem::WorkTreeFile((fs.len() - 1) as usize))
        } else {
            prev
        }
    }
}

/// The lines of the screen, top to bottom.
pub open spec fn build_lines(
    state: StackState,
    expanded: Seq<usize>,
    files: Map<usize, Vec<FileEntry>>,
    show_unknown: bool,
) -> Seq<LineItem> {
    let st = patch_statuses(state.patches@);
    seq![LineItem::Header] + history_lines(state.history@.len()) + group_lines(
        st,
        true,
        expanded,
        files,
    ) + seq![LineItem::IndexHeader] + index_lines(state.index_files@.len()) + seq![
        LineItem::WorkTreeHeader,
    ] + worktree_lines(file_statuses(state.worktree_files@), show_unknown) + group_lines(
        st,
        false,
        expanded,
        files,
    ) + seq![LineItem::Footer]
}

/// A line item that names only things that exist.
pub open spec fn item_valid(
    item: LineItem,
    state: StackState,
    files: Map<usize, Vec<FileEntry>>,
) -> bool {
    match item {
        LineItem::History(i) => i < state.history@.len(),
        LineItem::Patch(i) => i < state.patches@.len(),
        LineItem::PatchFile(i, fi) => i < state.patches@.len() && files.contains_key(i) && fi
            < files[i]@.len(),
        LineItem::IndexFile(i) => i < state.index_files@.len(),
        LineItem::WorkTreeFile(i) => i < state.worktree_files@.len(),
        _ => true,
    }
}

pub open spec fn no_duplicates(s: Seq<usize>) -> bool {
    forall|i: int, j: int| 0 <= i < j < s.len() ==> s[i] != s[j]
}

impl App {
    /// The lines that the state, the expansions and the filter describe.
    pub open spec fn lines_model(self) -> Seq<LineItem> {
        build_lines(self.state, self.expanded@, self.patch_files@, self.show_unknown)
    }

    /// A mode whose position lies within what it shows.
    pub open spec fn mode_ok(self) -> bool {
        match self.mode {
            AppMode::DiffView { lines, scroll, .. } => lines@.len() > 0 && scroll < lines@.len(),
            AppMode::BranchList { branches, selected } => selected < branches@.len() || selected
                == 0,
            _ => true,
        }
    }

    /// The invariant of the application state.
    pub open spec fn wf(self) -> bool {
        &&& self.lines@ == self.lines_model()
        &&& no_duplicates(self.marked@)
        &&& self.mode_ok()
    }

    /// The line under the cursor (the header when the cursor is past the end).
    pub open spec fn line_at_cursor(self) -> LineItem {
        if self.cursor < self.lines@.len() {
            self.lines@[self.cursor as int]
        } else {
            LineItem::Header
        }
    }

    /// The patch under the cursor, on its line or on one of its files.
    pub open spec fn patch_at_cursor(self) -> Option<usize> {
        match self.line_at_cursor() {
            LineItem::Patch(i) => Some(i),
            LineItem::PatchFile(i, _) => Some(i),
            _ => None,
        }
    }

    /// The patches an operation acts on: the marked ones, else the one under the cursor.
    pub open spec fn effective(self) -> Seq<usize> {
        if self.marked@.len() > 0 {
            self.marked@
        } else {
            match self.patch_at_cursor() {
                Some(i) => seq![i],
                None => Seq::empty(),
            }
        }
    }
}

/// The names of the patches at the given indices, skipping indices past the end.
pub open spec fn names_at(patches: Seq<PatchModel>, idx: Seq<usize>) -> Seq<Seq<char>>
    decreases idx.len(),
{
    if idx.len() == 0 {
        Seq::empty()
    } else if idx.last() < patches.len() {
        names_at(patches, idx.drop_last()).push(patches[idx.last() as int].name)
    } else {
        names_at(patches, idx.drop_last())
    }
}

/// `s` without the occurrences of `x`, in order.
pub open spec fn without(s: Seq<usize>, x: usize) -> Seq<usize>
    decreases s.len(),
{
    if s.len() == 0 {
        Seq::empty()
    } else if s.last() == x {
        without(s.drop_last(), x)
    } else {
        without(s.drop_last(), x).push(s.last())
    }
}

/// Removing `x` keeps exactly the other elements, and repeats none.
pub proof fn lemma_without(s: Seq<usize>, x: usize)
    ensures
        forall|y: usize| #[trigger] without(s, x).contains(y) <==> (s.contains(y) && y != x),
        no_duplicates(s) ==> no_duplicates(without(s, x)),
    decreases s.len(),
{
    if s.len() > 0 {
        let p = s.drop_last();
        lemma_without(p, x);
        let w = without(s, x);
        let wp = without(p, x);
        assert forall|y: usize| #[trigger] w.contains(y) <==> (s.contains(y) && y != x) by {
            if s.contains(y) && y != x {
                let k = choose|k: int| 0 <= k < s.len() && s[k] == y;
                if k < s.len() - 1 {
                    assert(p[k] == y);
                    assert(wp.contains(y));
                    let j = choose|j: int| 0 <= j < wp.len() && wp[j] == y;
                    if s.last() != x {
                        assert(w[j] == y);
                    }
                } else {
                    assert(w.last() == y);
                }
            }
            if w.contains(y) {
                let j = choose|j: int| 0 <= j < w.len() && w[j] == y;
                if s.last() == x || j < wp.len() {
                    assert(wp[j] == y);
                    assert(wp.contains(y));
                    let k = choose|k: int| 0 <= k < p.len() && p[k] == y;
                    assert(s[k] == y);
                } else {
                    assert(s[s.len() - 1] == y);
                }
            }
        }
        if no_duplicates(s) {
            assert(no_duplicates(p));
            if s.last() != x {
                assert forall|i: int, j: int| 0 <= i < j < w.len() implies w[i] != w[j] by {
                    if j == w.len() - 1 {
                        if w[i] == w[j] {
                            assert(wp.contains(w[i]));
                            let k = choose|k: int| 0 <= k < p.len() && p[k] == w[i];
                            assert(s[k] == s[s.len() - 1]);
                        }
                    } else {
                        assert(w[i] == wp[i] && w[j] == wp[j]);
                    }
                }
            }
        }
    }
}

// ---------------------------------------------------------------------------
// Lemmas on the list of lines
// ---------------------------------------------------------------------------

/// Group lines are patch lines and the file lines under them.
pub proof fn lemma_group_lines_valid(
    st: Seq<PatchStatus>,
    applied: bool,
    expanded: Seq<usize>,
    files: Map<usize, Vec<FileEntry>>,
)
    ensures
        forall|k: int|
            0 <= k < group_lines(st, applied, expanded, files).len() ==> match #[trigger] group_lines(
                st,
                applied,
                expanded,
                files,
            )[k] {
                LineItem::Patch(i) => i < st.len(),
                LineItem::PatchFile(i, fi) => i < st.len() && files.contains_key(i) && fi
                    < files[i]@.len(),
                _ => false,
            },
    decreases st.len(),
{
    if st.len() > 0 {
        lemma_group_lines_valid(st.drop_last(), applied, expanded, files);
    }
}

/// Work tree lines name work tree files, at most one per file.
pub proof fn lemma_worktree_lines_valid(fs: Seq<FileStatus>, show_unknown: bool)
    ensures
        forall|k: int|
            0 <= k < worktree_lines(fs, show_unknown).len() ==> match #[trigger] worktree_lines(
                fs,
                show_unknown,
            )[k] {
                LineItem::WorkTreeFile(i) => i < fs.len(),
                _ => false,
            },
        worktree_lines(fs, show_unknown).len() <= fs.len(),
    decreases fs.len(),
{
    if fs.len() > 0 {
        lemma_worktree_lines_valid(fs.drop_last(), show_unknown);
    }
}

/// Every line of the screen names only patches, files and commits that exist.
pub proof fn lemma_lines_valid(
    state: StackState,
    expanded: Seq<usize>,
    files: Map<usize, Vec<FileEntry>>,
    show_unknown: bool,
)
    ensures
        forall|k: int|
            0 <= k < build_lines(state, expanded, files, show_unknown).len() ==> item_valid(
                #[trigger] build_lines(state, expanded, files, show_unknown)[k],
                state,
                files,
            ),
{
    let st = patch_statuses(state.patches@);
    lemma_group_lines_valid(st, true, expanded, files);
    lemma_group_lines_valid(st, false, expanded, files);
    lemma_worktree_lines_valid(file_statuses(state.worktree_files@), show_unknown);
    let l = build_lines(state, expanded, files, show_unknown);
    let h = history_lines(state.history@.len());
    let ga = group_lines(st, true, expanded, files);
    let ix = index_lines(state.index_files@.len());
    let wt = worktree_lines(file_statuses(state.worktree_files@), show_unknown);
    let gu = group_lines(st, false, expanded, files);
    assert forall|k: int| 0 <= k < l.len() implies item_valid(#[trigger] l[k], state, files) by {
        let a: int = 1 + h.len() as int;
        let b: int = a + ga.len();
        let c: int = b + 1 + ix.len();
        let d: int = c + 1 + wt.len();
        if k < 1 {
        } else if k < a {
            assert(l[k] == h[k - 1]);
        } else if k < b {
            assert(l[k] == ga[k - a]);
        } else if k < b + 1 {
        } else if k < c {
            assert(l[k] == ix[k - b - 1]);
        } else if k < c + 1 {
        } else if k < d {
            assert(l[k] == wt[k - c - 1]);
        } else if k < d + gu.len() {
            assert(l[k] == gu[k - d]);
        }
    }
}

/// Where the index header stands: after the header, the history and the applied patches.
pub open spec fn index_header_position(
    state: StackState,
    expanded: Seq<usize>,
    files: Map<usize, Vec<FileEntry>>,
) -> int {
    (1 + state.history@.len() + group_lines(patch_statuses(state.patches@), true, expanded, files).len()) as int
}

/// The screen shows the index header exactly once, below the header, the
/// history and the applied patches, and always ends with the footer.
pub proof fn lemma_index_header_unique(
    state: StackState,
    expanded: Seq<usize>,
    files: Map<usize, Vec<FileEntry>>,
    show_unknown: bool,
)
    ensures
        ({
            let l = build_lines(state, expanded, files, show_unknown);
            let p = index_header_position(state, expanded, files);
            &&& 0 < p < l.len()
            &&& l[p] == LineItem::IndexHeader
            &&& forall|k: int| 0 <= k < l.len() && k != p ==> l[k] != LineItem::IndexHeader
            &&& l[0] == LineItem::Header
            &&& l.last() == LineItem::Footer
            &&& l.len() >= 4
        }),
{
    let st = patch_statuses(state.patches@);
    lemma_group_lines_valid(st, true, expanded, files);
    lemma_group_lines_valid(st, false, expanded, files);
    lemma_worktree_lines_valid(file_statuses(state.worktree_files@), show_unknown);
    let l = build_lines(state, expanded, files, show_unknown);
    let h = history_lines(state.history@.len());
    let ga = group_lines(st, true, expanded, files);
    let ix = index_lines(state.index_files@.len());
    let wt = worktree_lines(file_statuses(state.worktree_files@), show_unknown);
    let gu = group_lines(st, false, expanded, files);
    let a: int = 1 + h.len() as int;
    let b: int = a + ga.len();
    let c: int = b + 1 + ix.len();
    let d: int = c + 1 + wt.len();
    assert(l.len() == d + gu.len() + 1);
    assert(l[b] == LineItem::IndexHeader);
    assert forall|k: int| 0 <= k < l.len() && k != b implies l[k] != LineItem::IndexHeader by {
        if k < 1 {
        } else if k < a {
            assert(l[k] == h[k - 1]);
        } else if k < b {
            assert(l[k] == ga[k - a]);
        } else if k < c {
            assert(l[k] == ix[k - b - 1]);
        } else if k < c + 1 {
        } else if k < d {
            assert(l[k] == wt[k - c - 1]);
        } else if k < d + gu.len() {
            assert(l[k] == gu[k - d]);
        }
    }
}

// ---------------------------------------------------------------------------
// Executable code
// ---------------------------------------------------------------------------

/// Whether `x` occurs in `v`.
pub fn contains_index(v: &Vec<usize>, x: usize) -> (b: bool)
    ensures
        b == v@.contains(x),
{
    let mut i: usize = 0;
    while i < v.len()
        invariant
            i <= v@.len(),
            forall|k: int| 0 <= k < i ==> v@[k] != x,
        decreases v@.len() - i,
    {
        if v[i] == x {
            assert(v@[i as int] == x);
            return true;
        }
        i += 1;
    }
    false
}

/// `v` without the occurrences of `x` (`retain(|&y| y != x)`).
pub fn remove_index(v: &mut Vec<usize>, x: usize)
    ensures
        final(v)@ == without(old(v)@, x),
{
    let ghost orig = v@;
    let mut kept: Vec<usize> = Vec::new();
    let mut i: usize = 0;
    while i < v.len()
        invariant
            i <= v@.len(),
            v@ == orig,
            kept@ == without(orig.take(i as int), x),
        decreases v@.len() - i,
    {
        proof {
            assert(orig.take(i + 1).drop_last() =~= orig.take(i as int));
        }
        if v[i] != x {
            kept.push(v[i]);
        }
        i += 1;
    }
    assert(orig.take(i as int) =~= orig);
    *v = kept;
}

fn push_group(app: &App, lines: &mut Vec<LineItem>, applied: bool)
    ensures
        final(lines)@ == old(lines)@ + group_lines(
            patch_statuses(app.state.patches@),
            applied,
            app.expanded@,
            app.patch_files@,
        ),
{
    let ghost start = lines@;
    let ghost st = patch_statuses(app.state.patches@);
    let n = app.state.patches.len();
    for i in 0..n
        invariant
            n == app.state.patches@.len(),
            st == patch_statuses(app.state.patches@),
            lines@ == start + group_lines(st.take(i as int), applied, app.expanded@, app.patch_files@),
    {
        assert(st.take(i + 1).drop_last() =~= st.take(i as int));
        assert(st.take(i + 1).last() == app.state.patches@[i as int].status);
        let status = app.state.patches[i].status;
        let member = if applied {
            status == PatchStatus::Applied || status == PatchStatus::Current
        } else {
            status == PatchStatus::Unapplied
        };
        if member {
            let ghost before = lines@;
            lines.push(LineItem::Patch(i));
            let ghost mid = lines@;
            if contains_index(&app.expanded, i) {
                if let Some(files) = app.patch_files.get(&i) {
                    let m = files.len();
                    for fi in 0..m
                        invariant
                            m == files@.len(),
                            lines@ == mid + Seq::new(
                                fi as nat,
                                |k: int| LineItem::PatchFile(i, k as usize),
                            ),
                    {
                        lines.push(LineItem::PatchFile(i, fi));
                        assert(lines@ =~= mid + Seq::new(
                            (fi + 1) as nat,
                            |k: int| LineItem::PatchFile(i, k as usize),
                        ));
                    }
                    assert(expansion(i, app.expanded@, app.patch_files@) =~= Seq::new(
                        m as nat,
                        |k: int| LineItem::PatchFile(i, k as usize),
                    ));
                } else {
                    assert(lines@ =~= mid + expansion(i, app.expanded@, app.patch_files@));
                }
            } else {
                assert(lines@ =~= mid + expansion(i, app.expanded@, app.patch_files@));
            }
            assert(lines@ =~= start + group_lines(
                st.take(i + 1),
                applied,
                app.expanded@,
                app.patch_files@,
            ));
        } else {
            assert(lines@ =~= start + group_lines(
                st.take(i + 1),
                applied,
                app.expanded@,
                app.patch_files@,
            ));
        }
    }
    assert(st.take(n as int) =~= st);
}

impl App {
    /// The application for a freshly loaded state: normal mode, nothing marked
    /// or expanded, untracked files hidden, the cursor on the index header.
    pub fn new(state: StackState) -> (app: App)
        ensures
            app.wf(),
            app.state == state,
            app.marked@.len() == 0,
            app.expanded@.len() == 0,
            app.patch_files@ == Map::<usize, Vec<FileEntry>>::empty(),
            app.history_count == DEFAULT_HISTORY_COUNT,
            !app.show_unknown,
            app.status_msg@.len() == 0,
            !app.should_quit,
            app.mode is Normal,
            app.line_at_cursor() == LineItem::IndexHeader,
            app.cursor == index_header_position(app.state, app.expanded@, app.patch_files@),
    {
        let mut app = App {
            state,
            cursor: 0,
            lines: Vec::new(),
            marked: Vec::new(),
            expanded: Vec::new(),
            patch_files: HashMap::new(),
            history_count: DEFAULT_HISTORY_COUNT,
            show_unknown: false,
            status_msg: String::new(),
            should_quit: false,
            mode: AppMode::Normal,
        };
        app.rebuild_lines();
        proof {
            lemma_index_header_unique(app.state, app.expanded@, app.patch_files@, app.show_unknown);
        }
        app.cursor = match app.find_index_header() {
            Some(k) => k,
            None => 0,
        };
        app
    }

    /// The position of the first index header line.
    fn find_index_header(&self) -> (r: Option<usize>)
        ensures
            match r {
                Some(k) => k < self.lines@.len() && self.lines@[k as int] == LineItem::IndexHeader
                    && forall|j: int| 0 <= j < k ==> self.lines@[j] != LineItem::IndexHeader,
                None => forall|j: int|
                    0 <= j < self.lines@.len() ==> self.lines@[j] != LineItem::IndexHeader,
            },
    {
        let mut i: usize = 0;
        while i < self.lines.len()
            invariant
                i <= self.lines@.len(),
                forall|j: int| 0 <= j < i ==> self.lines@[j] != LineItem::IndexHeader,
            decreases self.lines@.len() - i,
        {
            if self.lines[i] == LineItem::IndexHeader {
                return Some(i);
            }
            i += 1;
        }
        None
    }

    /// Rebuilds the list of lines from the state, the expansions and the filter.
    pub fn rebuild_lines(&mut self)
        ensures
            final(self).lines@ == final(self).lines_model(),
            final(self).state == old(self).state,
            final(self).cursor == old(self).cursor,
            final(self).marked == old(self).marked,
            final(self).expanded == old(self).expanded,
            final(self).patch_files == old(self).patch_files,
            final(self).history_count == old(self).history_count,
            final(self).show_unknown == old(self).show_unknown,
            final(self).status_msg == old(self).status_msg,
            final(self).should_quit == old(self).should_quit,
            final(self).mode == old(self).mode,
    {
        let mut lines: Vec<LineItem> = Vec::new();
        lines.push(LineItem::Header);
        let h = self.state.history.len();
        for k in 0..h
            invariant
                h == self.state.history@.len(),
                lines@ == seq![LineItem::Header] + Seq::new(
                    k as nat,
                    |j: int| LineItem::History((h - 1 - j) as usize),
                ),
        {
            lines.push(LineItem::History(h - 1 - k));
            assert(lines@ =~= seq![LineItem::Header] + Seq::new(
                (k + 1) as nat,
                |j: int| LineItem::History((h - 1 - j) as usize),
            ));
        }
        assert(lines@ =~= seq![LineItem::Header] + history_lines(h as nat));
        push_group(self, &mut lines, true);
        lines.push(LineItem::IndexHeader);
        let ghost before_index = lines@;
        let ni = self.state.index_files.len();
        for i in 0..ni
            invariant
                ni == self.state.index_files@.len(),
                lines@ == before_index + Seq::new(i as nat, |j: int| LineItem::IndexFile(j as usize)),
        {
            lines.push(LineItem::IndexFile(i));
            assert(lines@ =~= before_index + Seq::new(
                (i + 1) as nat,
                |j: int| LineItem::IndexFile(j as usize),
            ));
        }
        assert(lines@ =~= before_index + index_lines(ni as nat));
        lines.push(LineItem::WorkTreeHeader);
        let ghost before_wt = lines@;
        let ghost fs = file_statuses(self.state.worktree_files@);
        let nw = self.state.worktree_files.len();
        for i in 0..nw
            invariant
                nw == self.state.worktree_files@.len(),
                fs == file_statuses(self.state.worktree_files@),
                lines@ == before_wt + worktree_lines(fs.take(i as int), self.show_unknown),
        {
            assert(fs.take(i + 1).drop_last() =~= fs.take(i as int));
            assert(fs.take(i + 1).last() == self.state.worktree_files@[i as int].status);
            if self.show_unknown || self.state.worktree_files[i].status != FileStatus::Untracked {
                lines.push(LineItem::WorkTreeFile(i));
            }
            assert(lines@ =~= before_wt + worktree_lines(fs.take(i + 1), self.show_unknown));
        }
        assert(fs.take(nw as int) =~= fs);
        push_group(self, &mut lines, false);
        lines.push(LineItem::Footer);
        assert(lines@ =~= self.lines_model());
        self.lines = lines;
    }

    /// The line under the cursor, or the header when the cursor is past the end.
    pub fn current_line(&self) -> (r: &LineItem)
        ensures
            *r == self.line_at_cursor(),
    {
        if self.cursor < self.lines.len() {
            &self.lines[self.cursor]
        } else {
            &LineItem::Header
        }
    }

    /// The patch under the cursor, on its line or on one of its files.
    pub fn current_patch_index(&self) -> (r: Option<usize>)
        ensures
            r == self.patch_at_cursor(),
    {
        match self.current_line() {
            LineItem::Patch(i) => Some(*i),
            LineItem::PatchFile(i, _) => Some(*i),
            _ => None,
        }
    }

    /// The patches an operation acts on: the marked ones, else the one under the cursor.
    pub fn effective_patches(&self) -> (r: Vec<usize>)
        ensures
            r@ == self.effective(),
    {
        if self.marked.len() > 0 {
            self.marked.clone()
        } else if let Some(i) = self.current_patch_index() {
            let mut v = Vec::new();
            v.push(i);
            assert(v@ =~= seq![i]);
            v
        } else {
            Vec::new()
        }
    }

    /// The names of the patches at `indices`, skipping those past the end.
    pub fn patch_names(&self, indices: &[usize]) -> (names: Vec<String>)
        ensures
            strings_view(names@) == names_at(patch_models(self.state.patches@), indices@),
    {
        let ghost ps = patch_models(self.state.patches@);
        let mut names: Vec<String> = Vec::new();
        let mut k: usize = 0;
        while k < indices.len()
            invariant
                k <= indices@.len(),
                ps == patch_models(self.state.patches@),
                strings_view(names@) == names_at(ps, indices@.take(k as int)),
            decreases indices@.len() - k,
        {
            assert(indices@.take(k + 1).drop_last() =~= indices@.take(k as int));
            let i = indices[k];
            if i < self.state.patches.len() {
                let name = self.state.patches[i].name.clone();
                let ghost before = names@;
                names.push(name);
                assert(strings_view(names@) =~= strings_view(before).push(ps[i as int].name));
            }
            k += 1;
        }
        assert(indices@.take(k as int) =~= indices@);
        names
    }

    /// Replaces the state by a freshly loaded one, or reports why it could not
    /// be loaded. A new state drops the loaded patch files and the expansions,
    /// rebuilds the lines and brings the cursor back onto the last line if it
    /// went past it.
    pub fn reload(&mut self, loaded: Result<StackState, String>)
        requires
            old(self).wf(),
        ensures
            final(self).wf(),
            final(self).state == reloaded_state(*old(self), loaded),
            final(self)@ == reloaded_view(*old(self), loaded),
    {
        match loaded {
            Ok(state) => {
                self.state = state;
                self.patch_files.clear();
                self.expanded.clear();
                self.rebuild_lines();
                proof {
                    lemma_index_header_unique(
                        self.state,
                        self.expanded@,
                        self.patch_files@,
                        self.show_unknown,
                    );
                }
                if self.cursor >= self.lines.len() {
                    self.cursor = self.lines.len() - 1;
                }
            },
            Err(e) => {
                self.status_msg = concat_str("Error: ", e.as_str());
            },
        }
    }

    /// Takes in how an operation went: on success its first line of output (or
    /// "OK") becomes the status and the caller is to reload the state; on
    /// failure the status reports the first line of its errors (or "failed"),
    /// or why it could not run.
    pub fn run_op(&mut self, result: Result<(bool, String, String), String>) -> (reload: bool)
        ensures
            reload == (result matches Ok((true, _, _))),
            final(self).state == old(self).state,
            final(self).cursor == old(self).cursor,
            final(self).lines == old(self).lines,
            final(self).marked == old(self).marked,
            final(self).expanded == old(self).expanded,
            final(self).patch_files == old(self).patch_files,
            final(self).history_count == old(self).history_count,
            final(self).show_unknown == old(self).show_unknown,
            final(self).should_quit == old(self).should_quit,
            final(self).mode == old(self).mode,
            final(self).status_msg@ == match result {
                Ok((true, out, _)) => first_line_or(out@, "OK"@),
                Ok((false, _, err)) => "Error: "@ + first_line_or(err@, "failed"@),
                Err(e) => "Error: "@ + e@,
            },
    {
        match result {
            Ok((true, out, _)) => {
                self.status_msg = first_line(out.as_str(), "OK");
                true
            },
            Ok((false, _, err)) => {
                let first = first_line(err.as_str(), "failed");
                self.status_msg = concat_str("Error: ", first.as_str());
                false
            },
            Err(e) => {
                self.status_msg = concat_str("Error: ", e.as_str());
                false
            },
        }
    }
}

/// The stack state after a reload.
pub open spec fn reloaded_state(a: App, loaded: Result<StackState, String>) -> StackState {
    match loaded {
        Ok(st) => st,
        Err(_) => a.state,
    }
}

/// The rest of the application after a reload: a new state comes with no
/// loaded patch files, nothing expanded, rebuilt lines and the cursor kept
/// within them; a failure only reports its reason.
pub open spec fn reloaded_view(a: App, loaded: Result<StackState, String>) -> AppView {
    match loaded {
        Ok(st) => {
            let l = build_lines(st, Seq::empty(), Map::empty(), a.show_unknown);
            AppView {
                lines: l,
                expanded: Seq::empty(),
                files: Map::empty(),
                cursor: if a.cursor < l.len() {
                    a.cursor
                } else {
                    (l.len() - 1) as usize
                },
                ..a@
            }
        },
        Err(e) => AppView { status: "Error: "@ + e@, ..a@ },
    }
}

/// The first line of `s`, or `default` when it has none.
pub fn first_line(s: &str, default: &str) -> (r: String)
    ensures
        r@ == first_line_or(s@, default@),
{
    let ls = lines_of(s);
    if ls.len() > 0 {
        assert(ls@[0]@ == lines(s@)[0]);
        ls[0].clone()
    } else {
        default.to_owned()
    }
}

} // verus!
