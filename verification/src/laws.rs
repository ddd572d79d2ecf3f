//! Properties of the library as a whole: what every step keeps, and what
//! one step undoes of another.
use vstd::prelude::*;
use vstd::utf8::{encode_scalar, encode_utf8, encode_utf8_decode_utf8, is_ascii_chars, is_ascii_chars_encode_utf8};
use crate::text::byte_tail;
use crate::app::{
    App, AppView, LineItem, ModeView, build_lines, expansion, group_lines, history_lines, in_group,
    index_lines, lemma_group_lines_valid, lemma_index_header_unique, lemma_worktree_lines_valid, patch_statuses, reloaded_view, without, worktree_lines,
};
use crate::keys::{Action, Command, Key, KeyCode, cleared, command_of, input_effect, key_effect, normal_effect};
use crate::stgit::{
    FileEntry, FileModel, PatchStatus, worktree_files_of, FileStatus, StackState, conflict_path, mark_conflicts, name_status_of, patch_of_line, patches_of, without_path,
};

verus! {

/// The cursor keys of normal mode keep a cursor that is on a line on a line.
pub proof fn lemma_navigation_stays_on_lines(a: App, key: Key, b: App, r: crate::keys::Action)
    requires
        a.wf(),
        a.mode is Normal,
        a.cursor < a.lines@.len(),
        command_of(key) == Command::Up || command_of(key) == Command::Down || command_of(key)
            == Command::Home || command_of(key) == Command::End || command_of(key)
            == Command::PageUp || command_of(key) == Command::PageDown,
        normal_effect(a, key, b, r),
    ensures
        b.cursor < b.lines@.len(),
        b.lines@ == a.lines@,
{
    lemma_index_header_unique(a.state, a.expanded@, a.patch_files@, a.show_unknown);
    assert(b@.cursor == b.cursor);
    assert(b@.lines == b.lines@);
}

/// Toggling the untracked files twice gives back the same lines and filter.
pub proof fn lemma_toggle_twice(a: App, key: Key, b: App, r1: crate::keys::Action, c: App, r2: crate::keys::Action)
    requires
        a.wf(),
        a.mode is Normal,
        command_of(key) == Command::ToggleUnknown,
        normal_effect(a, key, b, r1),
        b.state == a.state,
        normal_effect(b, key, c, r2),
    ensures
        c.show_unknown == a.show_unknown,
        c.lines@ == a.lines@,
        c@ == cleared(a),
{
    assert(b@.show_unknown == b.show_unknown);
    assert(c@.show_unknown == c.show_unknown);
    assert(b.expanded@ == a.expanded@);
    assert(b.patch_files@ == a.patch_files@);
    assert(c@.lines == c.lines@);
}

/// At a prompt, typing a character and then Backspace leaves the answer as it was.
pub proof fn lemma_type_then_backspace(
    a: App,
    c: char,
    k1: Key,
    b: App,
    r1: crate::keys::Action,
    k2: Key,
    d: App,
    r2: crate::keys::Action,
)
    requires
        a.mode is Input,
        k1.code == KeyCode::Char(c),
        k2.code == KeyCode::Backspace,
        input_effect(a, k1, b, r1),
        b.mode is Input,
        input_effect(b, k2, d, r2),
    ensures
        d@ == a@,
{
    match a@.mode {
        ModeView::Input { prompt, value, action } => {
            assert(value.push(c).drop_last() =~= value);
        },
        _ => {},
    }
}

/// Esc leaves the help screen, the diff view, a prompt and the branch list
/// for normal mode, and changes nothing else.
pub proof fn lemma_esc_returns_to_normal(a: App, key: Key, b: App, r: crate::keys::Action)
    requires
        !(a.mode is Normal),
        key.code == KeyCode::Esc,
        key_effect(a, key, b, r),
    ensures
        b@ == (AppView { mode: ModeView::Normal, ..a@ }),
        r is Nothing,
{
}

/// After the conflicts of a status listing are marked, each reported path
/// has exactly one entry, and it is unresolved.
pub proof fn lemma_conflicts_unique(files: Seq<FileModel>, ls: Seq<Seq<char>>, j: int)
    requires
        0 <= j < ls.len(),
        conflict_path(ls[j]) is Some,
    ensures
        ({
            let p = conflict_path(ls[j])->0;
            let out = mark_conflicts(files, ls);
            &&& path_count(out, p) == 1
            &&& forall|k: int|
                0 <= k < out.len() && out[k].path == p ==> out[k].status == FileStatus::Unresolved
        }),
    decreases ls.len(),
{
    let p = conflict_path(ls[j])->0;
    let prev = mark_conflicts(files, ls.drop_last());
    if j == ls.len() - 1 {
        lemma_without_path(prev, p);
        let w = without_path(prev, p);
        let out = w.push(FileModel { status: FileStatus::Unresolved, path: p });
        lemma_path_count_push(w, FileModel { status: FileStatus::Unresolved, path: p }, p);
        assert(mark_conflicts(files, ls) == out);
    } else {
        assert(ls.drop_last()[j] == ls[j]);
        lemma_conflicts_unique(files, ls.drop_last(), j);
        match conflict_path(ls.last()) {
            Some(q) => {
                let w = without_path(prev, q);
                let e = FileModel { status: FileStatus::Unresolved, path: q };
                lemma_without_path(prev, q);
                lemma_path_count_push(w, e, p);
                if q != p {
                    lemma_without_path_count(prev, q, p);
                }
                assert(mark_conflicts(files, ls) == w.push(e));
            },
            None => {
                assert(mark_conflicts(files, ls) == prev);
            },
        }
    }
}

/// How many entries name path `p`.
pub open spec fn path_count(s: Seq<FileModel>, p: Seq<char>) -> nat
    decreases s.len(),
{
    if s.len() == 0 {
        0
    } else {
        path_count(s.drop_last(), p) + if s.last().path == p {
            1nat
        } else {
            0nat
        }
    }
}

proof fn lemma_path_count_push(s: Seq<FileModel>, e: FileModel, p: Seq<char>)
    ensures
        path_count(s.push(e), p) == path_count(s, p) + if e.path == p {
            1nat
        } else {
            0nat
        },
{
    assert(s.push(e).drop_last() =~= s);
}

proof fn lemma_without_path(s: Seq<FileModel>, p: Seq<char>)
    ensures
        path_count(without_path(s, p), p) == 0,
        forall|k: int|
            0 <= k < without_path(s, p).len() ==> (#[trigger] without_path(s, p)[k]).path != p,
    decreases s.len(),
{
    if s.len() > 0 {
        lemma_without_path(s.drop_last(), p);
        if s.last().path != p {
            lemma_path_count_push(without_path(s.drop_last(), p), s.last(), p);
        }
    }
}

proof fn lemma_without_path_count(s: Seq<FileModel>, q: Seq<char>, p: Seq<char>)
    requires
        q != p,
    ensures
        path_count(without_path(s, q), p) == path_count(s, p),
        forall|k: int|
            0 <= k < without_path(s, q).len() && (#[trigger] without_path(s, q)[k]).path == p
                ==> exists|m: int| 0 <= m < s.len() && s[m] == without_path(s, q)[k],
    decreases s.len(),
{
    if s.len() > 0 {
        let t = s.drop_last();
        lemma_without_path_count(t, q, p);
        if s.last().path != q {
            lemma_path_count_push(without_path(t, q), s.last(), p);
            let w = without_path(s, q);
            assert forall|k: int| 0 <= k < w.len() && (#[trigger] w[k]).path == p implies exists|
                m: int,
            | 0 <= m < s.len() && s[m] == w[k] by {
                if k == w.len() - 1 {
                    assert(s[s.len() - 1] == w[k]);
                } else {
                    let m = choose|m: int| 0 <= m < t.len() && t[m] == without_path(t, q)[k];
                    assert(s[m] == w[k]);
                }
            }
        } else {
            let w = without_path(s, q);
            assert forall|k: int| 0 <= k < w.len() && (#[trigger] w[k]).path == p implies exists|
                m: int,
            | 0 <= m < s.len() && s[m] == w[k] by {
                let m = choose|m: int| 0 <= m < t.len() && t[m] == without_path(t, q)[k];
                assert(s[m] == w[k]);
            }
        }
    }
}

/// Every entry of a `--name-status` listing names a path.
pub proof fn lemma_name_status_paths(ls: Seq<Seq<char>>)
    ensures
        forall|k: int|
            0 <= k < name_status_of(ls).len() ==> (#[trigger] name_status_of(ls)[k]).path.len() > 0,
        name_status_of(ls).len() <= ls.len(),
    decreases ls.len(),
{
    if ls.len() > 0 {
        lemma_name_status_paths(ls.drop_last());
    }
}

/// How many lines are not empty.
pub open spec fn nonempty_count(ls: Seq<Seq<char>>) -> nat
    decreases ls.len(),
{
    if ls.len() == 0 {
        0
    } else {
        nonempty_count(ls.drop_last()) + if ls.last().len() > 0 {
            1nat
        } else {
            0nat
        }
    }
}

/// A series listing gives one patch per non-empty line, in order.
pub proof fn lemma_one_patch_per_line(ls: Seq<Seq<char>>)
    ensures
        patches_of(ls).len() == nonempty_count(ls),
        patches_of(ls).len() > 0 ==> ({
            let last = ls.last();
            last.len() == 0 || patches_of(ls).last() == patch_of_line(last)
        }),
    decreases ls.len(),
{
    if ls.len() > 0 {
        lemma_one_patch_per_line(ls.drop_last());
    }
}

/// A successful reload leaves the cursor on a line of the new list.
pub proof fn lemma_reload_keeps_cursor_on_a_line(a: App, st: StackState)
    ensures
        ({
            let v = reloaded_view(a, Ok(st));
            v.cursor < v.lines.len() && v.lines == build_lines(
                st,
                Seq::empty(),
                Map::empty(),
                a.show_unknown,
            )
        }),
{
    lemma_index_header_unique(st, Seq::empty(), Map::empty(), a.show_unknown);
}

/// Every patch line of a group names a patch of that group.
proof fn lemma_group_patches(
    st: Seq<PatchStatus>,
    g: bool,
    e: Seq<usize>,
    f: Map<usize, Vec<FileEntry>>,
)
    requires
        st.len() <= usize::MAX,
    ensures
        forall|k: int|
            0 <= k < group_lines(st, g, e, f).len() && (#[trigger] group_lines(st, g, e, f)[k]) is Patch
                ==> group_lines(st, g, e, f)[k]->Patch_0 < st.len() && in_group(
                st[group_lines(st, g, e, f)[k]->Patch_0 as int],
                g,
            ),
    decreases st.len(),
{
    if st.len() > 0 {
        let p = st.drop_last();
        lemma_group_patches(p, g, e, f);
        let gp = group_lines(p, g, e, f);
        let gl = group_lines(st, g, e, f);
        let n = (st.len() - 1) as usize;
        assert forall|k: int| 0 <= k < gl.len() && (#[trigger] gl[k]) is Patch implies gl[k]->Patch_0
            < st.len() && in_group(st[gl[k]->Patch_0 as int], g) by {
            let j = gl[k]->Patch_0;
            if !in_group(st.last(), g) {
                assert(gl == gp);
                assert(st[j as int] == p[j as int]);
            } else if k < gp.len() {
                assert(gl[k] == gp[k]);
                assert(st[j as int] == p[j as int]);
            } else if k > gp.len() {
                assert(gl[k] == expansion(n, e, f)[k - gp.len() - 1]);
            }
        }
    }
}

/// Two expansion lists that differ only in patch `i`, which the first does
/// not expand, give group lines that agree up to the line of patch `i`, and
/// agree everywhere when that line is not in the group.
proof fn lemma_group_prefix(
    st: Seq<PatchStatus>,
    g: bool,
    e: Seq<usize>,
    e2: Seq<usize>,
    f: Map<usize, Vec<FileEntry>>,
    i: usize,
)
    requires
        st.len() <= usize::MAX,
        forall|j: usize| j != i ==> (e.contains(j) <==> e2.contains(j)),
        !e.contains(i),
    ensures
        (forall|k: int| 0 <= k < group_lines(st, g, e, f).len() ==> group_lines(st, g, e, f)[k]
            != LineItem::Patch(i)) ==> group_lines(st, g, e, f) == group_lines(st, g, e2, f),
        forall|k: int, k2: int|
            0 <= k <= k2 < group_lines(st, g, e, f).len() && group_lines(st, g, e, f)[k2]
                == LineItem::Patch(i) ==> k < group_lines(st, g, e2, f).len() && group_lines(
                st,
                g,
                e2,
                f,
            )[k] == group_lines(st, g, e, f)[k],
    decreases st.len(),
{
    if st.len() > 0 {
        let p = st.drop_last();
        let n = (st.len() - 1) as usize;
        lemma_group_prefix(p, g, e, e2, f, i);
        lemma_group_patches(p, g, e, f);
        let gp = group_lines(p, g, e, f);
        let gp2 = group_lines(p, g, e2, f);
        let gl = group_lines(st, g, e, f);
        let gl2 = group_lines(st, g, e2, f);
        if in_group(st.last(), g) {
            let x = expansion(n, e, f);
            let x2 = expansion(n, e2, f);
            assert(gl == gp + seq![LineItem::Patch(n)] + x);
            assert(gl2 == gp2 + seq![LineItem::Patch(n)] + x2);
            if n == i {
                assert(x =~= Seq::<LineItem>::empty());
                assert(p.len() == i);
                assert forall|k: int| 0 <= k < gp.len() implies gp[k] != LineItem::Patch(i) by {
                    if gp[k] == LineItem::Patch(i) {
                        assert(gp[k] is Patch);
                        assert(gp[k]->Patch_0 < p.len());
                    }
                }
                assert(gp == gp2);
                assert(gl[gp.len() as int] == LineItem::Patch(i));
            } else {
                assert(x == x2);
                assert forall|k: int, k2: int|
                    0 <= k <= k2 < gl.len() && gl[k2] == LineItem::Patch(i) implies k < gl2.len()
                        && gl2[k] == gl[k] by {
                    if k2 < gp.len() {
                        assert(gl[k2] == gp[k2]);
                        assert(gl[k] == gp[k]);
                        assert(gl2[k] == gp2[k]);
                    } else if k2 > gp.len() {
                        assert(gl[k2] == x[k2 - gp.len() - 1]);
                    }
                }
                if forall|k: int| 0 <= k < gl.len() ==> gl[k] != LineItem::Patch(i) {
                    assert forall|k: int| 0 <= k < gp.len() implies gp[k] != LineItem::Patch(i) by {
                        assert(gl[k] == gp[k]);
                    }
                    assert(gp == gp2);
                }
            }
        } else {
            assert(gl == gp);
            assert(gl2 == gp2);
        }
    }
}

/// Adding `x` and then taking every `x` out gives `s` back when `s` has no `x`.
proof fn lemma_without_push(s: Seq<usize>, x: usize)
    requires
        !s.contains(x),
    ensures
        without(s.push(x), x) == s,
    decreases s.len(),
{
    assert(s.push(x).drop_last() =~= s);
    lemma_without_absent(s, x);
}

proof fn lemma_without_absent(s: Seq<usize>, x: usize)
    requires
        !s.contains(x),
    ensures
        without(s, x) == s,
    decreases s.len(),
{
    if s.len() > 0 {
        let p = s.drop_last();
        assert(!p.contains(x)) by {
            if p.contains(x) {
                let k = choose|k: int| 0 <= k < p.len() && p[k] == x;
                assert(s[k] == x);
            }
        }
        lemma_without_absent(p, x);
        assert(s.last() != x) by {
            assert(s[s.len() - 1] == s.last());
        }
        assert(p.push(s.last()) =~= s);
    }
}

/// Enter on a patch whose files are loaded expands it, and Enter again
/// collapses it: the screen is as it was, with the status line cleared.
pub proof fn lemma_enter_twice(a: App, key: Key, b: App, r1: crate::keys::Action, c: App, r2: crate::keys::Action)
    requires
        a.wf(),
        a.mode is Normal,
        command_of(key) == Command::Enter,
        a.line_at_cursor() matches LineItem::Patch(i) && !a.expanded@.contains(i)
            && a.patch_files@.contains_key(i),
        normal_effect(a, key, b, r1),
        b.state == a.state,
        normal_effect(b, key, c, r2),
    ensures
        c@ == cleared(a),
        r1 is Nothing,
        r2 is Nothing,
{
    let i = a.line_at_cursor()->Patch_0;
    let e = a.expanded@;
    let e2 = e.push(i);
    let f = a.patch_files@;
    let st = patch_statuses(a.state.patches@);
    assert(a@.cursor == a.cursor && b@.cursor == b.cursor);
    assert(b.expanded@ == e2 && b.patch_files@ == f && b.show_unknown == a.show_unknown);
    assert(b.lines@ == build_lines(a.state, e2, f, a.show_unknown));
    assert forall|j: usize| j != i implies (e.contains(j) <==> e2.contains(j)) by {
        if e2.contains(j) {
            let k = choose|k: int| 0 <= k < e2.len() && e2[k] == j;
            assert(k < e.len());
            assert(e[k] == j);
        }
        if e.contains(j) {
            let k = choose|k: int| 0 <= k < e.len() && e[k] == j;
            assert(e2[k] == j);
        }
    }
    assert(st.len() <= usize::MAX) by {
        assert(a.state.patches.len() == a.state.patches@.len());
    }
    lemma_group_prefix(st, true, e, e2, f, i);
    lemma_group_prefix(st, false, e, e2, f, i);
    lemma_group_patches(st, true, e, f);
    lemma_group_patches(st, false, e, f);
    lemma_worktree_lines_valid(crate::app::file_statuses(a.state.worktree_files@), a.show_unknown);
    let l = a.lines@;
    let l2 = b.lines@;
    let cur = a.cursor as int;
    let h = history_lines(a.state.history@.len());
    let ga = group_lines(st, true, e, f);
    let ga2 = group_lines(st, true, e2, f);
    let ix = index_lines(a.state.index_files@.len());
    let wt = worktree_lines(
        crate::app::file_statuses(a.state.worktree_files@),
        a.show_unknown,
    );
    let gu = group_lines(st, false, e, f);
    let gu2 = group_lines(st, false, e2, f);
    let pa: int = 1 + h.len() as int;
    let pb: int = pa + ga.len();
    let pc: int = pb + 1 + ix.len();
    let pd: int = pc + 1 + wt.len();
    assert(l == seq![LineItem::Header] + h + ga + seq![LineItem::IndexHeader] + ix + seq![
        LineItem::WorkTreeHeader,
    ] + wt + gu + seq![LineItem::Footer]);
    assert(l2 == seq![LineItem::Header] + h + ga2 + seq![LineItem::IndexHeader] + ix + seq![
        LineItem::WorkTreeHeader,
    ] + wt + gu2 + seq![LineItem::Footer]);
    assert(l[cur] == LineItem::Patch(i));
    assert(cur < l2.len() && l2[cur] == LineItem::Patch(i)) by {
        if cur < 1 {
            assert(l[0] == LineItem::Header);
        } else if cur < pa {
            assert(l[cur] == h[cur - 1]);
        } else if cur < pb {
            assert(l[cur] == ga[cur - pa]);
            let k = cur - pa;
            assert(ga[k] == LineItem::Patch(i));
            assert(k < ga2.len() && ga2[k] == ga[k]);
            assert(l2[cur] == ga2[k]);
        } else if cur < pc {
            if cur > pb {
                assert(l[cur] == ix[cur - pb - 1]);
            } else {
                assert(l[cur] == LineItem::IndexHeader);
            }
        } else if cur < pd {
            if cur > pc {
                assert(l[cur] == wt[cur - pc - 1]);
            } else {
                assert(l[cur] == LineItem::WorkTreeHeader);
            }
        } else if cur < pd + gu.len() {
            assert(l[cur] == gu[cur - pd]);
            assert(in_group(st[i as int], false));
            assert forall|k: int| 0 <= k < ga.len() implies ga[k] != LineItem::Patch(i) by {
                if ga[k] == LineItem::Patch(i) {
                    assert(in_group(st[i as int], true));
                }
            }
            assert(ga == ga2);
            let k = cur - pd;
            assert(gu[k] == LineItem::Patch(i));
            assert(k < gu2.len() && gu2[k] == gu[k]);
            assert(l2[cur] == gu2[k]);
        } else {
            assert(l[cur] == LineItem::Footer);
        }
    }
    assert(b.line_at_cursor() == LineItem::Patch(i));
    assert(b.expanded@.contains(i)) by {
        assert(e2[e.len() as int] == i);
    }
    lemma_without_push(e, i);
    assert(c.expanded@ == e);
    assert(c.lines@ == l);
}

// ---------------------------------------------------------------------------
// Which work tree files are listed
// ---------------------------------------------------------------------------

proof fn lemma_worktree_lines_members(fs: Seq<FileStatus>, show_unknown: bool)
    requires
        fs.len() <= usize::MAX,
    ensures
        forall|i: usize|
            #[trigger] worktree_lines(fs, show_unknown).contains(LineItem::WorkTreeFile(i)) <==> (i
                < fs.len() && (show_unknown || fs[i as int] != FileStatus::Untracked)),
    decreases fs.len(),
{
    if fs.len() > 0 {
        let p = fs.drop_last();
        lemma_worktree_lines_members(p, show_unknown);
        let wp = worktree_lines(p, show_unknown);
        let w = worktree_lines(fs, show_unknown);
        let n = (fs.len() - 1) as usize;
        assert forall|i: usize|
            #[trigger] w.contains(LineItem::WorkTreeFile(i)) <==> (i < fs.len() && (show_unknown
                || fs[i as int] != FileStatus::Untracked)) by {
            if i < n {
                assert(fs[i as int] == p[i as int]);
            }
            if show_unknown || fs.last() != FileStatus::Untracked {
                assert(w == wp.push(LineItem::WorkTreeFile(n)));
                if w.contains(LineItem::WorkTreeFile(i)) {
                    let k = choose|k: int| 0 <= k < w.len() && w[k] == LineItem::WorkTreeFile(i);
                    if k < wp.len() {
                        assert(wp[k] == w[k]);
                        assert(wp.contains(LineItem::WorkTreeFile(i)));
                    }
                }
                if i < n && wp.contains(LineItem::WorkTreeFile(i)) {
                    let k = choose|k: int| 0 <= k < wp.len() && wp[k] == LineItem::WorkTreeFile(i);
                    assert(w[k] == wp[k]);
                }
                if i == n {
                    assert(w[wp.len() as int] == LineItem::WorkTreeFile(n));
                }
            } else {
                assert(w == wp);
                assert(wp.contains(LineItem::WorkTreeFile(i)) == w.contains(LineItem::WorkTreeFile(i)));
            }
        }
    }
}

/// With untracked files hidden, the screen lists exactly the work tree
/// files that are not untracked (modified, added, deleted, renamed, copied
/// and unresolved ones alike); with them shown, it lists every file.
pub proof fn lemma_worktree_files_listed(a: App)
    requires
        a.wf(),
    ensures
        forall|i: usize|
            i < a.state.worktree_files@.len() ==> (#[trigger] a.lines@.contains(
                LineItem::WorkTreeFile(i),
            ) <==> (a.show_unknown || a.state.worktree_files@[i as int].status
                != FileStatus::Untracked)),
        forall|i: usize|
            i < a.state.worktree_files@.len() && a.state.worktree_files@[i as int].status
                == FileStatus::Unresolved ==> #[trigger] a.lines@.contains(LineItem::WorkTreeFile(i)),
{
    let state = a.state;
    let st = patch_statuses(state.patches@);
    let fs = crate::app::file_statuses(state.worktree_files@);
    assert(fs.len() <= usize::MAX) by {
        assert(state.worktree_files.len() == state.worktree_files@.len());
    }
    lemma_worktree_lines_members(fs, a.show_unknown);
    lemma_group_lines_valid(st, true, a.expanded@, a.patch_files@);
    lemma_group_lines_valid(st, false, a.expanded@, a.patch_files@);
    let l = a.lines@;
    let h = history_lines(state.history@.len());
    let ga = group_lines(st, true, a.expanded@, a.patch_files@);
    let ix = index_lines(state.index_files@.len());
    let wt = worktree_lines(fs, a.show_unknown);
    let gu = group_lines(st, false, a.expanded@, a.patch_files@);
    let pa: int = 1 + h.len() as int;
    let pb: int = pa + ga.len();
    let pc: int = pb + 1 + ix.len();
    let pd: int = pc + 1 + wt.len();
    assert(l == seq![LineItem::Header] + h + ga + seq![LineItem::IndexHeader] + ix + seq![
        LineItem::WorkTreeHeader,
    ] + wt + gu + seq![LineItem::Footer]);
    assert forall|i: usize| i < state.worktree_files@.len() implies (#[trigger] l.contains(
        LineItem::WorkTreeFile(i),
    ) <==> wt.contains(LineItem::WorkTreeFile(i))) by {
        let item = LineItem::WorkTreeFile(i);
        if wt.contains(item) {
            let k = choose|k: int| 0 <= k < wt.len() && wt[k] == item;
            assert(l[pc + 1 + k] == wt[k]);
        }
        if l.contains(item) {
            let m = choose|m: int| 0 <= m < l.len() && l[m] == item;
            if m < 1 {
                assert(l[0] == LineItem::Header);
            } else if m < pa {
                assert(l[m] == h[m - 1]);
            } else if m < pb {
                assert(l[m] == ga[m - pa]);
            } else if m == pb {
                assert(l[m] == LineItem::IndexHeader);
            } else if m < pc {
                assert(l[m] == ix[m - pb - 1]);
            } else if m == pc {
                assert(l[m] == LineItem::WorkTreeHeader);
            } else if m < pd {
                assert(l[m] == wt[m - pc - 1]);
            } else if m < pd + gu.len() {
                assert(l[m] == gu[m - pd]);
            } else {
                assert(l[m] == LineItem::Footer);
            }
        }
    }
    assert forall|i: usize| i < state.worktree_files@.len() implies fs[i as int]
        == state.worktree_files@[i as int].status by {}
}

// ---------------------------------------------------------------------------
// Which porcelain status lines report a conflict
// ---------------------------------------------------------------------------

/// The UTF-8 bytes of two texts one after the other.
proof fn lemma_encode_concat(s: Seq<char>, t: Seq<char>)
    ensures
        encode_utf8(s + t) == encode_utf8(s) + encode_utf8(t),
    decreases s.len(),
{
    if s.len() > 0 {
        assert((s + t).drop_first() =~= s.drop_first() + t);
        assert((s + t)[0] == s[0]);
        lemma_encode_concat(s.drop_first(), t);
    }
}

/// A porcelain line `XY path` with one-byte status letters: its bytes start
/// with the two letters and a space, then come the path's bytes.
proof fn lemma_status_line_bytes(x: char, y: char, p: Seq<char>)
    requires
        x <= '\u{7f}',
        y <= '\u{7f}',
        p.len() > 0,
    ensures
        ({
            let b = encode_utf8(seq![x, y, ' '] + p);
            &&& b.len() >= 4
            &&& b[0] == x as u8
            &&& b[1] == y as u8
            &&& byte_tail(seq![x, y, ' '] + p, 3) == p
        }),
{
    let pre = seq![x, y, ' '];
    lemma_encode_concat(pre, p);
    assert(is_ascii_chars(pre));
    is_ascii_chars_encode_utf8(pre);
    let b = encode_utf8(pre + p);
    let e = encode_utf8(pre);
    assert(e.len() == 3);
    assert(e[0] == x as u8 && e[1] == y as u8);
    assert(b[0] == e[0] && b[1] == e[1]);
    assert(encode_utf8(p).len() > 0) by {
        assert(encode_utf8(p) == encode_scalar(p[0] as u32) + encode_utf8(p.drop_first()));
    }
    assert(b.subrange(3, b.len() as int) =~= encode_utf8(p));
    encode_utf8_decode_utf8(p);
}

/// `git status --porcelain` reports an unmerged path with one of seven
/// status pairs: DD, AU, UD, UA, DU, AA, UU. A line with any of them reports
/// its path as a conflict; a line whose letters are neither `U` nor the
/// same `A` or `D` twice reports none.
pub proof fn lemma_unmerged_codes(x: char, y: char, p: Seq<char>)
    requires
        x <= '\u{7f}',
        y <= '\u{7f}',
        p.len() > 0,
    ensures
        ((x == 'D' && y == 'D') || (x == 'A' && y == 'U') || (x == 'U' && y == 'D') || (x == 'U'
            && y == 'A') || (x == 'D' && y == 'U') || (x == 'A' && y == 'A') || (x == 'U' && y
            == 'U')) ==> conflict_path(seq![x, y, ' '] + p) == Some(p),
        (x != 'U' && y != 'U' && !(x == 'A' && y == 'A') && !(x == 'D' && y == 'D'))
            ==> conflict_path(seq![x, y, ' '] + p) is None,
{
    lemma_status_line_bytes(x, y, p);
    assert(x == 'U' <==> x as u8 == 85u8);
    assert(y == 'U' <==> y as u8 == 85u8);
    assert(x == 'A' <==> x as u8 == 65u8);
    assert(y == 'A' <==> y as u8 == 65u8);
    assert(x == 'D' <==> x as u8 == 68u8);
    assert(y == 'D' <==> y as u8 == 68u8);
}

/// When the status output reports an unmerged path, the work tree listing
/// has exactly one entry for it, and that entry is unresolved, whatever the
/// diff and the untracked files said of it.
pub proof fn lemma_unmerged_path_unresolved(
    diff: Seq<char>,
    untracked: Seq<char>,
    status: Seq<char>,
    j: int,
    x: char,
    y: char,
    p: Seq<char>,
)
    requires
        0 <= j < crate::text::lines(status).len(),
        crate::text::lines(status)[j] == seq![x, y, ' '] + p,
        p.len() > 0,
        (x == 'D' && y == 'D') || (x == 'A' && y == 'U') || (x == 'U' && y == 'D') || (x == 'U'
            && y == 'A') || (x == 'D' && y == 'U') || (x == 'A' && y == 'A') || (x == 'U' && y
            == 'U'),
    ensures
        ({
            let out = worktree_files_of(diff, untracked, status);
            &&& path_count(out, p) == 1
            &&& forall|k: int|
                0 <= k < out.len() && out[k].path == p ==> out[k].status == FileStatus::Unresolved
        }),
{
    lemma_unmerged_codes(x, y, p);
    let files = name_status_of(crate::text::lines(diff)) + crate::stgit::untracked_of(
        crate::text::lines(untracked),
    );
    lemma_conflicts_unique(files, crate::text::lines(status), j);
}

// ---------------------------------------------------------------------------
// The status of a patch in the series
// ---------------------------------------------------------------------------

/// Each patch of a series listing comes from a non-empty line of it, and its
/// status follows that line's first character: `+` applied, `>` current,
/// anything else (`-`, or `!` for a hidden patch) unapplied.
pub proof fn lemma_series_statuses(ls: Seq<Seq<char>>)
    ensures
        forall|k: int|
            0 <= k < patches_of(ls).len() ==> exists|j: int|
                0 <= j < ls.len() && ls[j].len() > 0 && #[trigger] patches_of(ls)[k] == patch_of_line(
                    ls[j],
                ) && (patches_of(ls)[k].status == PatchStatus::Applied <==> ls[j][0] == '+') && (
                patches_of(ls)[k].status == PatchStatus::Current <==> ls[j][0] == '>') && (
                patches_of(ls)[k].status == PatchStatus::Unapplied <==> (ls[j][0] != '+'
                && ls[j][0] != '>')),
    decreases ls.len(),
{
    if ls.len() > 0 {
        let p = ls.drop_last();
        lemma_series_statuses(p);
        let q = patches_of(p);
        let r = patches_of(ls);
        assert forall|k: int| 0 <= k < r.len() implies exists|j: int|
            0 <= j < ls.len() && ls[j].len() > 0 && #[trigger] r[k] == patch_of_line(ls[j]) && (
            r[k].status == PatchStatus::Applied <==> ls[j][0] == '+') && (r[k].status
                == PatchStatus::Current <==> ls[j][0] == '>') && (r[k].status
                == PatchStatus::Unapplied <==> (ls[j][0] != '+' && ls[j][0] != '>')) by {
            if k < q.len() {
                assert(r[k] == q[k]);
                let j = choose|j: int|
                    0 <= j < p.len() && p[j].len() > 0 && #[trigger] q[k] == patch_of_line(p[j])
                        && (q[k].status == PatchStatus::Applied <==> p[j][0] == '+') && (q[k].status
                        == PatchStatus::Current <==> p[j][0] == '>') && (q[k].status
                        == PatchStatus::Unapplied <==> (p[j][0] != '+' && p[j][0] != '>'));
                assert(ls[j] == p[j]);
            } else {
                let j = ls.len() - 1;
                assert(r[k] == patch_of_line(ls[j]));
            }
        }
    }
}

// ---------------------------------------------------------------------------
// Confirmation prompts
// ---------------------------------------------------------------------------

/// Submitting the push or force-push prompt runs `git push` (with
/// `--force-with-lease` for a force push) when the answer is exactly `y` or
/// `Y`, and nothing at all otherwise, an empty answer included.
pub proof fn lemma_push_needs_yes(a: App, key: Key, b: App, r: Action)
    requires
        a.mode matches crate::app::AppMode::Input { action, .. } && (action
            == crate::app::InputAction::ConfirmPush || action
            == crate::app::InputAction::ConfirmForcePush),
        key.code == KeyCode::Enter,
        input_effect(a, key, b, r),
    ensures
        ({
            let value = a.mode->Input_value@;
            &&& r is Run <==> (value == seq!['y'] || value == seq!['Y'])
            &&& !(r is Run) ==> r is Nothing
            &&& value.len() == 0 ==> r is Nothing
            &&& r matches Action::Run(v) ==> v@.len() == 1 && v@[0].program == crate::stgit::Program::Git
        }),
{
    let value = a.mode->Input_value@;
    if value.len() == 0 {
        assert(value != seq!['y']);
        assert(value != seq!['Y']);
    }
}

} // verus!
