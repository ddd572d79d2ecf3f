//! The StGit stack model and the parsers that read it from the output of
//! `stg` and `git`.
use vstd::prelude::*;
use vstd::utf8::encode_utf8;
use crate::text::{
    byte_boundary, byte_tail, char_vecs_view, chars_of, decimal, find_from, find_in,
    is_byte_boundary, lines, lines_of, split_lines, string_of, strings_view, tail_from_byte, trim,
    trim_end, trim_end_index, trim_start, trim_start_index, usize_to_string,
};

verus! {

// ---------------------------------------------------------------------------
// Types
// ---------------------------------------------------------------------------

/// Where a patch stands in the stack.
#[derive(Debug, Clone, Copy, PartialEq, Eq, Structural)]
pub enum PatchStatus {
    Applied,
    Current,
    Unapplied,
}

/// One patch of the stack, as `stg series --all --description` lists it.
#[derive(Debug, Clone)]
pub struct Patch {
    pub name: String,
    pub description: String,
    pub status: PatchStatus,
    pub empty: bool,
}

/// The mathematical content of a [`Patch`].
pub struct PatchModel {
    pub name: Seq<char>,
    pub description: Seq<char>,
    pub status: PatchStatus,
    pub empty: bool,
}

impl View for Patch {
    type V = PatchModel;

    open spec fn view(&self) -> PatchModel {
        PatchModel {
            name: self.name@,
            description: self.description@,
            status: self.status,
            empty: self.empty,
        }
    }
}

/// How a file differs.
#[derive(Debug, Clone, Copy, PartialEq, Eq, Structural)]
pub enum FileStatus {
    Modified,
    Added,
    Deleted,
    Renamed,
    Copied,
    Untracked,
    Unresolved,
}

/// A changed file.
#[derive(Debug, Clone)]
pub struct FileEntry {
    pub status: FileStatus,
    pub path: String,
}

/// The mathematical content of a [`FileEntry`].
pub struct FileModel {
    pub status: FileStatus,
    pub path: Seq<char>,
}

impl View for FileEntry {
    type V = FileModel;

    open spec fn view(&self) -> FileModel {
        FileModel { status: self.status, path: self.path@ }
    }
}

/// The checked-out branch and the branch it tracks.
#[derive(Debug, Clone)]
pub struct BranchInfo {
    pub name: String,
    pub upstream: Option<String>,
}

/// Everything the user interface shows of the repository.
#[derive(Debug)]
pub struct StackState {
    pub branch: BranchInfo,
    pub history: Vec<String>,
    pub patches: Vec<Patch>,
    pub index_files: Vec<FileEntry>,
    pub worktree_files: Vec<FileEntry>,
}

/// The raw outputs of the commands whose results make up a [`StackState`].
pub struct RawOutputs {
    /// `git rev-parse --abbrev-ref HEAD`
    pub head: String,
    /// `git rev-parse --abbrev-ref --symbolic-full-name @{u}`, if it could be run
    pub upstream: Option<String>,
    /// `git log --format=%s -N <base>`, if there is a base and the log could be read
    pub history_log: Option<String>,
    /// `stg series --all --description`
    pub series: String,
    /// `git diff --cached --name-status`
    pub index_diff: String,
    /// `git diff --name-status`
    pub worktree_diff: String,
    /// `git ls-files --others --exclude-standard`
    pub untracked: String,
    /// `git status --porcelain`
    pub status: String,
}

pub open spec fn patch_models(v: Seq<Patch>) -> Seq<PatchModel> {
    v.map_values(|p: Patch| p@)
}

pub open spec fn file_models(v: Seq<FileEntry>) -> Seq<FileModel> {
    v.map_values(|f: FileEntry| f@)
}

// ---------------------------------------------------------------------------
// Labels
// ---------------------------------------------------------------------------

pub open spec fn label_of(s: FileStatus) -> Seq<char> {
    match s {
        FileStatus::Modified => "Modified"@,
        FileStatus::Added => "Added"@,
        FileStatus::Deleted => "Deleted"@,
        FileStatus::Renamed => "Renamed"@,
        FileStatus::Copied => "Copied"@,
        FileStatus::Untracked => "Unknown"@,
        FileStatus::Unresolved => "Unresolved"@,
    }
}

impl FileStatus {
    /// The word shown for the status.
    pub fn label(&self) -> (r: &str)
        ensures
            r@ == label_of(*self),
    {
        match self {
            FileStatus::Modified => "Modified",
            FileStatus::Added => "Added",
            FileStatus::Deleted => "Deleted",
            FileStatus::Renamed => "Renamed",
            FileStatus::Copied => "Copied",
            FileStatus::Untracked => "Unknown",
            FileStatus::Unresolved => "Unresolved",
        }
    }
}

// ---------------------------------------------------------------------------
// The patch series
// ---------------------------------------------------------------------------

/// The status that a series line's first character gives.
pub open spec fn status_of_char(c: char) -> PatchStatus {
    if c == '>' {
        PatchStatus::Current
    } else if c == '+' {
        PatchStatus::Applied
    } else {
        PatchStatus::Unapplied
    }
}

/// What separates a patch's name from its description.
pub open spec fn marker() -> Seq<char> {
    seq![' ', '#', ' ']
}

/// A `'0'` after the status character flags an empty patch.
pub open spec fn flags_empty(l: Seq<char>) -> bool {
    l.len() > 1 && l[1] == '0'
}

/// The byte at which name and description start.
pub open spec fn rest_offset(l: Seq<char>) -> int {
    if flags_empty(l) {
        2
    } else {
        1
    }
}

/// The patch that a non-empty series line describes.
pub open spec fn patch_of_line(l: Seq<char>) -> PatchModel {
    let rest = trim_start(byte_tail(l, rest_offset(l)));
    match find_from(rest, marker(), 0) {
        Some(pos) => PatchModel {
            name: trim_end(rest.take(pos as int)),
            description: rest.skip((pos + 3) as int),
            status: status_of_char(l[0]),
            empty: flags_empty(l),
        },
        None => PatchModel {
            name: trim_end(rest),
            description: Seq::<char>::empty(),
            status: status_of_char(l[0]),
            empty: flags_empty(l),
        },
    }
}

/// The patches that the non-empty lines of a series listing describe, in order.
pub open spec fn patches_of(ls: Seq<Seq<char>>) -> Seq<PatchModel>
    decreases ls.len(),
{
    if ls.len() == 0 {
        Seq::empty()
    } else if ls.last().len() == 0 {
        patches_of(ls.drop_last())
    } else {
        patches_of(ls.drop_last()).push(patch_of_line(ls.last()))
    }
}

/// A series line can be cut after its flags (it starts with a one-byte character).
pub open spec fn series_line_ok(l: Seq<char>) -> bool {
    l.len() == 0 || byte_boundary(l, rest_offset(l))
}

pub open spec fn series_ok(s: Seq<char>) -> bool {
    forall|i: int| 0 <= i < lines(s).len() ==> series_line_ok(#[trigger] lines(s)[i])
}

/// Whether every line of a series listing can be read.
pub fn series_readable(output: &str) -> (b: bool)
    ensures
        b == series_ok(output@),
{
    let ls = lines_of(output);
    let mut i: usize = 0;
    while i < ls.len()
        invariant
            strings_view(ls@) == lines(output@),
            i <= ls@.len(),
            forall|k: int| 0 <= k < i ==> series_line_ok(#[trigger] lines(output@)[k]),
        decreases ls@.len() - i,
    {
        let l = ls[i].as_str();
        assert(l@ == lines(output@)[i as int]);
        if !l.is_empty() {
            let v = chars_of(l);
            let off: usize = if v.len() > 1 && v[1] == '0' { 2 } else { 1 };
            if !is_byte_boundary(l, off) {
                return false;
            }
        }
        i += 1;
    }
    true
}

fn parse_patch_line(line: &String) -> (p: Patch)
    requires
        line@.len() > 0,
        series_line_ok(line@),
    ensures
        p@ == patch_of_line(line@),
{
    let s = line.as_str();
    let cs = chars_of(s);
    let status = if cs[0] == '>' {
        PatchStatus::Current
    } else if cs[0] == '+' {
        PatchStatus::Applied
    } else {
        PatchStatus::Unapplied
    };
    let empty = cs.len() > 1 && cs[1] == '0';
    let off: usize = if empty { 2 } else { 1 };
    let tail = tail_from_byte(s, off);
    let rv = chars_of(tail.as_str());
    let n = rv.len();
    let a = trim_start_index(&rv, 0, n);
    assert(rv@.subrange(0, n as int) =~= rv@);
    let ghost rest = rv@.skip(a as int);
    assert(rest =~= rv@.subrange(a as int, n as int));
    let mark: Vec<char> = vec![' ', '#', ' '];
    assert(mark@ =~= marker());
    match find_in(&rv, a, &mark) {
        Some(pos) => {
            let e = trim_end_index(&rv, a, a + pos);
            assert(rest.take(pos as int) =~= rv@.subrange(a as int, a + pos));
            assert(rest.skip(pos + 3) =~= rv@.subrange(a + pos + 3, n as int));
            Patch {
                name: string_of(&rv, a, e),
                description: string_of(&rv, a + pos + 3, n),
                status,
                empty,
            }
        },
        None => {
            let e = trim_end_index(&rv, a, n);
            Patch { name: string_of(&rv, a, e), description: String::new(), status, empty }
        },
    }
}

/// The patches of the stack, read from `stg series --all --description`.
pub fn get_patches(series_output: &str) -> (res: Vec<Patch>)
    requires
        series_ok(series_output@),
    ensures
        patch_models(res@) == patches_of(lines(series_output@)),
{
    let ls = lines_of(series_output);
    let ghost all = lines(series_output@);
    let mut patches: Vec<Patch> = Vec::new();
    for i in 0..ls.len()
        invariant
            strings_view(ls@) == all,
            all == lines(series_output@),
            series_ok(series_output@),
            patch_models(patches@) == patches_of(all.take(i as int)),
    {
        assert(all.take(i + 1).drop_last() =~= all.take(i as int));
        let line = &ls[i];
        assert(line@ == all[i as int]);
        assert(series_line_ok(all[i as int]));
        if !line.as_str().is_empty() {
            let p = parse_patch_line(line);
            patches.push(p);
        }
        assert(patch_models(patches@) =~= patches_of(all.take(i + 1)));
    }
    assert(all.take(ls@.len() as int) =~= all);
    patches
}

// ---------------------------------------------------------------------------
// Changed files
// ---------------------------------------------------------------------------

/// The status that the first character of a `--name-status` or `stg files` line gives.
pub open spec fn file_status_of_char(c: char) -> FileStatus {
    if c == 'M' {
        FileStatus::Modified
    } else if c == 'A' {
        FileStatus::Added
    } else if c == 'D' {
        FileStatus::Deleted
    } else if c == 'R' {
        FileStatus::Renamed
    } else if c == 'C' {
        FileStatus::Copied
    } else {
        FileStatus::Modified
    }
}

fn file_status_of(c: char) -> (s: FileStatus)
    ensures
        s == file_status_of_char(c),
{
    if c == 'M' {
        FileStatus::Modified
    } else if c == 'A' {
        FileStatus::Added
    } else if c == 'D' {
        FileStatus::Deleted
    } else if c == 'R' {
        FileStatus::Renamed
    } else if c == 'C' {
        FileStatus::Copied
    } else {
        FileStatus::Modified
    }
}

pub open spec fn tab() -> Seq<char> {
    seq!['\t']
}

/// What follows the first tab, or nothing (`split_once('\t')`).
pub open spec fn after_tab(s: Seq<char>) -> Seq<char> {
    match find_from(s, tab(), 0) {
        Some(k) => s.skip((k + 1) as int),
        None => Seq::<char>::empty(),
    }
}

/// What follows the first tab, or all of it (`splitn(2, '\t').last()`).
pub open spec fn after_tab_or_all(s: Seq<char>) -> Seq<char> {
    match find_from(s, tab(), 0) {
        Some(k) => s.skip((k + 1) as int),
        None => s,
    }
}

/// The entry that a non-empty `--name-status` line gives; a rename or copy
/// names its new path.
pub open spec fn name_status_entry(l: Seq<char>) -> FileModel {
    let status = file_status_of_char(l[0]);
    let p = after_tab(l);
    FileModel {
        status,
        path: if status == FileStatus::Renamed || status == FileStatus::Copied {
            after_tab_or_all(p)
        } else {
            p
        },
    }
}

/// The entries of a `--name-status` listing: one per non-empty line with a non-empty path.
pub open spec fn name_status_of(ls: Seq<Seq<char>>) -> Seq<FileModel>
    decreases ls.len(),
{
    if ls.len() == 0 {
        Seq::empty()
    } else if ls.last().len() == 0 || name_status_entry(ls.last()).path.len() == 0 {
        name_status_of(ls.drop_last())
    } else {
        name_status_of(ls.drop_last()).push(name_status_entry(ls.last()))
    }
}

fn name_status_line(v: &Vec<char>) -> (f: FileEntry)
    requires
        v@.len() > 0,
    ensures
        f@ == name_status_entry(v@),
{
    let status = file_status_of(v[0]);
    let tabv: Vec<char> = vec!['\t'];
    assert(tabv@ =~= tab());
    assert(v@.skip(0) =~= v@);
    let n = v.len();
    let start: usize = match find_in(v, 0, &tabv) {
        Some(k) => k + 1,
        None => n,
    };
    let ghost p = after_tab(v@);
    assert(p =~= v@.subrange(start as int, n as int));
    if status == FileStatus::Renamed || status == FileStatus::Copied {
        assert(v@.skip(start as int) =~= p);
        match find_in(v, start, &tabv) {
            Some(k) => {
                assert(p.skip(k + 1) =~= v@.subrange(start + k + 1, n as int));
                FileEntry { status, path: string_of(v, start + k + 1, n) }
            },
            None => FileEntry { status, path: string_of(v, start, n) },
        }
    } else {
        FileEntry { status, path: string_of(v, start, n) }
    }
}

fn parse_name_status(output: &str) -> (files: Vec<FileEntry>)
    ensures
        file_models(files@) == name_status_of(lines(output@)),
{
    let ls = split_lines(&chars_of(output));
    let ghost all = lines(output@);
    let mut files: Vec<FileEntry> = Vec::new();
    for i in 0..ls.len()
        invariant
            char_vecs_view(ls@) == all,
            file_models(files@) == name_status_of(all.take(i as int)),
    {
        assert(all.take(i + 1).drop_last() =~= all.take(i as int));
        let line = &ls[i];
        assert(line@ == all[i as int]);
        if line.len() > 0 {
            let f = name_status_line(line);
            if !f.path.as_str().is_empty() {
                files.push(f);
            }
        }
        assert(file_models(files@) =~= name_status_of(all.take(i + 1)));
    }
    assert(all.take(ls@.len() as int) =~= all);
    files
}

/// The files staged in the index, read from `git diff --cached --name-status`.
pub fn get_index_files(diff_output: &str) -> (files: Vec<FileEntry>)
    ensures
        file_models(files@) == name_status_of(lines(diff_output@)),
{
    parse_name_status(diff_output)
}

/// The entry that a non-empty `stg files` line gives.
pub open spec fn patch_file_entry(l: Seq<char>) -> FileModel {
    FileModel { status: file_status_of_char(l[0]), path: trim(byte_tail(l, 1)) }
}

/// The entries of an `stg files` listing: one per non-empty line with a non-empty path.
pub open spec fn patch_files_of(ls: Seq<Seq<char>>) -> Seq<FileModel>
    decreases ls.len(),
{
    if ls.len() == 0 {
        Seq::empty()
    } else if ls.last().len() == 0 || patch_file_entry(ls.last()).path.len() == 0 {
        patch_files_of(ls.drop_last())
    } else {
        patch_files_of(ls.drop_last()).push(patch_file_entry(ls.last()))
    }
}

pub open spec fn patch_files_ok(s: Seq<char>) -> bool {
    forall|i: int|
        0 <= i < lines(s).len() ==> (#[trigger] lines(s)[i]).len() == 0 || byte_boundary(
            lines(s)[i],
            1,
        )
}

/// Whether every line of an `stg files` listing can be read.
pub fn patch_files_readable(output: &str) -> (b: bool)
    ensures
        b == patch_files_ok(output@),
{
    let ls = lines_of(output);
    let mut i: usize = 0;
    while i < ls.len()
        invariant
            strings_view(ls@) == lines(output@),
            i <= ls@.len(),
            forall|k: int|
                0 <= k < i ==> (#[trigger] lines(output@)[k]).len() == 0 || byte_boundary(
                    lines(output@)[k],
                    1,
                ),
        decreases ls@.len() - i,
    {
        let l = ls[i].as_str();
        assert(l@ == lines(output@)[i as int]);
        if !l.is_empty() && !is_byte_boundary(l, 1) {
            return false;
        }
        i += 1;
    }
    true
}

/// `s` without whitespace at either end.
pub fn trimmed(s: &str) -> (r: String)
    ensures
        r@ == trim(s@),
{
    let v = chars_of(s);
    let n = v.len();
    let a = trim_start_index(&v, 0, n);
    let e = trim_end_index(&v, a, n);
    assert(v@.subrange(0, n as int) =~= v@);
    string_of(&v, a, e)
}

/// The files that a patch touches, read from `stg files <patch>`.
pub fn get_patch_files(files_output: &str) -> (files: Vec<FileEntry>)
    requires
        patch_files_ok(files_output@),
    ensures
        file_models(files@) == patch_files_of(lines(files_output@)),
{
    let ls = lines_of(files_output);
    let ghost all = lines(files_output@);
    let mut files: Vec<FileEntry> = Vec::new();
    for i in 0..ls.len()
        invariant
            strings_view(ls@) == all,
            all == lines(files_output@),
            patch_files_ok(files_output@),
            file_models(files@) == patch_files_of(all.take(i as int)),
    {
        assert(all.take(i + 1).drop_last() =~= all.take(i as int));
        let line = ls[i].as_str();
        assert(line@ == all[i as int]);
        if !line.is_empty() {
            let cs = chars_of(line);
            let status = file_status_of(cs[0]);
            let rest = tail_from_byte(line, 1);
            let path = trimmed(rest.as_str());
            if !path.as_str().is_empty() {
                files.push(FileEntry { status, path });
            }
        }
        assert(file_models(files@) =~= patch_files_of(all.take(i + 1)));
    }
    assert(all.take(ls@.len() as int) =~= all);
    files
}

// ---------------------------------------------------------------------------
// The work tree
// ---------------------------------------------------------------------------

/// The two status letters of `git status --porcelain` that mark an unmerged path.
pub open spec fn unresolved_code(x: u8, y: u8) -> bool {
    x == 85 || y == 85 || (x == 65 && y == 65) || (x == 68 && y == 68)
}

fn parse_status_code(x: u8, y: u8) -> (r: Option<FileStatus>)
    ensures
        r == (if unresolved_code(x, y) {
            Some(FileStatus::Unresolved)
        } else {
            None
        }),
{
    if x == 85 || y == 85 || (x == 65 && y == 65) || (x == 68 && y == 68) {
        Some(FileStatus::Unresolved)
    } else {
        None
    }
}

/// The unmerged path that a porcelain status line reports, if it reports one:
/// lines of four bytes or more whose status letters mark a conflict name the
/// path that starts at byte 3.
pub open spec fn conflict_path(l: Seq<char>) -> Option<Seq<char>> {
    let b = encode_utf8(l);
    if b.len() >= 4 && unresolved_code(b[0], b[1]) {
        Some(byte_tail(l, 3))
    } else {
        None
    }
}

pub open spec fn status_line_ok(l: Seq<char>) -> bool {
    let b = encode_utf8(l);
    (b.len() >= 4 && unresolved_code(b[0], b[1])) ==> byte_boundary(l, 3)
}

pub open spec fn status_ok(s: Seq<char>) -> bool {
    forall|i: int| 0 <= i < lines(s).len() ==> status_line_ok(#[trigger] lines(s)[i])
}

/// Whether every line of `git status --porcelain` output can be read.
pub fn status_readable(output: &str) -> (b: bool)
    ensures
        b == status_ok(output@),
{
    let ls = lines_of(output);
    let mut i: usize = 0;
    while i < ls.len()
        invariant
            strings_view(ls@) == lines(output@),
            i <= ls@.len(),
            forall|k: int| 0 <= k < i ==> status_line_ok(#[trigger] lines(output@)[k]),
        decreases ls@.len() - i,
    {
        let l = ls[i].as_str();
        assert(l@ == lines(output@)[i as int]);
        let bytes = l.as_bytes();
        if bytes.len() >= 4 && parse_status_code(bytes[0], bytes[1]).is_some() && !is_byte_boundary(
            l,
            3,
        ) {
            return false;
        }
        i += 1;
    }
    true
}

/// The untracked files of `git ls-files --others`: one per non-empty line.
pub open spec fn untracked_of(ls: Seq<Seq<char>>) -> Seq<FileModel>
    decreases ls.len(),
{
    if ls.len() == 0 {
        Seq::empty()
    } else if ls.last().len() == 0 {
        untracked_of(ls.drop_last())
    } else {
        untracked_of(ls.drop_last()).push(FileModel { status: FileStatus::Untracked, path: ls.last() })
    }
}

/// `files` without the entries for path `p`, in order.
pub open spec fn without_path(files: Seq<FileModel>, p: Seq<char>) -> Seq<FileModel>
    decreases files.len(),
{
    if files.len() == 0 {
        Seq::empty()
    } else if files.last().path == p {
        without_path(files.drop_last(), p)
    } else {
        without_path(files.drop_last(), p).push(files.last())
    }
}

/// `files` after each conflict that the status lines report has replaced the
/// entries for its path by one unresolved entry at the end.
pub open spec fn mark_conflicts(files: Seq<FileModel>, ls: Seq<Seq<char>>) -> Seq<FileModel>
    decreases ls.len(),
{
    if ls.len() == 0 {
        files
    } else {
        let f = mark_conflicts(files, ls.drop_last());
        match conflict_path(ls.last()) {
            Some(p) => without_path(f, p).push(FileModel { status: FileStatus::Unresolved, path: p }),
            None => f,
        }
    }
}

pub open spec fn worktree_files_of(diff: Seq<char>, untracked: Seq<char>, status: Seq<char>) -> Seq<
    FileModel,
> {
    mark_conflicts(name_status_of(lines(diff)) + untracked_of(lines(untracked)), lines(status))
}

fn remove_path(files: &mut Vec<FileEntry>, p: &String)
    ensures
        file_models(final(files)@) == without_path(file_models(old(files)@), p@),
{
    let ghost orig = file_models(files@);
    let mut kept: Vec<FileEntry> = Vec::new();
    let mut old_files: Vec<FileEntry> = Vec::new();
    std::mem::swap(files, &mut old_files);
    assert(file_models(old_files@) == orig);
    let mut i: usize = 0;
    while i < old_files.len()
        invariant
            i <= old_files@.len(),
            file_models(old_files@) == orig,
            file_models(kept@) == without_path(orig.take(i as int), p@),
        decreases old_files@.len() - i,
    {
        assert(orig.take(i + 1).drop_last() =~= orig.take(i as int));
        assert(orig[i as int] == old_files@[i as int]@);
        if !(old_files[i].path == *p) {
            kept.push(old_files[i].clone_entry());
        }
        assert(file_models(kept@) =~= without_path(orig.take(i + 1), p@));
        i += 1;
    }
    assert(orig.take(old_files@.len() as int) =~= orig);
    *files = kept;
}

impl FileEntry {
    /// A copy of the entry.
    pub fn clone_entry(&self) -> (r: FileEntry)
        ensures
            r@ == self@,
    {
        FileEntry { status: self.status, path: self.path.clone() }
    }
}

/// The files changed in the work tree: those of `git diff --name-status`, then
/// the untracked ones, then each conflict of `git status --porcelain` in place
/// of any earlier entry for its path.
pub fn get_worktree_files(diff_output: &str, untracked_output: &str, status_output: &str) -> (files:
    Vec<FileEntry>)
    requires
        status_ok(status_output@),
    ensures
        file_models(files@) == worktree_files_of(diff_output@, untracked_output@, status_output@),
{
    let mut files = parse_name_status(diff_output);
    let ghost base = file_models(files@);
    let ul = lines_of(untracked_output);
    let ghost us = lines(untracked_output@);
    for i in 0..ul.len()
        invariant
            strings_view(ul@) == us,
            file_models(files@) == base + untracked_of(us.take(i as int)),
    {
        assert(us.take(i + 1).drop_last() =~= us.take(i as int));
        let line = &ul[i];
        assert(line@ == us[i as int]);
        if !line.as_str().is_empty() {
            let path = line.clone();
            let ghost before = file_models(files@);
            files.push(FileEntry { status: FileStatus::Untracked, path });
            assert(file_models(files@) =~= before.push(
                FileModel { status: FileStatus::Untracked, path: us[i as int] },
            ));
            assert(us.take(i + 1).last() == us[i as int]);
        }
        assert(file_models(files@) =~= base + untracked_of(us.take(i + 1)));
    }
    assert(us.take(ul@.len() as int) =~= us);
    let ghost start = file_models(files@);
    let sl = lines_of(status_output);
    let ghost ss = lines(status_output@);
    for i in 0..sl.len()
        invariant
            strings_view(sl@) == ss,
            ss == lines(status_output@),
            status_ok(status_output@),
            file_models(files@) == mark_conflicts(start, ss.take(i as int)),
    {
        assert(ss.take(i + 1).drop_last() =~= ss.take(i as int));
        let line = sl[i].as_str();
        assert(line@ == ss[i as int]);
        assert(status_line_ok(ss[i as int]));
        let bytes = line.as_bytes();
        assert(ss.take(i + 1).last() == ss[i as int]);
        assert(bytes@ == encode_utf8(ss[i as int]));
        if bytes.len() >= 4 {
            if let Some(FileStatus::Unresolved) = parse_status_code(bytes[0], bytes[1]) {
                let path = tail_from_byte(line, 3);
                remove_path(&mut files, &path);
                files.push(FileEntry { status: FileStatus::Unresolved, path });
            }
        }
        assert(file_models(files@) =~= mark_conflicts(start, ss.take(i + 1)));
    }
    assert(ss.take(sl@.len() as int) =~= ss);
    files
}

// ---------------------------------------------------------------------------
// Branch and history
// ---------------------------------------------------------------------------

/// The current branch: its name from `git rev-parse --abbrev-ref HEAD`, and the
/// upstream from `@{u}` when that command ran and printed a name.
pub fn get_branch_info(head_output: &str, upstream_output: Option<&str>) -> (b: BranchInfo)
    ensures
        b.name@ == trim(head_output@),
        match upstream_output {
            Some(u) => if trim(u@).len() > 0 {
                b.upstream is Some && b.upstream->0@ == trim(u@)
            } else {
                b.upstream is None
            },
            None => b.upstream is None,
        },
{
    let name = trimmed(head_output);
    let upstream = match upstream_output {
        Some(u) => {
            let t = trimmed(u);
            if !t.as_str().is_empty() {
                Some(t)
            } else {
                None
            }
        },
        None => None,
    };
    BranchInfo { name, upstream }
}

/// The stack base from `stg id {base}`: its trimmed output, or none when the
/// command failed or printed nothing.
pub fn history_base(id_output: Option<&str>) -> (base: Option<String>)
    ensures
        match id_output {
            Some(o) => if trim(o@).len() > 0 {
                base is Some && base->0@ == trim(o@)
            } else {
                base is None
            },
            None => base is None,
        },
{
    match id_output {
        Some(o) => {
            let t = trimmed(o);
            if !t.as_str().is_empty() {
                Some(t)
            } else {
                None
            }
        },
        None => None,
    }
}

/// The subjects of the commits below the stack, one per line of `git log --format=%s`.
pub fn get_history(log_output: &str) -> (h: Vec<String>)
    ensures
        strings_view(h@) == lines(log_output@),
{
    lines_of(log_output)
}

// ---------------------------------------------------------------------------
// Branch list
// ---------------------------------------------------------------------------

/// `s` without the leading run of `c` (`trim_start_matches(c)`).
pub open spec fn strip_leading(s: Seq<char>, c: char) -> Seq<char>
    decreases s.len(),
{
    if s.len() > 0 && s[0] == c {
        strip_leading(s.drop_first(), c)
    } else {
        s
    }
}

/// `s` up to the first `c` (`split(c).next()`).
pub open spec fn before_first(s: Seq<char>, c: char) -> Seq<char> {
    match find_from(s, seq![c], 0) {
        Some(k) => s.take(k as int),
        None => s,
    }
}

/// The branch that a line of `stg branch --list` names (`"> name | description"`).
pub open spec fn branch_name_of(l: Seq<char>) -> Seq<char> {
    trim(before_first(trim(strip_leading(trim(l), '>')), '|'))
}

/// The branch names of a listing: one per line that names a branch.
pub open spec fn branch_names_of(ls: Seq<Seq<char>>) -> Seq<Seq<char>>
    decreases ls.len(),
{
    if ls.len() == 0 {
        Seq::empty()
    } else if branch_name_of(ls.last()).len() == 0 {
        branch_names_of(ls.drop_last())
    } else {
        branch_names_of(ls.drop_last()).push(branch_name_of(ls.last()))
    }
}

fn branch_name_line(v: &Vec<char>) -> (r: String)
    ensures
        r@ == branch_name_of(v@),
{
    let n = v.len();
    assert(v@.subrange(0, n as int) =~= v@);
    let a0 = trim_start_index(v, 0, n);
    let e0 = trim_end_index(v, a0, n);
    let ghost t0 = v@.subrange(a0 as int, e0 as int);
    let mut a1 = a0;
    while a1 < e0 && v[a1] == '>'
        invariant
            a0 <= a1 <= e0 <= n == v@.len(),
            strip_leading(t0, '>') == strip_leading(v@.subrange(a1 as int, e0 as int), '>'),
        decreases e0 - a1,
    {
        assert(v@.subrange(a1 as int, e0 as int).drop_first() =~= v@.subrange(a1 + 1, e0 as int));
        a1 += 1;
    }
    let a2 = trim_start_index(v, a1, e0);
    let e2 = trim_end_index(v, a2, e0);
    let ghost t2 = v@.subrange(a2 as int, e2 as int);
    let bar: Vec<char> = vec!['|'];
    let mut part: Vec<char> = Vec::new();
    let mut k = a2;
    while k < e2
        invariant
            a2 <= k <= e2 <= n == v@.len(),
            part@ == v@.subrange(a2 as int, k as int),
        decreases e2 - k,
    {
        part.push(v[k]);
        assert(part@ =~= v@.subrange(a2 as int, k + 1));
        k += 1;
    }
    assert(part@ == t2);
    assert(part@.skip(0) =~= part@);
    assert(bar@ =~= seq!['|']);
    let cut = match find_in(&part, 0, &bar) {
        Some(p) => p,
        None => part.len(),
    };
    assert(part@.take(cut as int) == before_first(t2, '|'));
    let pl = part.len();
    assert(part@.take(cut as int) =~= part@.subrange(0, cut as int));
    let a3 = trim_start_index(&part, 0, cut);
    let e3 = trim_end_index(&part, a3, cut);
    string_of(&part, a3, e3)
}

/// The branch names that `stg branch --list` prints.
pub fn stg_branch_list(list_output: &str) -> (names: Vec<String>)
    ensures
        strings_view(names@) == branch_names_of(lines(list_output@)),
{
    let ls = split_lines(&chars_of(list_output));
    let ghost all = lines(list_output@);
    let mut names: Vec<String> = Vec::new();
    for i in 0..ls.len()
        invariant
            char_vecs_view(ls@) == all,
            strings_view(names@) == branch_names_of(all.take(i as int)),
    {
        assert(all.take(i + 1).drop_last() =~= all.take(i as int));
        assert(ls@[i as int]@ == all[i as int]);
        let name = branch_name_line(&ls[i]);
        if !name.as_str().is_empty() {
            names.push(name);
        }
        assert(strings_view(names@) =~= branch_names_of(all.take(i + 1)));
    }
    assert(all.take(ls@.len() as int) =~= all);
    names
}

// ---------------------------------------------------------------------------
// The whole state
// ---------------------------------------------------------------------------

pub open spec fn raw_ok(raw: RawOutputs) -> bool {
    series_ok(raw.series@) && status_ok(raw.status@)
}

/// The stack state that a set of command outputs describes.
pub fn load_state(raw: &RawOutputs) -> (st: StackState)
    requires
        raw_ok(*raw),
    ensures
        st.branch.name@ == trim(raw.head@),
        match raw.upstream {
            Some(u) => if trim(u@).len() > 0 {
                st.branch.upstream is Some && st.branch.upstream->0@ == trim(u@)
            } else {
                st.branch.upstream is None
            },
            None => st.branch.upstream is None,
        },
        strings_view(st.history@) == (match raw.history_log {
            Some(h) => lines(h@),
            None => Seq::<Seq<char>>::empty(),
        }),
        patch_models(st.patches@) == patches_of(lines(raw.series@)),
        file_models(st.index_files@) == name_status_of(lines(raw.index_diff@)),
        file_models(st.worktree_files@) == worktree_files_of(
            raw.worktree_diff@,
            raw.untracked@,
            raw.status@,
        ),
{
    let upstream: Option<&str> = match &raw.upstream {
        Some(u) => Some(u.as_str()),
        None => None,
    };
    let branch = get_branch_info(raw.head.as_str(), upstream);
    let history = match &raw.history_log {
        Some(h) => get_history(h.as_str()),
        None => Vec::new(),
    };
    assert(strings_view(Seq::<String>::empty()) =~= Seq::<Seq<char>>::empty());
    let patches = get_patches(raw.series.as_str());
    let index_files = get_index_files(raw.index_diff.as_str());
    let worktree_files = get_worktree_files(
        raw.worktree_diff.as_str(),
        raw.untracked.as_str(),
        raw.status.as_str(),
    );
    StackState { branch, history, patches, index_files, worktree_files }
}


// ---------------------------------------------------------------------------
// Command lines
// ---------------------------------------------------------------------------


/// The program that a command line runs.
#[derive(Debug, Clone, Copy, PartialEq, Eq, Structural)]
pub enum Program {
    Git,
    Stg,
}

/// A program with its arguments.
#[derive(Debug)]
pub struct CmdLine {
    pub program: Program,
    pub args: Vec<String>,
}

/// The arguments of a command line.
pub open spec fn args_of(c: CmdLine) -> Seq<Seq<char>> {
    strings_view(c.args@)
}

/// The command line `program args`, spelled out.
pub open spec fn is_cmd(c: CmdLine, program: Program, args: Seq<Seq<char>>) -> bool {
    c.program == program && args_of(c) == args
}

fn push_arg(v: &mut Vec<String>, a: &str)
    ensures
        strings_view(final(v)@) == strings_view(old(v)@).push(a@),
{
    v.push(a.to_owned());
    assert(strings_view(final(v)@) =~= strings_view(old(v)@).push(a@));
}

fn push_args(v: &mut Vec<String>, xs: &[String])
    ensures
        strings_view(final(v)@) == strings_view(old(v)@) + strings_view(xs@),
{
    let ghost start = strings_view(v@);
    let mut i: usize = 0;
    while i < xs.len()
        invariant
            i <= xs@.len(),
            strings_view(v@) == start + strings_view(xs@).take(i as int),
        decreases xs@.len() - i,
    {
        let x = xs[i].clone();
        assert(x@ == strings_view(xs@)[i as int]);
        let ghost before = v@;
        v.push(x);
        assert(strings_view(v@) =~= strings_view(before).push(x@));
        assert(strings_view(xs@).take(i + 1) =~= strings_view(xs@).take(i as int).push(x@));
        assert(start + strings_view(xs@).take(i + 1) =~= (start + strings_view(xs@).take(
            i as int,
        )).push(x@));
        i += 1;
    }
    assert(strings_view(xs@).take(i as int) =~= strings_view(xs@));
}

fn cmd1(program: Program, a: &str) -> (c: CmdLine)
    ensures
        is_cmd(c, program, seq![a@]),
{
    let mut args: Vec<String> = Vec::new();
    push_arg(&mut args, a);
    assert(strings_view(args@) =~= seq![a@]);
    CmdLine { program, args }
}

fn cmd2(program: Program, a: &str, b: &str) -> (c: CmdLine)
    ensures
        is_cmd(c, program, seq![a@, b@]),
{
    let mut args: Vec<String> = Vec::new();
    push_arg(&mut args, a);
    push_arg(&mut args, b);
    assert(strings_view(args@) =~= seq![a@, b@]);
    CmdLine { program, args }
}

fn cmd3(program: Program, a: &str, b: &str, c: &str) -> (r: CmdLine)
    ensures
        is_cmd(r, program, seq![a@, b@, c@]),
{
    let mut args: Vec<String> = Vec::new();
    push_arg(&mut args, a);
    push_arg(&mut args, b);
    push_arg(&mut args, c);
    assert(strings_view(args@) =~= seq![a@, b@, c@]);
    CmdLine { program, args }
}

fn cmd4(program: Program, a: &str, b: &str, c: &str, d: &str) -> (r: CmdLine)
    ensures
        is_cmd(r, program, seq![a@, b@, c@, d@]),
{
    let mut args: Vec<String> = Vec::new();
    push_arg(&mut args, a);
    push_arg(&mut args, b);
    push_arg(&mut args, c);
    push_arg(&mut args, d);
    assert(strings_view(args@) =~= seq![a@, b@, c@, d@]);
    CmdLine { program, args }
}

fn verb_and_names(program: Program, verb: &str, names: &[String]) -> (c: CmdLine)
    ensures
        is_cmd(c, program, seq![verb@] + strings_view(names@)),
{
    let mut args: Vec<String> = Vec::new();
    push_arg(&mut args, verb);
    push_args(&mut args, names);
    assert(strings_view(args@) =~= seq![verb@] + strings_view(names@));
    CmdLine { program, args }
}

// ---------------------------------------------------------------------------
// Reading the state
// ---------------------------------------------------------------------------

/// `git rev-parse --abbrev-ref HEAD`
pub fn head_command() -> (c: CmdLine)
    ensures
        is_cmd(c, Program::Git, seq!["rev-parse"@, "--abbrev-ref"@, "HEAD"@]),
{
    cmd3(Program::Git, "rev-parse", "--abbrev-ref", "HEAD")
}

/// `git rev-parse --abbrev-ref --symbolic-full-name @{u}`
pub fn upstream_command() -> (c: CmdLine)
    ensures
        is_cmd(
            c,
            Program::Git,
            seq!["rev-parse"@, "--abbrev-ref"@, "--symbolic-full-name"@, "@{u}"@],
        ),
{
    cmd4(Program::Git, "rev-parse", "--abbrev-ref", "--symbolic-full-name", "@{u}")
}

/// `stg id {base}`
pub fn base_command() -> (c: CmdLine)
    ensures
        is_cmd(c, Program::Stg, seq!["id"@, "{base}"@]),
{
    cmd2(Program::Stg, "id", "{base}")
}

/// `git log --format=%s -<count> <base>`: the subjects of the `count` commits below the base.
pub fn history_log_command(count: usize, base: &str) -> (c: CmdLine)
    ensures
        is_cmd(
            c,
            Program::Git,
            seq!["log"@, "--format=%s"@, seq!['-'] + decimal(count as nat), base@],
        ),
{
    let mut limit = String::new();
    crate::text::push_char(&mut limit, '-');
    crate::text::push_decimal(&mut limit, count);
    assert(limit@ =~= seq!['-'] + decimal(count as nat));
    cmd4(Program::Git, "log", "--format=%s", limit.as_str(), base)
}

/// `stg series --all --description`
pub fn series_command() -> (c: CmdLine)
    ensures
        is_cmd(c, Program::Stg, seq!["series"@, "--all"@, "--description"@]),
{
    cmd3(Program::Stg, "series", "--all", "--description")
}

/// `git diff --cached --name-status`
pub fn index_diff_command() -> (c: CmdLine)
    ensures
        is_cmd(c, Program::Git, seq!["diff"@, "--cached"@, "--name-status"@]),
{
    cmd3(Program::Git, "diff", "--cached", "--name-status")
}

/// `git diff --name-status`
pub fn worktree_diff_command() -> (c: CmdLine)
    ensures
        is_cmd(c, Program::Git, seq!["diff"@, "--name-status"@]),
{
    cmd2(Program::Git, "diff", "--name-status")
}

/// `git ls-files --others --exclude-standard`
pub fn untracked_command() -> (c: CmdLine)
    ensures
        is_cmd(c, Program::Git, seq!["ls-files"@, "--others"@, "--exclude-standard"@]),
{
    cmd3(Program::Git, "ls-files", "--others", "--exclude-standard")
}

/// `git status --porcelain`
pub fn status_command() -> (c: CmdLine)
    ensures
        is_cmd(c, Program::Git, seq!["status"@, "--porcelain"@]),
{
    cmd2(Program::Git, "status", "--porcelain")
}

/// `stg files <patch>`
pub fn patch_files_command(patch: &str) -> (c: CmdLine)
    ensures
        is_cmd(c, Program::Stg, seq!["files"@, patch@]),
{
    cmd2(Program::Stg, "files", patch)
}

/// `stg branch --list`
pub fn branch_list_command() -> (c: CmdLine)
    ensures
        is_cmd(c, Program::Stg, seq!["branch"@, "--list"@]),
{
    cmd2(Program::Stg, "branch", "--list")
}

// ---------------------------------------------------------------------------
// Operations
// ---------------------------------------------------------------------------

/// `stg refresh`, or `stg refresh -p <patch>`.
pub fn stg_refresh(patch: Option<&str>) -> (c: CmdLine)
    ensures
        is_cmd(
            c,
            Program::Stg,
            match patch {
                Some(p) => seq!["refresh"@, "-p"@, p@],
                None => seq!["refresh"@],
            },
        ),
{
    match patch {
        Some(p) => cmd3(Program::Stg, "refresh", "-p", p),
        None => cmd1(Program::Stg, "refresh"),
    }
}

/// `stg goto <patch>`
pub fn stg_goto(patch: &str) -> (c: CmdLine)
    ensures
        is_cmd(c, Program::Stg, seq!["goto"@, patch@]),
{
    cmd2(Program::Stg, "goto", patch)
}

/// `stg push <patches>`
pub fn stg_push(patches: &[String]) -> (c: CmdLine)
    ensures
        is_cmd(c, Program::Stg, seq!["push"@] + strings_view(patches@)),
{
    verb_and_names(Program::Stg, "push", patches)
}

/// `stg pop <patches>`
pub fn stg_pop(patches: &[String]) -> (c: CmdLine)
    ensures
        is_cmd(c, Program::Stg, seq!["pop"@] + strings_view(patches@)),
{
    verb_and_names(Program::Stg, "pop", patches)
}

/// `stg pop`: pops the topmost applied patch.
pub fn stg_pop_current() -> (c: CmdLine)
    ensures
        is_cmd(c, Program::Stg, seq!["pop"@]),
{
    cmd1(Program::Stg, "pop")
}

/// `stg push`: pushes the next unapplied patch.
pub fn stg_push_one() -> (c: CmdLine)
    ensures
        is_cmd(c, Program::Stg, seq!["push"@]),
{
    cmd1(Program::Stg, "push")
}

/// `stg new -m <message>`
pub fn stg_new(message: &str) -> (c: CmdLine)
    ensures
        is_cmd(c, Program::Stg, seq!["new"@, "-m"@, message@]),
{
    cmd3(Program::Stg, "new", "-m", message)
}

/// `stg delete <patches>`
pub fn stg_delete(patches: &[String]) -> (c: CmdLine)
    ensures
        is_cmd(c, Program::Stg, seq!["delete"@] + strings_view(patches@)),
{
    verb_and_names(Program::Stg, "delete", patches)
}

/// `stg squash <patches>`
pub fn stg_squash(patches: &[String]) -> (c: CmdLine)
    ensures
        is_cmd(c, Program::Stg, seq!["squash"@] + strings_view(patches@)),
{
    verb_and_names(Program::Stg, "squash", patches)
}

/// `stg float <patches>`
pub fn stg_float(patches: &[String]) -> (c: CmdLine)
    ensures
        is_cmd(c, Program::Stg, seq!["float"@] + strings_view(patches@)),
{
    verb_and_names(Program::Stg, "float", patches)
}

/// `stg sink [-t <target>] <patches>`
pub fn stg_sink(patches: &[String], target: Option<&str>) -> (c: CmdLine)
    ensures
        is_cmd(
            c,
            Program::Stg,
            match target {
                Some(t) => seq!["sink"@, "-t"@, t@],
                None => seq!["sink"@],
            } + strings_view(patches@),
        ),
{
    let mut args: Vec<String> = Vec::new();
    push_arg(&mut args, "sink");
    if let Some(t) = target {
        push_arg(&mut args, "-t");
        push_arg(&mut args, t);
    }
    push_args(&mut args, patches);
    let ghost head = match target {
        Some(t) => seq!["sink"@, "-t"@, t@],
        None => seq!["sink"@],
    };
    assert(strings_view(args@) =~= head + strings_view(patches@));
    CmdLine { program: Program::Stg, args }
}

/// `stg undo`, or `stg undo --hard`.
pub fn stg_undo(hard: bool) -> (c: CmdLine)
    ensures
        is_cmd(
            c,
            Program::Stg,
            if hard {
                seq!["undo"@, "--hard"@]
            } else {
                seq!["undo"@]
            },
        ),
{
    if hard {
        cmd2(Program::Stg, "undo", "--hard")
    } else {
        cmd1(Program::Stg, "undo")
    }
}

/// `stg redo`
pub fn stg_redo() -> (c: CmdLine)
    ensures
        is_cmd(c, Program::Stg, seq!["redo"@]),
{
    cmd1(Program::Stg, "redo")
}

/// `stg repair`
pub fn stg_repair() -> (c: CmdLine)
    ensures
        is_cmd(c, Program::Stg, seq!["repair"@]),
{
    cmd1(Program::Stg, "repair")
}

/// `stg commit <patches>`
pub fn stg_commit(patches: &[String]) -> (c: CmdLine)
    ensures
        is_cmd(c, Program::Stg, seq!["commit"@] + strings_view(patches@)),
{
    verb_and_names(Program::Stg, "commit", patches)
}

/// `stg uncommit -n <count>`
pub fn stg_uncommit(count: usize) -> (c: CmdLine)
    ensures
        is_cmd(c, Program::Stg, seq!["uncommit"@, "-n"@, decimal(count as nat)]),
{
    let n = usize_to_string(count);
    cmd3(Program::Stg, "uncommit", "-n", n.as_str())
}

/// `stg edit -e <patch>`: edits the patch in `$EDITOR`.
pub fn stg_edit(patch: &str) -> (c: CmdLine)
    ensures
        is_cmd(c, Program::Stg, seq!["edit"@, "-e"@, patch@]),
{
    cmd3(Program::Stg, "edit", "-e", patch)
}

/// `git add <path>`
pub fn git_stage(path: &str) -> (c: CmdLine)
    ensures
        is_cmd(c, Program::Git, seq!["add"@, path@]),
{
    cmd2(Program::Git, "add", path)
}

/// `git reset HEAD <path>`
pub fn git_unstage(path: &str) -> (c: CmdLine)
    ensures
        is_cmd(c, Program::Git, seq!["reset"@, "HEAD"@, path@]),
{
    cmd3(Program::Git, "reset", "HEAD", path)
}

/// `git checkout -- <path>`
pub fn git_revert_worktree(path: &str) -> (c: CmdLine)
    ensures
        is_cmd(c, Program::Git, seq!["checkout"@, "--"@, path@]),
{
    cmd3(Program::Git, "checkout", "--", path)
}

/// `git checkout HEAD -- <path>`
pub fn git_revert_index(path: &str) -> (c: CmdLine)
    ensures
        is_cmd(c, Program::Git, seq!["checkout"@, "HEAD"@, "--"@, path@]),
{
    cmd4(Program::Git, "checkout", "HEAD", "--", path)
}

/// `git diff [--cached] -- <path>`
pub fn git_diff(path: &str, cached: bool) -> (c: CmdLine)
    ensures
        is_cmd(
            c,
            Program::Git,
            if cached {
                seq!["diff"@, "--cached"@, "--"@, path@]
            } else {
                seq!["diff"@, "--"@, path@]
            },
        ),
{
    if cached {
        cmd4(Program::Git, "diff", "--cached", "--", path)
    } else {
        cmd3(Program::Git, "diff", "--", path)
    }
}

/// `stg show <patch>`
pub fn stg_diff(patch: &str) -> (c: CmdLine)
    ensures
        is_cmd(c, Program::Stg, seq!["show"@, patch@]),
{
    cmd2(Program::Stg, "show", patch)
}

/// `git add <path>`, which marks a conflict resolved.
pub fn git_resolve(path: &str) -> (c: CmdLine)
    ensures
        is_cmd(c, Program::Git, seq!["add"@, path@]),
{
    cmd2(Program::Git, "add", path)
}

/// `stg branch <name>`
pub fn stg_branch_switch(name: &str) -> (c: CmdLine)
    ensures
        is_cmd(c, Program::Stg, seq!["branch"@, name@]),
{
    cmd2(Program::Stg, "branch", name)
}

/// `stg branch --create <name>`
pub fn stg_branch_create(name: &str) -> (c: CmdLine)
    ensures
        is_cmd(c, Program::Stg, seq!["branch"@, "--create"@, name@]),
{
    cmd3(Program::Stg, "branch", "--create", name)
}

/// `git fetch`
pub fn git_fetch() -> (c: CmdLine)
    ensures
        is_cmd(c, Program::Git, seq!["fetch"@]),
{
    cmd1(Program::Git, "fetch")
}

/// `git push`
pub fn git_push() -> (c: CmdLine)
    ensures
        is_cmd(c, Program::Git, seq!["push"@]),
{
    cmd1(Program::Git, "push")
}

/// `git push --force-with-lease`
pub fn git_push_force() -> (c: CmdLine)
    ensures
        is_cmd(c, Program::Git, seq!["push"@, "--force-with-lease"@]),
{
    cmd2(Program::Git, "push", "--force-with-lease")
}

/// `stg rebase [<target>]`
pub fn stg_rebase(target: Option<&str>) -> (c: CmdLine)
    ensures
        is_cmd(
            c,
            Program::Stg,
            match target {
                Some(t) => seq!["rebase"@, t@],
                None => seq!["rebase"@],
            },
        ),
{
    match target {
        Some(t) => cmd2(Program::Stg, "rebase", t),
        None => cmd1(Program::Stg, "rebase"),
    }
}

} // verus!
