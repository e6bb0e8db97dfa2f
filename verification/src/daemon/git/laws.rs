//! What holds of a shown diff as a whole.
use super::unified;
use super::unified::HunkView;
use super::{ChangedFile, Comparison, DiskKind, FileStates, HunkText, StatusItem};
use crate::common::domain::{GitChangeStatus, GitDiffFile, GitDiffHunk, GitDiffLineKind};
use crate::daemon::git;
use crate::encoding;
use crate::strings;
use vstd::prelude::*;

verus! {

/// A line of a patch: a space before a line that stays, a plus sign before one that came, a minus
/// sign before one that went.
pub open spec fn patch_line(line: (GitDiffLineKind, Seq<char>)) -> Seq<char> {
    seq![
        match line.0 {
            GitDiffLineKind::Context => ' ',
            GitDiffLineKind::Add => '+',
            GitDiffLineKind::Remove => '-',
        },
    ] + line.1
}

/// None of the texts holds a line feed.
pub open spec fn one_line_each(lines: Seq<(GitDiffLineKind, Seq<char>)>) -> bool {
    forall|k: int, i: int|
        0 <= k < lines.len() && 0 <= i < lines[k].1.len() ==> #[trigger] lines[k].1[i] != '\n'
}

proof fn lemma_body(lines: Seq<(GitDiffLineKind, Seq<char>)>)
    requires
        lines.len() > 0,
    ensures
        git::body_text(lines) == strings::join_of(
            lines.map_values(|l: (GitDiffLineKind, Seq<char>)| patch_line(l)),
            seq!['\n'],
        ) + seq!['\n'],
    decreases lines.len(),
{
    let f = |l: (GitDiffLineKind, Seq<char>)| patch_line(l);
    let less = lines.drop_last();
    let all = lines.map_values(f);
    assert(all.last() == patch_line(lines.last()));
    if less.len() > 0 {
        lemma_body(less);
        assert(all.drop_last() =~= less.map_values(f));
        assert(git::body_text(lines) =~= strings::join_of(all, seq!['\n']) + seq!['\n']);
    } else {
        assert(git::body_text(less) =~= Seq::empty());
        assert(git::body_text(lines) =~= strings::join_of(all, seq!['\n']) + seq!['\n']);
    }
}

/// The patch of a run is its head and its lines, one to a line, each behind the mark of its kind.
pub proof fn law_a_patch_is_read_line_by_line(hunk: HunkText)
    requires
        forall|i: int| 0 <= i < hunk.header.len() ==> #[trigger] hunk.header[i] != '\n',
        one_line_each(hunk.lines),
    ensures
        strings::split_of(git::patch_text(Seq::empty(), seq![hunk]), '\n') == seq![hunk.header]
            + hunk.lines.map_values(|l: (GitDiffLineKind, Seq<char>)| patch_line(l)) + seq![
            Seq::<char>::empty(),
        ],
{
    let f = |l: (GitDiffLineKind, Seq<char>)| patch_line(l);
    let none = Seq::<char>::empty();
    reveal_strlit("\n");
    let one = seq![hunk];
    assert(one.drop_last() =~= Seq::empty());
    reveal_with_fuel(git::patch_text, 2);
    let body = git::body_text(hunk.lines);
    let text = git::patch_text(none, one);
    assert(text =~= hunk.header + seq!['\n'] + body);
    strings::lemma_split_append(hunk.header, '\n', body);
    strings::lemma_split_one(hunk.header, '\n');
    strings::lemma_split_one(none, '\n');
    if hunk.lines.len() == 0 {
        assert(body =~= none);
        assert(hunk.lines.map_values(f) =~= Seq::empty());
        assert(seq![hunk.header] + seq![none] =~= seq![hunk.header] + hunk.lines.map_values(f)
            + seq![none]);
    } else {
        lemma_body(hunk.lines);
        let marked = hunk.lines.map_values(f);
        assert forall|k: int, i: int| 0 <= k < marked.len() && 0 <= i < marked[k].len() implies
            #[trigger] marked[k][i] != '\n' by {
            if i > 0 {
                assert(marked[k][i] == hunk.lines[k].1[i - 1]);
            }
        }
        strings::lemma_split_join(marked, '\n');
        let joined = strings::join_of(marked, seq!['\n']);
        assert(body =~= joined + seq!['\n'] + none);
        strings::lemma_split_append(joined, '\n', none);
        assert(seq![hunk.header] + (marked + seq![none]) =~= seq![hunk.header] + marked + seq![
            none,
        ]);
    }
}

/// The patch of a file is its head and the patches of its runs in their order, and the patch of one
/// run alone is that run behind the same head.
pub proof fn law_a_patch_is_made_of_its_runs(head: Seq<char>, hunks: Seq<HunkText>, hunk: HunkText)
    ensures
        git::patch_text(head, Seq::empty()) == head,
        git::patch_text(head, hunks.push(hunk)) == git::patch_text(head, hunks) + git::patch_text(
            Seq::empty(),
            seq![hunk],
        ),
        git::patch_text(head, seq![hunk]) == head + git::patch_text(Seq::empty(), seq![hunk]),
{
    reveal_strlit("\n");
    let none = Seq::<char>::empty();
    let one = seq![hunk];
    assert(one.drop_last() =~= Seq::empty());
    reveal_with_fuel(git::patch_text, 2);
    assert(hunks.push(hunk).drop_last() =~= hunks);
    assert(git::patch_text(none, one) =~= hunk.header + "\n"@ + git::body_text(hunk.lines));
    assert(git::patch_text(head, hunks.push(hunk)) =~= git::patch_text(head, hunks)
        + git::patch_text(none, one));
    assert(git::patch_text(head, one) =~= head + git::patch_text(none, one));
}

/// The head of a patch names the file on both sides, but for a side on which there is none.
pub proof fn law_patches_name_their_file(path: Seq<char>, status: GitChangeStatus)
    requires
        forall|i: int| 0 <= i < path.len() ==> #[trigger] path[i] != '\n',
    ensures
        strings::split_of(git::file_head(path, status), '\n') == seq![
            if status == GitChangeStatus::Added {
                "--- /dev/null"@
            } else {
                "--- a/"@ + path
            },
            if status == GitChangeStatus::Deleted {
                "+++ /dev/null"@
            } else {
                "+++ b/"@ + path
            },
            Seq::empty(),
        ],
{
    reveal_strlit("--- /dev/null");
    reveal_strlit("--- a/");
    reveal_strlit("+++ /dev/null");
    reveal_strlit("+++ b/");
    reveal_strlit("\n");
    let none = Seq::<char>::empty();
    let old = if status == GitChangeStatus::Added {
        "--- /dev/null"@
    } else {
        "--- a/"@ + path
    };
    let new = if status == GitChangeStatus::Deleted {
        "+++ /dev/null"@
    } else {
        "+++ b/"@ + path
    };
    assert forall|i: int| 0 <= i < old.len() implies #[trigger] old[i] != '\n' by {
        if status != GitChangeStatus::Added && i >= 6 {
            assert(old[i] == path[i - 6]);
        }
    }
    assert forall|i: int| 0 <= i < new.len() implies #[trigger] new[i] != '\n' by {
        if status != GitChangeStatus::Deleted && i >= 6 {
            assert(new[i] == path[i - 6]);
        }
    }
    let rest = new + seq!['\n'] + none;
    assert(git::file_head(path, status) =~= old + seq!['\n'] + rest);
    strings::lemma_split_append(old, '\n', rest);
    strings::lemma_split_append(new, '\n', none);
    strings::lemma_split_one(old, '\n');
    strings::lemma_split_one(new, '\n');
    strings::lemma_split_one(none, '\n');
    assert(seq![old] + (seq![new] + seq![none]) =~= seq![old, new, none]);
}

/// Every line of a run stays, came or went; and the numbers that are shown are those numbers as long
/// as they can be.
pub proof fn law_all_lines_are_counted(lines: Seq<(GitDiffLineKind, Seq<char>)>, n: nat)
    ensures
        git::count_lines(lines, GitDiffLineKind::Context) + git::count_lines(
            lines,
            GitDiffLineKind::Add,
        ) + git::count_lines(lines, GitDiffLineKind::Remove) == lines.len(),
        n <= u32::MAX ==> git::low(n) == n,
    decreases lines.len(),
{
    if lines.len() > 0 {
        law_all_lines_are_counted(lines.drop_last(), n);
    }
}

/// A line more is one more of its kind and none of another.
pub proof fn law_a_line_counts_for_its_kind(
    lines: Seq<(GitDiffLineKind, Seq<char>)>,
    line: (GitDiffLineKind, Seq<char>),
    kind: GitDiffLineKind,
    hunks: Seq<HunkText>,
    hunk: HunkText,
)
    ensures
        git::count_lines(lines.push(line), kind) - git::count_lines(lines, kind) == (if line.0
            == kind {
            1int
        } else {
            0
        }),
        git::count_all(hunks.push(hunk), kind) - git::count_all(hunks, kind) == git::count_lines(
            hunk.lines,
            kind,
        ),
        git::count_all(Seq::empty(), kind) == 0,
{
    assert(lines.push(line).drop_last() =~= lines);
    assert(hunks.push(hunk).drop_last() =~= hunks);
}

/// A file that is in both is modified, one that is only new added, one that is only old deleted. One
/// whose content cannot be told is not shown, and of one that is no text no lines are. Around what was
/// modified three lines that stay are shown.
pub proof fn law_files_are_shown_by_what_became_of_them(states: FileStates)
    ensures
        git::shown(states) is None <==> states is Neither || states == FileStates::OnlyNew(None)
            || states == FileStates::Both(Comparison::Failed),
        git::shown(states) matches Some((status, texts)) ==> {
            &&& status == GitChangeStatus::Modified <==> states is Both
            &&& status == GitChangeStatus::Added <==> states is OnlyNew
            &&& status == GitChangeStatus::Deleted <==> states is OnlyOld
            &&& states == FileStates::Both(Comparison::Binary) ==> texts.len() == 0
            &&& states matches FileStates::Both(Comparison::Texts { algorithm, old, new }) ==> texts
                == git::texts_of(unified::changes(algorithm, 3, old@, new@)->0)
            &&& states is OnlyNew || states is OnlyOld ==> texts.len() == 1
            &&& states is OnlyNew ==> forall|i: int|
                0 <= i < texts[0].lines.len() ==> (#[trigger] texts[0].lines[i]).0
                    == GitDiffLineKind::Add
            &&& states is OnlyOld ==> forall|i: int|
                0 <= i < texts[0].lines.len() ==> (#[trigger] texts[0].lines[i]).0
                    == GitDiffLineKind::Remove
        },
{
}

/// Changed files are shown in their order, each under its path as it is seen from the directory;
/// those that cannot be shown are left out.
pub proof fn law_changed_files_are_shown_in_order(
    workdir: Seq<char>,
    cwd: Seq<char>,
    files: Seq<ChangedFile>,
    file: ChangedFile,
)
    ensures
        git::all_shown(workdir, cwd, files.push(file)).take(
            git::all_shown(workdir, cwd, files).len() as int,
        ) == git::all_shown(workdir, cwd, files),
        git::shown(file.states) is None ==> git::all_shown(workdir, cwd, files.push(file)).len()
            == git::all_shown(workdir, cwd, files).len(),
        git::shown(file.states) matches Some((status, texts)) ==> git::all_shown(
            workdir,
            cwd,
            files.push(file),
        ).len() == git::all_shown(workdir, cwd, files).len() + 1 && git::all_shown(
            workdir,
            cwd,
            files.push(file),
        ).last() == (git::seen_from(workdir, cwd, git::path_text(file.path@)), status, texts),
        git::all_shown(workdir, cwd, Seq::empty()).len() == 0,
{
    assert(files.push(file).drop_last() =~= files);
    let before = git::all_shown(workdir, cwd, files);
    assert(git::all_shown(workdir, cwd, files.push(file)).take(before.len() as int) =~= before);
}

/// A path counts as changed where it is staged, changed, or not tracked and a file or a link.
pub proof fn law_changed_paths_are_reported(item: StatusItem)
    ensures
        git::reported(item) is Some <==> item is Staged || item is Changed || (
        item matches StatusItem::Untracked { kind, .. } && kind != DiskKind::Other),
        item matches StatusItem::Staged(path) ==> git::reported(item) == Some(path@),
        item matches StatusItem::Changed(path) ==> git::reported(item) == Some(path@),
        item matches StatusItem::Untracked { path, kind } ==> kind != DiskKind::Other
            ==> git::reported(item) == Some(path@),
{
}

/// Every report of a path counts, wherever it stands among the others, and so does every path among
/// others.
pub proof fn law_every_report_counts(
    items: Seq<StatusItem>,
    item: StatusItem,
    paths: Seq<Vec<u8>>,
    one: Vec<u8>,
    path: Seq<u8>,
)
    ensures
        !git::any_reports(Seq::empty(), path),
        git::any_reports(items.push(item), path) <==> git::any_reports(items, path)
            || git::reported(item) == Some(path),
        !git::among(Seq::empty(), path),
        git::among(paths.push(one), path) <==> git::among(paths, path) || one@ == path,
{
    let more = items.push(item);
    assert(more[items.len() as int] == item);
    if git::any_reports(items, path) {
        let i = choose|i: int|
            0 <= i < items.len() && #[trigger] git::reported(items[i]) == Some(path);
        assert(git::reported(more[i]) == Some(path));
    }
    if git::any_reports(more, path) {
        let i = choose|i: int| 0 <= i < more.len() && #[trigger] git::reported(more[i]) == Some(path);
        if i < items.len() {
            assert(git::reported(items[i]) == Some(path));
        }
    }
    let wider = paths.push(one);
    assert(wider[paths.len() as int] == one);
    if git::among(paths, path) {
        let i = choose|i: int| 0 <= i < paths.len() && (#[trigger] paths[i])@ == path;
        assert(wider[i]@ == path);
    }
    if git::among(wider, path) {
        let i = choose|i: int| 0 <= i < wider.len() && (#[trigger] wider[i])@ == path;
        if i < paths.len() {
            assert(paths[i]@ == path);
        }
    }
}

/// From the root of the repository, and from outside of it, a path is seen as it is.
pub proof fn law_paths_are_seen_whole_from_the_root(
    workdir: Seq<char>,
    cwd: Seq<char>,
    path: Seq<char>,
)
    requires
        git::components_of(cwd) == git::components_of(workdir) || !git::components_of(
            workdir,
        ).is_prefix_of(git::components_of(cwd)),
    ensures
        git::seen_from(workdir, cwd, path) == path,
{
    let root = git::components_of(workdir);
    let here = git::components_of(cwd);
    if root == here {
        assert(here.skip(root.len() as int).len() == 0);
    }
}

/// Names of which none is empty and none stands for where one is.
pub open spec fn plain(names: Seq<Seq<char>>) -> bool {
    forall|i: int|
        0 <= i < names.len() ==> (#[trigger] names[i]).len() > 0 && names[i] != "."@
}

proof fn lemma_plain_names(parts: Seq<Seq<char>>)
    requires
        plain(parts),
    ensures
        git::names_of(parts) == parts,
    decreases parts.len(),
{
    if parts.len() > 0 {
        let less = parts.drop_last();
        assert forall|i: int| 0 <= i < less.len() implies (#[trigger] less[i]).len() > 0 && less[i]
            != "."@ by {
            assert(less[i] == parts[i]);
        }
        lemma_plain_names(less);
        assert(parts.last() == parts[parts.len() - 1]);
        assert(less.push(parts.last()) =~= parts);
    } else {
        assert(git::names_of(parts) =~= parts);
    }
}

proof fn lemma_plain_from(parts: Seq<Seq<char>>, before: nat)
    requires
        plain(parts),
    ensures
        before <= parts.len() ==> git::parts_from(parts, before) == parts.skip(before as int),
        before >= parts.len() ==> git::parts_from(parts, before).len() == 0,
    decreases parts.len(),
{
    if parts.len() > 0 {
        let less = parts.drop_last();
        assert forall|i: int| 0 <= i < less.len() implies (#[trigger] less[i]).len() > 0 && less[i]
            != "."@ by {
            assert(less[i] == parts[i]);
        }
        lemma_plain_names(parts);
        lemma_plain_from(less, before);
        if before < parts.len() {
            assert(less.skip(before as int).push(parts.last()) =~= parts.skip(before as int));
        } else if before == parts.len() {
            assert(git::parts_from(parts, before) =~= parts.skip(before as int));
        }
    } else if before == 0 {
        assert(git::parts_from(parts, before) =~= parts.skip(0));
    }
}

/// What lies below a directory of the working tree is seen from there under what its path says
/// behind the directory.
pub proof fn law_what_lies_below_is_seen_from_there(
    workdir: Seq<char>,
    cwd: Seq<char>,
    inner: Seq<char>,
    rest: Seq<char>,
)
    requires
        git::components_of(cwd) == git::components_of(workdir) + strings::split_of(inner, '/'),
        plain(strings::split_of(inner, '/')),
        plain(strings::split_of(rest, '/')),
    ensures
        git::seen_from(workdir, cwd, inner + "/"@ + rest) == rest,
{
    reveal_strlit("/");
    assert("/"@ =~= seq!['/']);
    let path = inner + "/"@ + rest;
    let a = strings::split_of(inner, '/');
    let b = strings::split_of(rest, '/');
    let all = a + b;
    strings::lemma_join_split(inner, '/');
    strings::lemma_join_split(rest, '/');
    strings::lemma_split_append(inner, '/', rest);
    strings::lemma_index_of_char(inner, '/');
    assert(a[0].len() > 0);
    assert(inner.len() > 0 && inner[0] != '/');
    assert(path[0] == inner[0]);
    assert forall|i: int| 0 <= i < all.len() implies (#[trigger] all[i]).len() > 0 && all[i]
        != "."@ by {
        if i < a.len() {
            assert(all[i] == a[i]);
        } else {
            assert(all[i] == b[i - a.len()]);
        }
    }
    lemma_plain_names(all);
    lemma_plain_from(all, a.len());
    let root = git::components_of(workdir);
    let here = git::components_of(cwd);
    assert(git::components_of(path) =~= all);
    assert(here.skip(root.len() as int) =~= a);
    assert(here.subrange(0, root.len() as int) =~= root);
    assert(all.subrange(0, a.len() as int) =~= a);
    assert(all.skip(a.len() as int) =~= b);
    assert(b.last() == b[b.len() - 1]);
    assert(git::without_end(b) == b);
}

/// What does not lie below a directory of the working tree keeps its path when it is seen from
/// there.
pub proof fn law_what_lies_elsewhere_keeps_its_path(
    workdir: Seq<char>,
    cwd: Seq<char>,
    inner: Seq<Seq<char>>,
    path: Seq<char>,
)
    requires
        git::components_of(cwd) == git::components_of(workdir) + inner,
        !inner.is_prefix_of(git::components_of(path)),
    ensures
        git::seen_from(workdir, cwd, path) == path,
{
    let root = git::components_of(workdir);
    assert(git::components_of(cwd).skip(root.len() as int) =~= inner);
}

/// A run is read as it is: its head, and each line with its kind and its text.
pub proof fn law_runs_are_read_as_they_are(hunk: GitDiffHunk, i: int)
    requires
        0 <= i < hunk.lines@.len(),
    ensures
        git::hunk_text(hunk).header == hunk.header@,
        git::hunk_text(hunk).lines.len() == hunk.lines@.len(),
        git::hunk_text(hunk).lines[i] == (hunk.lines@[i].kind, hunk.lines@[i].text@),
{
}

/// The runs of changed lines are shown as they were found: each line with its kind and, as text, its
/// content.
pub proof fn law_runs_are_shown_as_they_were_found(hunks: Seq<HunkView>, i: int, j: int)
    requires
        0 <= i < hunks.len(),
        0 <= j < hunks[i].lines.len(),
    ensures
        git::texts_of(hunks).len() == hunks.len(),
        git::texts_of(hunks)[i].lines.len() == hunks[i].lines.len(),
        git::texts_of(hunks)[i].lines[j].0 == hunks[i].lines[j].kind,
        git::texts_of(hunks)[i].lines[j].1 == encoding::lossy_text(hunks[i].lines[j].content),
{
}

/// A file of a diff says under which path what became of it, how many lines came and went in all its
/// runs, and holds its runs, each with a patch of its own, and the patch of all of them.
pub proof fn law_files_say_what_became_of_them(
    file: GitDiffFile,
    path: Seq<char>,
    status: GitChangeStatus,
    texts: Seq<HunkText>,
    i: int,
)
    requires
        git::file_says(file, path, status, texts),
        0 <= i < texts.len(),
    ensures
        file.path@ == path && file.status == status,
        git::count_all(texts, GitDiffLineKind::Add) <= u32::MAX ==> file.additions == git::count_all(
            texts,
            GitDiffLineKind::Add,
        ),
        git::count_all(texts, GitDiffLineKind::Remove) <= u32::MAX ==> file.deletions
            == git::count_all(texts, GitDiffLineKind::Remove),
        file.hunks@.len() == texts.len(),
        file.hunks@[i].header@ == texts[i].header,
        file.hunks@[i].patch@ == git::patch_text(git::file_head(path, status), seq![texts[i]]),
        file.patch@ == git::patch_text(git::file_head(path, status), texts),
{
    assert(git::hunk_text(file.hunks@[i]) == texts[i]);
}

/// The files of a diff are those that are shown, in their order.
pub proof fn law_a_diff_holds_the_files_that_are_shown(
    files: Seq<GitDiffFile>,
    all: Seq<(Seq<char>, GitChangeStatus, Seq<HunkText>)>,
    i: int,
)
    requires
        git::files_say(files, all),
        0 <= i < all.len(),
    ensures
        files.len() == all.len(),
        files[i].path@ == all[i].0,
        files[i].status == all[i].1,
        files[i].hunks@.len() == all[i].2.len(),
{
    assert(git::file_says(files[i], all[i].0, all[i].1, all[i].2));
}

/// A file that came or went is taken line by line; a line feed at its end ends its last line and begins
/// none.
pub proof fn law_whole_files_are_taken_line_by_line(line: Seq<char>, rest: Seq<char>)
    requires
        !line.contains('\n'),
    ensures
        git::whole_lines(line + seq!['\n'] + rest) == seq![line] + git::whole_lines(rest),
        line.len() > 0 ==> git::whole_lines(line) == seq![line],
        git::whole_lines(Seq::empty()).len() == 0,
{
    assert forall|i: int| 0 <= i < line.len() implies #[trigger] line[i] != '\n' by {
        assert(line.contains(line[i]));
    }
    strings::lemma_split_append(line, '\n', rest);
    strings::lemma_split_one(line, '\n');
    strings::lemma_split_one(Seq::empty(), '\n');
    strings::lemma_join_split(rest, '\n');
    let tail = strings::split_of(rest, '\n');
    let all = strings::split_of(line + seq!['\n'] + rest, '\n');
    assert(all == seq![line] + tail);
    assert(all.last() == tail.last());
    if tail.last().len() == 0 {
        assert(all.drop_last() =~= seq![line] + tail.drop_last());
    }
}

} // verus!
