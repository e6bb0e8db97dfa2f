//! The panel with the changes of a session's files: the tree at the left, the changes by file.
use crate::common::domain::{GitChangeStatus, GitDiffFile, GitDiffHunk, GitDiffLine, GitDiffResult};
use crate::desktop::diff;
use crate::desktop::diff::{line_numbers, LineNumbers};
use crate::desktop::difftree;
use crate::desktop::difftree::DiffNode;
use crate::desktop::panels::workspace;
use crate::strings;
use crate::strings::{decimal_of, same};
use crate::table::Table;
use vstd::prelude::*;

verus! {

/// What is said in place of the changes: that there is no repository, that they are on their way, or
/// that there are none.
pub open spec fn in_place_of_changes(result: Option<GitDiffResult>) -> Option<Seq<char>> {
    match result {
        Some(diff) => if diff.not_repo {
            Some("当前工作目录不是 git 仓库"@)
        } else if diff.files@.len() == 0 {
            Some("暂无改动"@)
        } else {
            None
        },
        None => Some("正在加载改动…"@),
    }
}

/// All the files are folded, and there are some.
pub open spec fn all_folded(result: Option<GitDiffResult>, folded: Map<Seq<char>, ()>) -> bool {
    result matches Some(diff) && diff.files@.len() > 0 && forall|i: int|
        0 <= i < diff.files@.len() ==> folded.contains_key((#[trigger] diff.files@[i]).path@)
}

/// Whether all the files are folded.
pub fn all_collapsed(result: &Option<GitDiffResult>, folded: &Table<()>) -> (r: bool)
    ensures
        r == all_folded(*result, folded@),
{
    match result {
        Some(diff) => {
            let mut i: usize = 0;
            while i < diff.files.len()
                invariant
                    0 <= i <= diff.files@.len(),
                    *result == Some(*diff),
                    forall|k: int|
                        0 <= k < i ==> folded@.contains_key((#[trigger] diff.files@[k]).path@),
                decreases diff.files.len() - i,
            {
                if !folded.contains(diff.files[i].path.as_str()) {
                    assert(!folded@.contains_key(diff.files@[i as int].path@));
                    return false;
                }
                i = i + 1;
            }
            diff.files.len() > 0
        },
        None => false,
    }
}

/// What the panel says besides the changes.
#[derive(Debug, PartialEq)]
pub struct DiffReview {
    /// What is said in place of the changes.
    pub hint: Option<&'static str>,
    /// What the button that folds the tree says.
    pub tree_tip: &'static str,
    /// What the button that folds the changes says.
    pub changes_tip: &'static str,
    /// What was chosen can be cited.
    pub footer: Option<String>,
}

/// How much was chosen.
pub open spec fn chosen_text(files: nat, hunks: nat) -> Seq<char> {
    "已选 "@ + strings::decimal(files) + " 文件 · "@ + strings::decimal(hunks) + " 代码块"@
}

/// How much was chosen.
pub fn diff_footer(files: usize, hunks: usize) -> (r: String)
    ensures
        r@ == chosen_text(files as nat, hunks as nat),
{
    let mut r: String = "已选 ".to_owned();
    r.append(decimal_of(files as u64).as_str());
    r.append(" 文件 · ");
    r.append(decimal_of(hunks as u64).as_str());
    r.append(" 代码块");
    r
}

/// What the panel says besides the changes.
pub fn diff_review(
    result: &Option<GitDiffResult>,
    tree_visible: bool,
    folded: &Table<()>,
    chosen_files: usize,
    chosen_hunks: usize,
) -> (r: DiffReview)
    ensures
        match in_place_of_changes(*result) {
            Some(text) => r.hint is Some && r.hint->0@ == text,
            None => r.hint is None,
        },
        r.tree_tip@ == if tree_visible {
            "折叠文件树"@
        } else {
            "展开文件树"@
        },
        r.changes_tip@ == if all_folded(*result, folded@) {
            "展开 diff"@
        } else {
            "折叠 diff"@
        },
        r.footer is Some == (in_place_of_changes(*result) is None && (chosen_files > 0
            || chosen_hunks > 0)),
        r.footer matches Some(text) ==> text@ == chosen_text(
            chosen_files as nat,
            chosen_hunks as nat,
        ),
{
    let hint: Option<&'static str> = match result {
        Some(diff) => if diff.not_repo {
            Some("当前工作目录不是 git 仓库")
        } else if diff.files.len() == 0 {
            Some("暂无改动")
        } else {
            None
        },
        None => Some("正在加载改动…"),
    };
    let footer: Option<String> = if hint.is_none() && (chosen_files > 0 || chosen_hunks > 0) {
        Some(diff_footer(chosen_files, chosen_hunks))
    } else {
        None
    };
    DiffReview {
        hint,
        tree_tip: if tree_visible {
            "折叠文件树"
        } else {
            "展开文件树"
        },
        changes_tip: if all_collapsed(result, folded) {
            "展开 diff"
        } else {
            "折叠 diff"
        },
        footer,
    }
}

/// A row of the tree, with texts of some type, and how deep it stands.
#[derive(Debug, PartialEq)]
pub enum ChangeRow<T> {
    File { key: T, name: T, depth: usize, file_ix: usize },
    Dir { key: T, name: T, depth: usize, collapsed: bool },
}

/// What a row says.
pub open spec fn row_text(row: ChangeRow<String>) -> ChangeRow<Seq<char>> {
    match row {
        ChangeRow::File { key, name, depth, file_ix } => ChangeRow::File {
            key: key@,
            name: name@,
            depth,
            file_ix,
        },
        ChangeRow::Dir { key, name, depth, collapsed } => ChangeRow::Dir {
            key: key@,
            name: name@,
            depth,
            collapsed,
        },
    }
}

/// What rows say.
pub open spec fn rows_text(rows: Seq<ChangeRow<String>>) -> Seq<ChangeRow<Seq<char>>> {
    rows.map_values(|r: ChangeRow<String>| row_text(r))
}

/// The rows of nodes: for each its own, and behind a directory that is not folded those of what is
/// in it.
pub open spec fn tree_rows(nodes: Seq<DiffNode>, folded: Map<Seq<char>, ()>, depth: usize) -> Seq<
    ChangeRow<Seq<char>>,
>
    decreases nodes,
{
    if nodes.len() == 0 {
        Seq::empty()
    } else {
        let node = nodes.last();
        let before = tree_rows(nodes.drop_last(), folded, depth);
        match node.file_ix {
            Some(file_ix) => before.push(
                ChangeRow::File { key: node.key@, name: node.name@, depth, file_ix },
            ),
            None => {
                let collapsed = folded.contains_key(node.key@);
                let own = before.push(
                    ChangeRow::Dir { key: node.key@, name: node.name@, depth, collapsed },
                );
                if collapsed {
                    own
                } else {
                    own + tree_rows(node.children@, folded, workspace::deeper(depth))
                }
            },
        }
    }
}

/// The rows of nodes.
pub fn push_tree_rows(nodes: &Vec<DiffNode>, folded: &Table<()>, depth: usize) -> (r: Vec<
    ChangeRow<String>,
>)
    ensures
        rows_text(r@) == tree_rows(nodes@, folded@, depth),
    decreases nodes@,
{
    let mut rows: Vec<ChangeRow<String>> = Vec::new();
    let mut i: usize = 0;
    proof {
        assert(nodes@.take(0) =~= Seq::empty());
        assert(rows_text(rows@) =~= Seq::empty());
    }
    while i < nodes.len()
        invariant
            0 <= i <= nodes@.len(),
            rows_text(rows@) == tree_rows(nodes@.take(i as int), folded@, depth),
        decreases nodes.len() - i,
    {
        let node: &DiffNode = &nodes[i];
        let ghost before = rows@;
        proof {
            assert(nodes@.take(i + 1).drop_last() =~= nodes@.take(i as int));
            assert(nodes@.take(i + 1).last() == nodes@[i as int]);
        }
        match node.file_ix {
            Some(file_ix) => {
                rows.push(
                    ChangeRow::File {
                        key: node.key.clone(),
                        name: node.name.clone(),
                        depth,
                        file_ix,
                    },
                );
                proof {
                    assert(rows_text(rows@) =~= rows_text(before).push(row_text(rows@.last())));
                }
            },
            None => {
                let collapsed: bool = folded.contains(node.key.as_str());
                rows.push(
                    ChangeRow::Dir {
                        key: node.key.clone(),
                        name: node.name.clone(),
                        depth,
                        collapsed,
                    },
                );
                let ghost own = rows@;
                proof {
                    assert(rows_text(own) =~= rows_text(before).push(row_text(own.last())));
                }
                if !collapsed {
                    let below: usize = if depth == usize::MAX {
                        depth
                    } else {
                        depth + 1
                    };
                    proof {
                        assert(decreases_to!(nodes@ => nodes@[i as int]));
                        assert(decreases_to!(nodes@[i as int] => nodes@[i as int].children));
                    }
                    let mut more: Vec<ChangeRow<String>> = push_tree_rows(
                        &node.children,
                        folded,
                        below,
                    );
                    let ghost added = more@;
                    rows.append(&mut more);
                    proof {
                        assert(rows@ =~= own + added);
                        assert(rows_text(rows@) =~= rows_text(own) + rows_text(added));
                    }
                }
            },
        }
        i = i + 1;
    }
    proof {
        assert(nodes@.take(i as int) =~= nodes@);
    }
    rows
}

/// The tree of the changed files.
pub fn diff_tree(files: &Vec<GitDiffFile>, folded: &Table<()>) -> (r: Vec<ChangeRow<String>>)
    ensures
        exists|nodes: Seq<DiffNode>|
            #![trigger tree_rows(nodes, folded@, 0)]
            difftree::shows(nodes, difftree::parts_of(files@), Seq::empty()) && rows_text(r@) == tree_rows(
                nodes,
                folded@,
                0,
            ),
{
    let nodes: Vec<DiffNode> = difftree::build(files);
    push_tree_rows(&nodes, folded, 0)
}

/// A row of the changes of a file, with texts of some type.
#[derive(Debug, PartialEq)]
pub enum BlockRow<T> {
    /// The head of the file: how many lines came and went, and what happened to it.
    File { path: T, additions: T, deletions: T, mark: char, selected: bool },
    /// The head of a run of lines.
    Hunk { header: T, selected: bool },
    /// A line with its numbers in the old and in the new file, where it has them.
    Line { old: T, new: T, mark: char, text: T },
}

/// What a row says.
pub open spec fn block_text(row: BlockRow<String>) -> BlockRow<Seq<char>> {
    match row {
        BlockRow::File { path, additions, deletions, mark, selected } => BlockRow::File {
            path: path@,
            additions: additions@,
            deletions: deletions@,
            mark,
            selected,
        },
        BlockRow::Hunk { header, selected } => BlockRow::Hunk { header: header@, selected },
        BlockRow::Line { old, new, mark, text } => BlockRow::Line {
            old: old@,
            new: new@,
            mark,
            text: text@,
        },
    }
}

/// What rows say.
pub open spec fn blocks_text(rows: Seq<BlockRow<String>>) -> Seq<BlockRow<Seq<char>>> {
    rows.map_values(|r: BlockRow<String>| block_text(r))
}

/// The letter for what happened to a file.
pub open spec fn status_mark(status: GitChangeStatus) -> char {
    match status {
        GitChangeStatus::Added => 'A',
        GitChangeStatus::Deleted => 'D',
        GitChangeStatus::Modified => 'M',
    }
}

/// A number as it is shown; nothing where there is none.
pub open spec fn number_text(number: Option<usize>) -> Seq<char> {
    match number {
        Some(n) => strings::decimal(n as nat),
        None => Seq::empty(),
    }
}

/// A number as it is shown.
pub fn number_gutter(number: Option<usize>) -> (r: String)
    ensures
        r@ == number_text(number),
{
    match number {
        Some(n) => decimal_of(n as u64),
        None => {
            let r: String = String::new();
            proof {
                assert(r@ =~= Seq::empty());
            }
            r
        },
    }
}

/// The row of a line.
pub open spec fn line_row(header: Seq<char>, lines: Seq<GitDiffLine>, i: int) -> BlockRow<
    Seq<char>,
> {
    let numbers = diff::numbers_at(header, lines, i);
    BlockRow::Line {
        old: number_text(numbers.old),
        new: number_text(numbers.new),
        mark: lines[i].kind.mark(),
        text: lines[i].text@,
    }
}

/// A run of lines was chosen.
pub open spec fn chosen(hunks: Seq<(String, String)>, path: Seq<char>, header: Seq<char>) -> bool {
    exists|i: int|
        0 <= i < hunks.len() && (#[trigger] hunks[i]).0@ == path && hunks[i].1@ == header
}

fn is_chosen(hunks: &Vec<(String, String)>, path: &str, header: &str) -> (r: bool)
    ensures
        r == chosen(hunks@, path@, header@),
{
    let mut i: usize = 0;
    while i < hunks.len()
        invariant
            0 <= i <= hunks@.len(),
            forall|k: int|
                0 <= k < i ==> !((#[trigger] hunks@[k]).0@ == path@ && hunks@[k].1@ == header@),
        decreases hunks.len() - i,
    {
        if same(hunks[i].0.as_str(), path) && same(hunks[i].1.as_str(), header) {
            assert(hunks@[i as int].0@ == path@);
            return true;
        }
        i = i + 1;
    }
    false
}

/// The rows of a run of lines: its head and its lines.
pub open spec fn hunk_rows(path: Seq<char>, hunk: GitDiffHunk, hunks: Seq<(String, String)>) -> Seq<
    BlockRow<Seq<char>>,
> {
    seq![
        BlockRow::Hunk { header: hunk.header@, selected: chosen(hunks, path, hunk.header@) },
    ] + Seq::new(hunk.lines@.len(), |i: int| line_row(hunk.header@, hunk.lines@, i))
}

/// The rows of runs of lines.
pub open spec fn all_hunk_rows(
    path: Seq<char>,
    given: Seq<GitDiffHunk>,
    hunks: Seq<(String, String)>,
) -> Seq<BlockRow<Seq<char>>>
    decreases given.len(),
{
    if given.len() == 0 {
        Seq::empty()
    } else {
        all_hunk_rows(path, given.drop_last(), hunks) + hunk_rows(path, given.last(), hunks)
    }
}

/// The rows of a file: its head, and where it is not folded its runs of lines.
pub open spec fn file_rows(
    file: GitDiffFile,
    collapsed: bool,
    selected: bool,
    hunks: Seq<(String, String)>,
) -> Seq<BlockRow<Seq<char>>> {
    let head = seq![
        BlockRow::File {
            path: file.path@,
            additions: "+"@ + strings::decimal(file.additions as nat),
            deletions: "-"@ + strings::decimal(file.deletions as nat),
            mark: status_mark(file.status),
            selected,
        },
    ];
    if collapsed {
        head
    } else {
        head + all_hunk_rows(file.path@, file.hunks@, hunks)
    }
}

/// The numbers of the lines of a file can be counted.
pub open spec fn countable(file: GitDiffFile) -> bool {
    forall|i: int|
        0 <= i < file.hunks@.len() ==> diff::countable(
            (#[trigger] file.hunks@[i]).header@,
            file.hunks@[i].lines@,
        )
}

fn hunk_block(path: &str, hunk: &GitDiffHunk, hunks: &Vec<(String, String)>) -> (r: Vec<
    BlockRow<String>,
>)
    requires
        diff::countable(hunk.header@, hunk.lines@),
    ensures
        blocks_text(r@) == hunk_rows(path@, *hunk, hunks@),
{
    let mut rows: Vec<BlockRow<String>> = Vec::new();
    rows.push(
        BlockRow::Hunk {
            header: hunk.header.clone(),
            selected: is_chosen(hunks, path, hunk.header.as_str()),
        },
    );
    let ghost head = block_text(rows@[0]);
    let ghost shown = Seq::new(
        hunk.lines@.len(),
        |i: int| line_row(hunk.header@, hunk.lines@, i),
    );
    let numbers: Vec<LineNumbers> = line_numbers(hunk.header.as_str(), &hunk.lines);
    let mut i: usize = 0;
    proof {
        assert(blocks_text(rows@) =~= seq![head] + shown.take(0));
    }
    while i < hunk.lines.len()
        invariant
            0 <= i <= hunk.lines@.len(),
            numbers@.len() == hunk.lines@.len(),
            forall|k: int|
                0 <= k < hunk.lines@.len() ==> #[trigger] numbers@[k] == diff::numbers_at(
                    hunk.header@,
                    hunk.lines@,
                    k,
                ),
            shown == Seq::new(
                hunk.lines@.len(),
                |i: int| line_row(hunk.header@, hunk.lines@, i),
            ),
            blocks_text(rows@) == seq![head] + shown.take(i as int),
        decreases hunk.lines.len() - i,
    {
        let ghost before = rows@;
        rows.push(
            BlockRow::Line {
                old: number_gutter(numbers[i].old),
                new: number_gutter(numbers[i].new),
                mark: hunk.lines[i].kind.prefix(),
                text: hunk.lines[i].text.clone(),
            },
        );
        proof {
            assert(numbers@[i as int] == diff::numbers_at(hunk.header@, hunk.lines@, i as int));
            assert(blocks_text(rows@) =~= blocks_text(before).push(block_text(rows@.last())));
            assert(shown.take(i + 1) =~= shown.take(i as int).push(shown[i as int]));
            assert(blocks_text(rows@) =~= seq![head] + shown.take(i + 1));
        }
        i = i + 1;
    }
    proof {
        assert(shown.take(i as int) =~= shown);
    }
    rows
}

/// The rows of a file.
pub fn diff_file_block(
    file: &GitDiffFile,
    collapsed: bool,
    selected: bool,
    hunks: &Vec<(String, String)>,
) -> (r: Vec<BlockRow<String>>)
    requires
        countable(*file),
    ensures
        blocks_text(r@) == file_rows(*file, collapsed, selected, hunks@),
{
    let mut additions: String = "+".to_owned();
    additions.append(decimal_of(file.additions as u64).as_str());
    let mut deletions: String = "-".to_owned();
    deletions.append(decimal_of(file.deletions as u64).as_str());
    let mark: char = match file.status {
        GitChangeStatus::Added => 'A',
        GitChangeStatus::Deleted => 'D',
        GitChangeStatus::Modified => 'M',
    };
    let mut rows: Vec<BlockRow<String>> = Vec::new();
    rows.push(BlockRow::File { path: file.path.clone(), additions, deletions, mark, selected });
    let ghost head = blocks_text(rows@);
    proof {
        assert(head =~= file_rows(*file, true, selected, hunks@));
    }
    if collapsed {
        return rows;
    }
    let mut i: usize = 0;
    proof {
        assert(file.hunks@.take(0) =~= Seq::empty());
        assert(blocks_text(rows@) =~= head + all_hunk_rows(
            file.path@,
            file.hunks@.take(0),
            hunks@,
        ));
    }
    while i < file.hunks.len()
        invariant
            0 <= i <= file.hunks@.len(),
            countable(*file),
            blocks_text(rows@) == head + all_hunk_rows(
                file.path@,
                file.hunks@.take(i as int),
                hunks@,
            ),
        decreases file.hunks.len() - i,
    {
        let ghost before = rows@;
        let mut more: Vec<BlockRow<String>> = hunk_block(
            file.path.as_str(),
            &file.hunks[i],
            hunks,
        );
        let ghost added = more@;
        rows.append(&mut more);
        proof {
            assert(file.hunks@.take(i + 1).drop_last() =~= file.hunks@.take(i as int));
            assert(file.hunks@.take(i + 1).last() == file.hunks@[i as int]);
            assert(rows@ =~= before + added);
            assert(blocks_text(rows@) =~= blocks_text(before) + blocks_text(added));
            assert(blocks_text(rows@) =~= head + all_hunk_rows(
                file.path@,
                file.hunks@.take(i + 1),
                hunks@,
            ));
        }
        i = i + 1;
    }
    proof {
        assert(file.hunks@.take(i as int) =~= file.hunks@);
    }
    rows
}

/// The rows of files, one behind the other.
pub open spec fn inline_rows(
    files: Seq<GitDiffFile>,
    folded: Map<Seq<char>, ()>,
    chosen_files: Map<Seq<char>, ()>,
    hunks: Seq<(String, String)>,
) -> Seq<BlockRow<Seq<char>>>
    decreases files.len(),
{
    if files.len() == 0 {
        Seq::empty()
    } else {
        let file = files.last();
        inline_rows(files.drop_last(), folded, chosen_files, hunks) + file_rows(
            file,
            folded.contains_key(file.path@),
            chosen_files.contains_key(file.path@),
            hunks,
        )
    }
}

/// The changes of the files, one file behind the other.
pub fn diff_inline(
    files: &Vec<GitDiffFile>,
    folded: &Table<()>,
    chosen_files: &Table<()>,
    hunks: &Vec<(String, String)>,
) -> (r: Vec<BlockRow<String>>)
    requires
        forall|i: int| 0 <= i < files@.len() ==> countable(#[trigger] files@[i]),
    ensures
        blocks_text(r@) == inline_rows(files@, folded@, chosen_files@, hunks@),
{
    let mut rows: Vec<BlockRow<String>> = Vec::new();
    let mut i: usize = 0;
    proof {
        assert(files@.take(0) =~= Seq::empty());
        assert(blocks_text(rows@) =~= Seq::empty());
    }
    while i < files.len()
        invariant
            0 <= i <= files@.len(),
            forall|i: int| 0 <= i < files@.len() ==> countable(#[trigger] files@[i]),
            blocks_text(rows@) == inline_rows(
                files@.take(i as int),
                folded@,
                chosen_files@,
                hunks@,
            ),
        decreases files.len() - i,
    {
        let ghost before = rows@;
        proof {
            assert(files@.take(i + 1).drop_last() =~= files@.take(i as int));
            assert(files@.take(i + 1).last() == files@[i as int]);
        }
        let path: &str = files[i].path.as_str();
        let mut more: Vec<BlockRow<String>> = diff_file_block(
            &files[i],
            folded.contains(path),
            chosen_files.contains(path),
            hunks,
        );
        let ghost added = more@;
        rows.append(&mut more);
        proof {
            assert(rows@ =~= before + added);
            assert(blocks_text(rows@) =~= blocks_text(before) + blocks_text(added));
        }
        i = i + 1;
    }
    proof {
        assert(files@.take(i as int) =~= files@);
    }
    rows
}

} // verus!
