//! Reviewing changes: what is folded, and comments on files and on lines.
use super::AmuxApp;
use crate::common::domain::{ContentBlock, GitDiffHunk, GitDiffLine, GitDiffResult};
use crate::desktop::app::browse;
use crate::desktop::app::browse::toggle_set;
use crate::desktop::diff::{CommentTarget, LineRef, LineSelection};
use crate::desktop::panels::changes;
use crate::desktop::panels::changes::all_collapsed;
use crate::strings;
use crate::strings::{is_blank, join, same, trim};
use crate::table::Table;
use vstd::prelude::*;

verus! {

/// A file with a path was changed.
pub open spec fn is_changed(result: Option<GitDiffResult>, path: Seq<char>) -> bool {
    result matches Some(diff) && exists|i: int|
        0 <= i < diff.files@.len() && (#[trigger] diff.files@[i]).path@ == path
}

/// The first of some changed files have a path.
pub open spec fn among_first(diff: GitDiffResult, n: int, path: Seq<char>) -> bool {
    exists|i: int| 0 <= i < n && (#[trigger] diff.files@[i]).path@ == path
}

fn fold_all(folded: &mut Table<()>, diff: &GitDiffResult, fold: bool)
    ensures
        forall|path: Seq<char>| #[trigger]
            final(folded)@.contains_key(path) == if among_first(
                *diff,
                diff.files@.len() as int,
                path,
            ) {
                fold
            } else {
                old(folded)@.contains_key(path)
            },
{
    let mut i: usize = 0;
    while i < diff.files.len()
        invariant
            0 <= i <= diff.files@.len(),
            forall|path: Seq<char>| #[trigger]
                folded@.contains_key(path) == if among_first(*diff, i as int, path) {
                    fold
                } else {
                    old(folded)@.contains_key(path)
                },
        decreases diff.files.len() - i,
    {
        let ghost before = folded@;
        let path: &str = diff.files[i].path.as_str();
        if fold {
            let _ = folded.insert(path.to_owned(), ());
        } else {
            let _ = folded.remove(path);
        }
        proof {
            assert forall|p: Seq<char>| #[trigger]
                folded@.contains_key(p) == if among_first(*diff, i + 1, p) {
                    fold
                } else {
                    old(folded)@.contains_key(p)
                } by {
                if p == path@ {
                    assert(diff.files@[i as int].path@ == p);
                    assert(among_first(*diff, i + 1, p));
                } else {
                    assert(folded@.contains_key(p) == before.contains_key(p));
                    if among_first(*diff, i + 1, p) {
                        let k = choose|k: int|
                            0 <= k < i + 1 && (#[trigger] diff.files@[k]).path@ == p;
                        assert(k != i);
                        assert(among_first(*diff, i as int, p));
                    } else if among_first(*diff, i as int, p) {
                        let k = choose|k: int|
                            0 <= k < i && (#[trigger] diff.files@[k]).path@ == p;
                        assert(among_first(*diff, i + 1, p));
                    }
                }
            }
        }
        i = i + 1;
    }
}

/// A line as a unified diff has it.
pub open spec fn marked_line(line: GitDiffLine) -> Seq<char> {
    seq![line.kind.mark()] + line.text@
}

/// The lines of a run from one to another, as far as it has them.
pub open spec fn lines_between(lines: Seq<GitDiffLine>, start: nat, end: nat) -> Seq<Seq<char>> {
    let from = if start < lines.len() {
        start as int
    } else {
        lines.len() as int
    };
    let to = if end + 1 < lines.len() {
        end as int + 1
    } else {
        lines.len() as int
    };
    lines.subrange(from, to).map_values(|line: GitDiffLine| marked_line(line))
}

/// The smaller and the larger of the two ends of a selection.
pub open spec fn ends(selection: LineSelection) -> (nat, nat) {
    let a = selection.start.line as nat;
    let b = selection.end.line as nat;
    if a <= b {
        (a, b)
    } else {
        (b, a)
    }
}

/// The lines that were chosen, one below the other.
pub open spec fn chosen_code(hunk: GitDiffHunk, selection: LineSelection) -> Seq<char> {
    strings::join_of(lines_between(hunk.lines@, ends(selection).0, ends(selection).1), "\n"@)
}

fn code_between(lines: &Vec<GitDiffLine>, start: usize, end: usize) -> (r: String)
    requires
        start <= end,
    ensures
        r@ == strings::join_of(lines_between(lines@, start as nat, end as nat), "\n"@),
{
    let total: usize = lines.len();
    let from: usize = if start < total {
        start
    } else {
        total
    };
    let to: usize = if end < total {
        end + 1
    } else {
        total
    };
    let ghost shown = lines_between(lines@, start as nat, end as nat);
    let mut parts: Vec<String> = Vec::new();
    let mut i: usize = from;
    while i < to
        invariant
            from <= i <= to <= lines@.len(),
            shown == lines@.subrange(from as int, to as int).map_values(
                |line: GitDiffLine| marked_line(line),
            ),
            parts@.len() == i - from,
            forall|k: int| 0 <= k < parts@.len() ==> (#[trigger] parts@[k])@ == shown[k],
        decreases to - i,
    {
        let mut part: String = String::new();
        part.push(lines[i].kind.prefix());
        part.append(lines[i].text.as_str());
        proof {
            assert(part@ =~= marked_line(lines@[i as int]));
            assert(lines@.subrange(from as int, to as int)[i - from] == lines@[i as int]);
        }
        parts.push(part);
        i = i + 1;
    }
    proof {
        assert(strings::views(parts@) =~= shown);
    }
    join(&parts, "\n")
}

impl AmuxApp {
    /// Folds or unfolds a directory of the tree of changes.
    pub fn toggle_diff_dir(&mut self, key: &str)
        ensures
            final(self).diff_collapsed_dirs@ == browse::toggled(old(self).diff_collapsed_dirs@, key@),
            *final(self) == (AmuxApp {
                diff_collapsed_dirs: final(self).diff_collapsed_dirs,
                ..*old(self)
            }),
    {
        toggle_set(&mut self.diff_collapsed_dirs, key);
    }

    /// Folds or unfolds the tree of changes.
    pub fn toggle_diff_tree(&mut self)
        ensures
            *final(self) == (AmuxApp {
                diff_tree_visible: !old(self).diff_tree_visible,
                ..*old(self)
            }),
    {
        self.diff_tree_visible = !self.diff_tree_visible;
    }

    /// Folds all changed files, or unfolds them where all are folded.
    pub fn toggle_all_diffs(&mut self)
        ensures
            ({
                let result = old(self).core.view.detail.diff;
                let fold = !changes::all_folded(result, old(self).diff_collapsed_files@);
                forall|path: Seq<char>| #[trigger]
                    final(self).diff_collapsed_files@.contains_key(path) == if is_changed(
                        result,
                        path,
                    ) {
                        fold
                    } else {
                        old(self).diff_collapsed_files@.contains_key(path)
                    }
            }),
            *final(self) == (AmuxApp {
                diff_collapsed_files: final(self).diff_collapsed_files,
                ..*old(self)
            }),
    {
        let fold: bool = !all_collapsed(&self.core.view.detail.diff, &self.diff_collapsed_files);
        match &self.core.view.detail.diff {
            Some(diff) => {
                fold_all(&mut self.diff_collapsed_files, diff, fold);
                proof {
                    assert forall|path: Seq<char>|
                        is_changed(old(self).core.view.detail.diff, path) == #[trigger] among_first(
                            *diff,
                            diff.files@.len() as int,
                            path,
                        ) by {}
                }
            },
            None => {},
        }
    }

    /// Begins a comment on a file.
    pub fn begin_diff_file_comment(&mut self, path: &str)
        ensures
            final(self).diff_comment_target matches Some(CommentTarget::File { path: p }) && p@
                == path@,
            *final(self) == (AmuxApp {
                diff_comment_target: final(self).diff_comment_target,
                ..*old(self)
            }),
    {
        self.diff_comment_target = Some(CommentTarget::File { path: path.to_owned() });
    }

    /// Begins to choose lines.
    pub fn begin_diff_line_selection(&mut self, line: LineRef)
        ensures
            *final(self) == (AmuxApp {
                diff_comment_target: None,
                diff_line_selection: Some(LineSelection { start: line, end: line }),
                ..*old(self)
            }),
    {
        self.diff_comment_target = None;
        self.diff_line_selection = Some(LineSelection { start: line.clone(), end: line });
    }

    /// Chooses up to another line of the same run.
    pub fn extend_diff_line_selection(&mut self, line: LineRef)
        ensures
            *final(self) == match old(self).diff_line_selection {
                Some(selection) => if selection.start.path@ == line.path@
                    && selection.start.hunk_header@ == line.hunk_header@ {
                    AmuxApp {
                        diff_line_selection: Some(
                            LineSelection { start: selection.start, end: line },
                        ),
                        ..*old(self)
                    }
                } else {
                    *old(self)
                },
                None => *old(self),
            },
    {
        let start: LineRef = match &self.diff_line_selection {
            Some(selection) => {
                if !(same(selection.start.path.as_str(), line.path.as_str()) && same(
                    selection.start.hunk_header.as_str(),
                    line.hunk_header.as_str(),
                )) {
                    return;
                }
                selection.start.clone()
            },
            None => {
                return;
            },
        };
        self.diff_line_selection = Some(LineSelection { start, end: line });
    }

    /// The lines are chosen: they are what the comment is on.
    pub fn finish_diff_line_selection(&mut self, hunk: &GitDiffHunk)
        ensures
            match old(self).diff_line_selection {
                None => *final(self) == *old(self),
                Some(selection) => {
                    &&& final(self).diff_comment_target matches Some(
                        CommentTarget::Code { path, hunk_header, code },
                    ) && path@ == selection.start.path@ && hunk_header@ == hunk.header@ && code@
                        == chosen_code(*hunk, selection)
                    &&& *final(self) == (AmuxApp {
                        diff_comment_target: final(self).diff_comment_target,
                        diff_line_selection: None,
                        ..*old(self)
                    })
                },
            },
    {
        let target: CommentTarget = match &self.diff_line_selection {
            None => {
                return;
            },
            Some(selection) => {
                let a: usize = selection.start.line;
                let b: usize = selection.end.line;
                let code: String = if a <= b {
                    code_between(&hunk.lines, a, b)
                } else {
                    code_between(&hunk.lines, b, a)
                };
                CommentTarget::Code {
                    path: selection.start.path.clone(),
                    hunk_header: hunk.header.clone(),
                    code,
                }
            },
        };
        self.diff_line_selection = None;
        self.diff_comment_target = Some(target);
    }

    /// Gives up the comment and the lines that were chosen.
    pub fn cancel_diff_comment(&mut self)
        ensures
            *final(self) == (AmuxApp {
                diff_comment_target: None,
                diff_line_selection: None,
                ..*old(self)
            }),
    {
        self.diff_comment_target = None;
        self.diff_line_selection = None;
    }

    /// Sends the comment to the session. An empty one is not sent, and what it is on stays.
    pub fn submit_diff_comment(&mut self, comment: &str) -> (r: Option<Vec<ContentBlock>>)
        ensures
            match old(self).diff_comment_target {
                Some(target) => if strings::blank(comment@) {
                    r is None && *final(self) == *old(self)
                } else {
                    &&& r is Some
                    &&& r->0@.len() == 1
                    &&& r->0@[0] matches ContentBlock::Text { text } && text@
                        == target.message_text(strings::trim_of(comment@))
                    &&& *final(self) == (AmuxApp {
                        diff_comment_target: None,
                        diff_line_selection: None,
                        ..*old(self)
                    })
                },
                None => r is None && *final(self) == *old(self),
            },
    {
        let text: String = match &self.diff_comment_target {
            Some(target) => {
                if is_blank(comment) {
                    return None;
                }
                target.message(trim(comment).as_str())
            },
            None => {
                return None;
            },
        };
        self.diff_comment_target = None;
        self.diff_line_selection = None;
        Some(vec![ContentBlock::Text { text }])
    }
}

} // verus!
