//! Changes and worktrees of a repository.

use amux::common::domain::{GitChangeStatus, GitDiffFile, GitDiffLineKind};
use amux::daemon::git::unified::{compare, hunks_of, DiffAlgorithm};
use amux::daemon::git::worktree::{
    add_command, list_command, listed, prune_command, remove_command, run, suffix_of, worktree_dir_for,
    worktree_dir_named, worktree_suffix, FoundWorktrees, LinkedWorktree, ListStep, Ran, RemovalStep,
};
use amux::daemon::git::{
    changed_paths, cwd_relative_path, file_diff, how_to_read, modified_patch, whole_file_patch,
    ChangedFile, Comparison, DiskKind, DiskRead, FileStates, FoundRepo, GitRunner, StatusItem,
};
use amux::desktop::diff::hunk_start;

fn changed(path: &str, states: FileStates) -> ChangedFile {
    ChangedFile { path: path.as_bytes().to_vec(), states }
}

fn both(old: &str, new: &str) -> FileStates {
    FileStates::Both(Comparison::Texts {
        algorithm: DiffAlgorithm::Histogram,
        old: old.as_bytes().to_vec(),
        new: new.as_bytes().to_vec(),
    })
}

fn repo(files: Vec<ChangedFile>) -> FoundRepo {
    FoundRepo::Changed { workdir: "/repo".into(), files }
}

fn content_of(file: &GitDiffFile) -> String {
    file.hunks
        .iter()
        .flat_map(|hunk| hunk.lines.iter())
        .map(|line| line.text.as_str())
        .collect::<Vec<_>>()
        .join("\n")
}

#[test]
fn diff_lists_changes() {
    let st = GitRunner::new().diff(
        "/repo",
        repo(vec![
            changed("a.txt", both("line1\nline2\n", "line1\nCHANGED\n")),
            changed("new.txt", FileStates::OnlyNew(Some(b"new\n".to_vec()))),
        ]),
    );
    assert!(!st.not_repo);
    assert!(st
        .files
        .iter()
        .any(|f| f.path == "a.txt" && matches!(f.status, GitChangeStatus::Modified)));
    assert!(st
        .files
        .iter()
        .any(|f| f.path == "new.txt" && matches!(f.status, GitChangeStatus::Added)));
}

#[test]
fn diff_includes_untracked_files() {
    let paths = changed_paths(vec![StatusItem::Untracked {
        path: b"untracked.txt".to_vec(),
        kind: DiskKind::File,
    }])
    .unwrap();
    assert_eq!(paths, [b"untracked.txt".to_vec()]);
    let result = GitRunner::new().diff(
        "/repo",
        repo(vec![changed(
            "untracked.txt",
            FileStates::OnlyNew(Some(b"not staged\n".to_vec())),
        )]),
    );
    let file = result.files.iter().find(|file| file.path == "untracked.txt").unwrap();
    assert!(matches!(file.status, GitChangeStatus::Added));
    assert!(content_of(file).contains("not staged"));
}

#[test]
fn non_repo_marks_not_repo() {
    assert!(GitRunner::new().diff("/plain", FoundRepo::NotARepo).not_repo);
}

#[test]
fn a_repository_without_commits_has_no_changes() {
    for found in [FoundRepo::NoCommit, FoundRepo::Failed] {
        let result = GitRunner::new().diff("/repo", found);
        assert!(result.files.is_empty());
    }
}

#[test]
fn diff_returns_structured_files() {
    let d = GitRunner::new().diff(
        "/repo",
        repo(vec![
            changed("a.txt", both("line1\nline2\n", "line1\nCHANGED\nline3\n")),
            changed("new.txt", FileStates::OnlyNew(Some(b"hello\nworld\n".to_vec()))),
        ]),
    );
    assert!(!d.not_repo);
    let a = d.files.iter().find(|f| f.path == "a.txt").expect("a.txt");
    assert_eq!(a.additions, 2);
    assert_eq!(a.deletions, 1);
    assert!(matches!(a.status, GitChangeStatus::Modified));
    assert_eq!(a.hunks.len(), 1);
    assert!(a.hunks[0].header.starts_with("@@ "));
    assert!(content_of(a).contains("CHANGED"));
    let n = d.files.iter().find(|f| f.path == "new.txt").expect("new.txt");
    assert!(matches!(n.status, GitChangeStatus::Added));
    assert_eq!(n.additions, 2);
}

#[test]
fn deleted_and_binary_files_are_told_apart() {
    let gone = file_diff("a".into(), FileStates::OnlyOld(b"x\ny\n".to_vec())).unwrap();
    assert!(matches!(gone.status, GitChangeStatus::Deleted));
    assert_eq!((gone.additions, gone.deletions), (0, 2));
    let binary = file_diff("a".into(), FileStates::Both(Comparison::Binary)).unwrap();
    assert!(binary.hunks.is_empty());
    assert!(file_diff("a".into(), FileStates::Neither).is_none());
    assert!(file_diff("a".into(), both("same\n", "same\n")).is_none_or(|file| file.hunks.is_empty()));
}

#[test]
fn paths_are_told_once_and_in_order() {
    let paths = changed_paths(vec![
        StatusItem::Changed(b"b".to_vec()),
        StatusItem::Staged(b"a".to_vec()),
        StatusItem::Staged(b"b".to_vec()),
        StatusItem::StagedRename,
        StatusItem::Untracked { path: b"socket".to_vec(), kind: DiskKind::Other },
    ])
    .unwrap();
    assert_eq!(paths, [b"a".to_vec(), b"b".to_vec()]);
    assert!(changed_paths(vec![StatusItem::Failed]).is_none());
}

#[test]
fn hunks_hold_three_lines_of_context() {
    let old = "1\n2\n3\n4\n5\n6\n7\n8\n9\n";
    let new = "1\n2\n3\n4\nX\n6\n7\n8\n9\n";
    for algorithm in [DiffAlgorithm::Histogram, DiffAlgorithm::Myers, DiffAlgorithm::MyersMinimal] {
        let patch = modified_patch(algorithm, old.as_bytes(), new.as_bytes(), "head\n");
        assert_eq!((patch.additions, patch.deletions), (1, 1));
        assert_eq!(patch.hunks.len(), 1);
        assert_eq!(patch.hunks[0].header, "@@ -2,7 +2,7 @@");
        let kinds: Vec<char> = patch.hunks[0].lines.iter().map(|line| line.kind.prefix()).collect();
        assert_eq!(kinds.iter().collect::<String>(), "   -+   ");
        assert!(patch.hunks[0].patch.starts_with("head\n@@ -2,7 +2,7 @@\n"), "{}", patch.hunks[0].patch);
    }
}

#[test]
fn far_changes_are_separate_hunks() {
    let old: String = (0..40).map(|n| format!("{n}\n")).collect();
    let new = old.replace("5\n6\n", "5\nnew\n6\n").replacen("30\n", "", 1);
    let hunks = compare(DiffAlgorithm::Histogram, 3, old.as_bytes(), new.as_bytes());
    assert_eq!(hunks.len(), 2);
    assert_eq!(hunks[0].header.before_hunk_len + 1, hunks[0].header.after_hunk_len);
    assert_eq!(hunks[1].header.before_hunk_len, hunks[1].header.after_hunk_len + 1);
    assert!(compare(DiffAlgorithm::Histogram, 3, b"same\n", b"same\n").is_empty());
}

#[test]
fn unified_text_is_read_back() {
    let text = b"@@ -1,2 +1,2 @@\n a\n-b\n+c\n".to_vec();
    let hunks = hunks_of(&text).unwrap();
    assert_eq!(hunks.len(), 1);
    assert_eq!(hunks[0].header.before_hunk_start, 1);
    let kinds: Vec<GitDiffLineKind> = hunks[0].lines.iter().map(|line| line.kind).collect();
    assert_eq!(
        kinds,
        [GitDiffLineKind::Context, GitDiffLineKind::Remove, GitDiffLineKind::Add]
    );
    assert!(hunks_of(&b"no header\n".to_vec()).is_none());
}

#[test]
fn whole_files_are_one_hunk() {
    let patch = whole_file_patch(b"a\nb\n", true, "h\n");
    assert_eq!((patch.additions, patch.deletions), (2, 0));
    assert_eq!(patch.hunks.len(), 1);
    let none = whole_file_patch(b"", false, "h\n");
    assert_eq!((none.additions, none.deletions), (0, 0));
}

#[test]
fn paths_are_told_from_the_working_directory() {
    assert_eq!(cwd_relative_path("/repo", "/repo", "src/a.rs"), "src/a.rs");
    assert_eq!(cwd_relative_path("/repo", "/repo/src", "src/a.rs"), "a.rs");
    assert_eq!(cwd_relative_path("/repo", "/repo/src", "doc/b"), "doc/b");
    assert_eq!(cwd_relative_path("/w", "/w/sub", "sub/a//b"), "a//b");
    assert_eq!(cwd_relative_path("/w", "/w/sub", "sub//./a/./b/."), "a/./b");
    assert_eq!(cwd_relative_path("/w", "/w/sub", "sub"), "");
}

#[test]
fn worktree_dir_follows_amux_convention() {
    let target = worktree_dir_for("/r/project", Some("/r/project"), Ok(()), "/root/worktrees").unwrap();
    let (parent, name) = target.rsplit_once('/').unwrap();
    assert_eq!(parent, "/root/worktrees");
    let suffix = name.strip_prefix("project-").unwrap_or_default();
    assert_eq!(suffix.len(), 5, "{name}");
    assert!(suffix.chars().all(|ch| ch.is_ascii_alphanumeric()), "{suffix}");
    assert_eq!(
        worktree_dir_for("/x", None, Ok(()), "/root").unwrap_err(),
        "不是 git 仓库: /x"
    );
    assert_eq!(
        worktree_dir_for("/x", Some("/x"), Err("denied".into()), "/root").unwrap_err(),
        "创建 worktree 根目录失败: denied"
    );
}

#[test]
fn a_worktree_is_named_after_its_repository() {
    assert_eq!(suffix_of("0123456789abcdef"), "01234");
    assert_eq!(
        worktree_dir_named("/r/project", Some("/r/project"), Ok(()), "/root", "01234"),
        Ok("/root/project-01234".into())
    );
    assert_eq!(
        worktree_dir_named("/", Some("/"), Ok(()), "/root", "01234"),
        Ok("/root/repo-01234".into())
    );
}

#[test]
fn worktree_suffix_is_five_alphanumeric_chars() {
    let suffix = worktree_suffix();
    assert_eq!(suffix.len(), 5);
    assert!(suffix.chars().all(|ch| ch.is_ascii_alphanumeric()));
    let others: Vec<String> = (0..20).map(|_| worktree_suffix()).collect();
    assert!(others.iter().any(|other| *other != suffix));
}

#[test]
fn worktree_can_be_created_listed_and_removed() {
    let git = GitRunner::new();
    let target = "/root/worktrees/project-abcde";
    assert_eq!(add_command(target), ["worktree", "add", target]);
    assert!(git.add_worktree(target, Ran::Succeeded(Vec::new())).is_ok());
    assert_eq!(git.worktree_new(target, Ran::Succeeded(Vec::new())), Ok(target.into()));
    assert_eq!(git.worktree_resume(target, Ran::Succeeded(Vec::new())), Ok(target.into()));
    let error = git.worktree_new(target, Ran::Failed(b"fatal: no\n".to_vec())).unwrap_err();
    assert!(error.contains("fatal: no"), "{error}");

    let linked = |name: &str, base: &str| LinkedWorktree {
        git_dir: format!("/r/.git/worktrees/{name}"),
        base: Ok(base.into()),
    };
    let ListStep::Done(paths) = git.worktree_list(
        "/r",
        FoundWorktrees::Found {
            main: Some("/r".into()),
            linked: vec![linked("z", "/w/z"), linked("a", target)],
        },
    ) else {
        panic!()
    };
    assert_eq!(paths, ["/r", target, "/w/z"]);

    assert_eq!(remove_command(target), ["worktree", "remove", "--force", target]);
    assert_eq!(prune_command(), ["worktree", "prune"]);
    let mut step = git.worktree_remove(true);
    assert_eq!(step, RemovalStep::Remove);
    step = step.next(false);
    assert_eq!(step, RemovalStep::DeleteDir);
    step = step.next(true);
    assert_eq!(step, RemovalStep::Prune);
    assert_eq!(step.next(true), RemovalStep::Done);
    assert_eq!(RemovalStep::Remove.next(true), RemovalStep::Prune);
}

#[test]
fn git_is_asked_where_worktrees_cannot_be_listed() {
    let git = GitRunner::new();
    let ListStep::AskGit(earlier) = git.worktree_list("/r", FoundWorktrees::Failed("odd".into())) else {
        panic!()
    };
    assert!(earlier.contains("odd"));
    assert_eq!(list_command(), ["worktree", "list", "--porcelain"]);
    let out = b"worktree /r\nHEAD 1\n\nworktree /w/a\n".to_vec();
    assert_eq!(
        git.worktree_listed(earlier.clone(), Ran::Succeeded(out)),
        Ok(vec!["/r".into(), "/w/a".into()])
    );
    assert!(git.worktree_listed(earlier, Ran::NotRun("no git".into())).is_err());
    assert_eq!(listed("HEAD 1\nworktree a b\n"), ["a b"]);
    let error = run(&vec!["x".into(), "y".into()], Ran::Failed(b"bad\xff".to_vec())).unwrap_err();
    assert_eq!(error.message, "git x y 失败");
    assert_eq!(error.stderr, "bad\u{fffd}");
    let broken = git.worktree_list_gix(
        "/r",
        FoundWorktrees::Found {
            main: None,
            linked: vec![LinkedWorktree { git_dir: "/g".into(), base: Err("cut".into()) }],
        },
    );
    assert!(broken.unwrap_err().contains("cut"));
}

#[test]
fn links_are_shown_by_their_target() {
    assert_eq!(how_to_read(DiskKind::Symlink), DiskRead::Target);
    assert_eq!(how_to_read(DiskKind::File), DiskRead::Content);
    assert_eq!(how_to_read(DiskKind::Other), DiskRead::Nothing);
}

/// The starts that a head is given are those that the client reads from it.
#[test]
fn starts_of_a_run_are_read_back() {
    let patch = modified_patch(DiffAlgorithm::Histogram, b"a\nb\nc\nd\ne\n", b"a\nb\nc\nd\nE\n", "");
    assert_eq!(hunk_start(&patch.hunks[0].header), (2, 2));
}
