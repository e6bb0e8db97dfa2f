//! Worktrees: where they go, what Git is asked to do about them, and what comes of it.
use super::{components, GitRunner};
use crate::common::paths;
use crate::common::paths::join_path;
use crate::daemon::git;
use crate::encoding;
use crate::encoding::from_utf8_lossy;
use crate::ids;
use crate::ids::new_simple_id;
use crate::sorting;
use crate::sorting::{sort, text_le, Ranked};
use crate::strings;
use crate::strings::{clipped, join, lines, replace_char, same, strip_prefix, trim};
use vstd::prelude::*;
use vstd::utf8::*;

verus! {

/// What went wrong with a run of the Git program.
#[derive(Debug)]
pub struct GitError {
    pub message: String,
    /// What the program wrote about it.
    pub stderr: String,
}

/// What came of a run of the Git program.
pub enum Ran {
    /// It succeeded and wrote this.
    Succeeded(Vec<u8>),
    /// It failed and wrote this about it.
    Failed(Vec<u8>),
    /// It did not run; the text says why.
    NotRun(String),
}

/// The outcome of a run of the Git program with the given arguments.
pub fn run(args: &Vec<String>, ran: Ran) -> (r: Result<String, GitError>)
    ensures
        match ran {
            Ran::Succeeded(bytes) => r is Ok && r->Ok_0@ == encoding::lossy_text(bytes@),
            Ran::Failed(bytes) => r is Err && r->Err_0.message@ == "git "@ + strings::join_of(
                strings::views(args@),
                " "@,
            ) + " 失败"@ && r->Err_0.stderr@ == encoding::lossy_text(bytes@),
            Ran::NotRun(cause) => r is Err && r->Err_0.message@ == "git 执行失败: "@ + cause@
                && r->Err_0.stderr@.len() == 0,
        },
{
    match ran {
        Ran::Succeeded(bytes) => Ok(from_utf8_lossy(bytes.as_slice())),
        Ran::Failed(bytes) => {
            let mut message: String = "git ".to_owned();
            message.append(join(args, " ").as_str());
            message.append(" 失败");
            Err(GitError { message, stderr: from_utf8_lossy(bytes.as_slice()) })
        },
        Ran::NotRun(cause) => {
            let mut message: String = "git 执行失败: ".to_owned();
            message.append(cause.as_str());
            Err(GitError { message, stderr: String::new() })
        },
    }
}

/// What is said of a run that failed.
pub open spec fn failure_text(error: GitError) -> Seq<char> {
    error.message@ + ": "@ + strings::trim_of(error.stderr@)
}

fn told(error: &GitError) -> (r: String)
    ensures
        r@ == failure_text(*error),
{
    let mut r: String = error.message.clone();
    r.append(": ");
    r.append(trim(error.stderr.as_str()).as_str());
    r
}

fn words3(a: &str, b: &str, c: &str) -> (r: Vec<String>)
    ensures
        strings::views(r@) == seq![a@, b@, c@],
{
    let mut r: Vec<String> = Vec::new();
    r.push(a.to_owned());
    r.push(b.to_owned());
    r.push(c.to_owned());
    proof {
        assert(strings::views(r@) =~= seq![a@, b@, c@]);
    }
    r
}

/// The arguments that make a worktree. Git names its branch after the last part of the path, and
/// takes up a branch of that name.
pub fn add_command(target: &str) -> (r: Vec<String>)
    ensures
        strings::views(r@) == seq!["worktree"@, "add"@, target@],
{
    words3("worktree", "add", target)
}

/// The arguments that drop what Git knows of worktrees that are gone.
pub fn prune_command() -> (r: Vec<String>)
    ensures
        strings::views(r@) == seq!["worktree"@, "prune"@],
{
    let mut r: Vec<String> = Vec::new();
    r.push("worktree".to_owned());
    r.push("prune".to_owned());
    proof {
        assert(strings::views(r@) =~= seq!["worktree"@, "prune"@]);
    }
    r
}

/// The arguments that remove a worktree with all that is in it.
pub fn remove_command(target: &str) -> (r: Vec<String>)
    ensures
        strings::views(r@) == seq!["worktree"@, "remove"@, "--force"@, target@],
{
    let mut r: Vec<String> = words3("worktree", "remove", "--force");
    let ghost first = r@;
    r.push(target.to_owned());
    proof {
        assert(strings::views(r@) =~= strings::views(first).push(target@));
        assert(strings::views(r@) =~= seq!["worktree"@, "remove"@, "--force"@, target@]);
    }
    r
}

/// The arguments that list the worktrees.
pub fn list_command() -> (r: Vec<String>)
    ensures
        strings::views(r@) == seq!["worktree"@, "list"@, "--porcelain"@],
{
    words3("worktree", "list", "--porcelain")
}

/// The end for the name of a worktree that an identity gives: its first five characters.
pub fn suffix_of(id: &str) -> (r: String)
    ensures
        r@ == strings::clip(id@, 5),
{
    clipped(id, 5)
}

/// A random end for the name of a worktree: five hexadecimal digits.
pub fn worktree_suffix() -> (r: String)
    ensures
        r@.len() == 5,
        forall|i: int| 0 <= i < 5 ==> ids::hex_digit(#[trigger] r@[i]),
{
    let id: String = new_simple_id();
    let r: String = suffix_of(id.as_str());
    proof {
        assert forall|i: int| 0 <= i < 5 implies ids::hex_digit(#[trigger] r@[i]) by {
            assert(r@[i] == id@[i]);
        }
    }
    r
}

/// The last part of a path, where it is a name.
pub open spec fn last_name(path: Seq<char>) -> Option<Seq<char>> {
    let parts = git::components_of(path);
    if parts.len() == 0 || parts.last() == "/"@ || parts.last() == ".."@ || parts.last() == "."@ {
        None
    } else {
        Some(parts.last())
    }
}

/// The name of a worktree's directory without its random end.
pub open spec fn base_name(workdir: Seq<char>) -> Seq<char> {
    match last_name(workdir) {
        Some(name) => name,
        None => "repo"@,
    }
}

fn name_of(workdir: &str) -> (r: String)
    ensures
        r@ == base_name(workdir@),
{
    let mut parts: Vec<String> = components(workdir);
    let ghost all = strings::views(parts@);
    match parts.pop() {
        Some(last) => {
            proof {
                assert(all.last() == last@);
            }
            let text: &str = last.as_str();
            if same(text, "/") || same(text, "..") || same(text, ".") {
                "repo".to_owned()
            } else {
                last
            }
        },
        None => "repo".to_owned(),
    }
}

/// Where a new worktree goes, given the end of its name: under the root, named after the repository.
/// Where there is no repository, or the root could not be made, it is said why.
pub fn worktree_dir_named(
    repo: &str,
    workdir: Option<&str>,
    made: Result<(), String>,
    root: &str,
    suffix: &str,
) -> (r: Result<String, String>)
    ensures
        match (workdir, made) {
            (None, _) => r is Err && r->Err_0@ == "不是 git 仓库: "@ + repo@,
            (Some(_), Err(cause)) => r is Err && r->Err_0@ == "创建 worktree 根目录失败: "@
                + cause@,
            (Some(workdir), Ok(_)) => r is Ok && r->Ok_0@ == paths::joined(
                root@,
                base_name(workdir@) + "-"@ + suffix@,
            ),
        },
{
    match workdir {
        None => {
            let mut message: String = "不是 git 仓库: ".to_owned();
            message.append(repo);
            Err(message)
        },
        Some(workdir) => match made {
            Err(cause) => {
                let mut message: String = "创建 worktree 根目录失败: ".to_owned();
                message.append(cause.as_str());
                Err(message)
            },
            Ok(_) => {
                let mut name: String = name_of(workdir);
                name.append("-");
                name.append(suffix);
                Ok(join_path(root, name.as_str()))
            },
        },
    }
}

/// Where a new worktree goes: under the root, named after the repository with a random end.
pub fn worktree_dir_for(
    repo: &str,
    workdir: Option<&str>,
    made: Result<(), String>,
    root: &str,
) -> (r: Result<String, String>)
    ensures
        match (workdir, made) {
            (None, _) => r is Err && r->Err_0@ == "不是 git 仓库: "@ + repo@,
            (Some(_), Err(cause)) => r is Err && r->Err_0@ == "创建 worktree 根目录失败: "@
                + cause@,
            (Some(workdir), Ok(_)) => r is Ok && exists|end: Seq<char>|
                {
                    &&& end.len() == 5
                    &&& forall|i: int| 0 <= i < 5 ==> ids::hex_digit(#[trigger] end[i])
                    &&& r->Ok_0@ == #[trigger] paths::joined(
                        root@,
                        base_name(workdir@) + "-"@ + end,
                    )
                },
        },
{
    let end: String = worktree_suffix();
    worktree_dir_named(repo, workdir, made, root, end.as_str())
}

/// The paths in what Git lists of worktrees.
pub open spec fn listed_paths(lines: Seq<Seq<char>>) -> Seq<Seq<char>>
    decreases lines.len(),
{
    if lines.len() == 0 {
        Seq::empty()
    } else {
        let less = listed_paths(lines.drop_last());
        if "worktree "@.is_prefix_of(lines.last()) {
            less.push(lines.last().skip("worktree "@.len() as int))
        } else {
            less
        }
    }
}

/// The paths in what Git lists of worktrees.
pub fn listed(out: &str) -> (r: Vec<String>)
    ensures
        strings::views(r@) == listed_paths(strings::lines_of(out@)),
{
    let rows: Vec<String> = lines(out);
    let ghost all = strings::views(rows@);
    let mut paths: Vec<String> = Vec::new();
    let mut i: usize = 0;
    proof {
        assert(all.take(0) =~= Seq::empty());
        assert(strings::views(paths@) =~= Seq::empty());
    }
    while i < rows.len()
        invariant
            0 <= i <= rows@.len(),
            all == strings::views(rows@),
            strings::views(paths@) == listed_paths(all.take(i as int)),
        decreases rows.len() - i,
    {
        let ghost before = paths@;
        proof {
            assert(all.take(i + 1).drop_last() =~= all.take(i as int));
            assert(all.take(i + 1).last() == rows@[i as int]@);
        }
        match strip_prefix(rows[i].as_str(), "worktree ") {
            Some(path) => {
                paths.push(path);
                proof {
                    assert(strings::views(paths@) =~= strings::views(before).push(path@));
                }
            },
            None => {},
        }
        i = i + 1;
    }
    proof {
        assert(all.take(i as int) =~= all);
    }
    paths
}

/// A worktree beside the main one.
pub struct LinkedWorktree {
    /// Where Git keeps what it knows of the worktree. All of these lie in one directory.
    pub git_dir: String,
    /// Where the worktree is, or why that cannot be told.
    pub base: Result<String, String>,
}

impl Ranked for LinkedWorktree {
    open spec fn ranks(self, other: Self) -> bool {
        sorting::text_at_most(self.git_dir@, other.git_dir@)
    }

    proof fn total(a: Self, b: Self) {
        sorting::lemma_bytes_total(encode_utf8(a.git_dir@), encode_utf8(b.git_dir@));
    }

    proof fn transitive(a: Self, b: Self, c: Self) {
        sorting::lemma_bytes_transitive(
            encode_utf8(a.git_dir@),
            encode_utf8(b.git_dir@),
            encode_utf8(c.git_dir@),
        );
    }

    fn at_most(&self, other: &Self) -> (r: bool) {
        text_le(self.git_dir.as_str(), other.git_dir.as_str())
    }
}

/// The worktrees that were found.
pub enum FoundWorktrees {
    /// The directory is in no repository; the text says why.
    NotARepo(String),
    /// They cannot be listed; the text says why.
    Failed(String),
    /// The main one, where there is one, and the others.
    Found { main: Option<String>, linked: Vec<LinkedWorktree> },
}

/// The places of worktrees, or the first of the reasons why one cannot be told.
pub open spec fn bases(linked: Seq<LinkedWorktree>) -> Result<Seq<Seq<char>>, Seq<char>>
    decreases linked.len(),
{
    if linked.len() == 0 {
        Ok(Seq::empty())
    } else {
        match bases(linked.drop_last()) {
            Ok(less) => match linked.last().base {
                Ok(base) => Ok(less.push(base@)),
                Err(cause) => Err(cause@),
            },
            Err(cause) => Err(cause),
        }
    }
}

/// The paths of the worktrees that were found, the main one first and the others in the order in
/// which Git keeps them.
pub open spec fn found_paths(repo: Seq<char>, found: FoundWorktrees) -> Result<
    Seq<Seq<char>>,
    Seq<char>,
> {
    match found {
        FoundWorktrees::NotARepo(cause) => Err("不是 git 仓库: "@ + repo + ": "@ + cause@),
        FoundWorktrees::Failed(cause) => Err("枚举 worktree 失败: "@ + cause@),
        FoundWorktrees::Found { main, linked } => {
            let first = match main {
                Some(path) => seq![path@],
                None => Seq::empty(),
            };
            match bases(sorting::sorted_of(linked@)) {
                Ok(rest) => Ok(first + rest),
                Err(cause) => Err("读取 worktree 路径失败: "@ + cause),
            }
        },
    }
}

/// The views of an outcome.
pub open spec fn paths_seen(r: Result<Vec<String>, String>) -> Result<Seq<Seq<char>>, Seq<char>> {
    match r {
        Ok(paths) => Ok(strings::views(paths@)),
        Err(message) => Err(message@),
    }
}

proof fn lemma_bases_broken(linked: Seq<LinkedWorktree>, n: int, cause: Seq<char>)
    requires
        0 <= n <= linked.len(),
        bases(linked.take(n)) == Err::<Seq<Seq<char>>, Seq<char>>(cause),
    ensures
        bases(linked) == Err::<Seq<Seq<char>>, Seq<char>>(cause),
    decreases linked.len() - n,
{
    if n < linked.len() {
        assert(linked.take(n + 1).drop_last() =~= linked.take(n));
        lemma_bases_broken(linked, n + 1, cause);
    } else {
        assert(linked.take(n) =~= linked);
    }
}

/// What is asked next when the worktrees of a repository are listed.
pub enum ListStep {
    /// These are they.
    Done(Vec<String>),
    /// The Git program is asked; the text is what is said where it lists none.
    AskGit(String),
}

/// What is done next when a worktree is removed.
#[derive(Debug, Clone, Copy, PartialEq, Eq, Structural)]
pub enum RemovalStep {
    /// Ask Git to remove it.
    Remove,
    /// Delete its directory.
    DeleteDir,
    /// Ask Git to drop what it knows of worktrees that are gone.
    Prune,
    Done,
}

impl RemovalStep {
    /// What follows a step.
    pub open spec fn after(self, succeeded: bool) -> RemovalStep {
        match self {
            RemovalStep::Remove => if succeeded {
                RemovalStep::Prune
            } else {
                RemovalStep::DeleteDir
            },
            RemovalStep::DeleteDir => RemovalStep::Prune,
            RemovalStep::Prune => RemovalStep::Done,
            RemovalStep::Done => RemovalStep::Done,
        }
    }

    /// What follows a step.
    pub fn next(self, succeeded: bool) -> (r: Self)
        ensures
            r == self.after(succeeded),
    {
        match self {
            RemovalStep::Remove => if succeeded {
                RemovalStep::Prune
            } else {
                RemovalStep::DeleteDir
            },
            RemovalStep::DeleteDir => RemovalStep::Prune,
            RemovalStep::Prune => RemovalStep::Done,
            RemovalStep::Done => RemovalStep::Done,
        }
    }
}

/// However removing a worktree goes, Git is asked to drop what it knows of it in the end, and the
/// directory is deleted here unless Git removed it.
pub proof fn law_removal_ends_with_pruning(step: RemovalStep, outcomes: Seq<bool>)
    requires
        step is Remove || step is DeleteDir,
        outcomes.len() >= 3,
    ensures
        ({
            let s1 = step.after(outcomes[0]);
            let s2 = s1.after(outcomes[1]);
            let s3 = s2.after(outcomes[2]);
            &&& s3 is Done
            &&& s1 is Prune || s2 is Prune
            &&& step is DeleteDir || outcomes[0] || s1 is DeleteDir
        }),
{
}

impl GitRunner {
    /// The path of a worktree that Git was asked to make there.
    pub fn worktree_new(&self, target: &str, ran: Ran) -> (r: Result<String, String>)
        ensures
            match ran {
                Ran::Succeeded(_) => r is Ok && r->Ok_0@ == strings::replaced(target@, '\\', '/'),
                Ran::Failed(bytes) => r is Err && r->Err_0@ == "git worktree add "@ + target@
                    + " 失败: "@ + strings::trim_of(encoding::lossy_text(bytes@)),
                Ran::NotRun(cause) => r is Err && r->Err_0@ == "git 执行失败: "@ + cause@ + ": "@,
            },
    {
        match self.add_worktree(target, ran) {
            Ok(_) => Ok(replace_char(target, '\\', '/')),
            Err(message) => Err(message),
        }
    }

    /// The path of a worktree that Git was asked to make again at its old place.
    pub fn worktree_resume(&self, path: &str, ran: Ran) -> (r: Result<String, String>)
        ensures
            match ran {
                Ran::Succeeded(_) => r is Ok && r->Ok_0@ == strings::replaced(path@, '\\', '/'),
                Ran::Failed(bytes) => r is Err && r->Err_0@ == "git worktree add "@ + path@
                    + " 失败: "@ + strings::trim_of(encoding::lossy_text(bytes@)),
                Ran::NotRun(cause) => r is Err && r->Err_0@ == "git 执行失败: "@ + cause@ + ": "@,
            },
    {
        self.worktree_new(path, ran)
    }

    /// What came of asking Git to make a worktree.
    pub fn add_worktree(&self, target: &str, ran: Ran) -> (r: Result<(), String>)
        ensures
            match ran {
                Ran::Succeeded(_) => r is Ok,
                Ran::Failed(bytes) => r is Err && r->Err_0@ == "git worktree add "@ + target@
                    + " 失败: "@ + strings::trim_of(encoding::lossy_text(bytes@)),
                Ran::NotRun(cause) => r is Err && r->Err_0@ == "git 执行失败: "@ + cause@ + ": "@,
            },
    {
        let args: Vec<String> = add_command(target);
        proof {
            let parts = seq!["worktree"@, "add"@, target@];
            reveal_with_fuel(strings::join_of, 3);
            reveal_strlit("worktree");
            reveal_strlit("add");
            reveal_strlit(" ");
            reveal_strlit("git ");
            reveal_strlit("git worktree add ");
            reveal_strlit(" 失败");
            reveal_strlit(": ");
            reveal_strlit(" 失败: ");
            assert(parts.drop_last() =~= seq!["worktree"@, "add"@]);
            assert(parts.drop_last().drop_last() =~= seq!["worktree"@]);
            assert("git "@ + strings::join_of(parts, " "@) =~= "git worktree add "@ + target@);
            assert(" 失败"@ + ": "@ =~= " 失败: "@);
        }
        match run(&args, ran) {
            Ok(_) => Ok(()),
            Err(error) => {
                let text: String = told(&error);
                proof {
                    if ran is Failed {
                        assert(text@ =~= "git worktree add "@ + target@ + (" 失败"@ + ": "@)
                            + strings::trim_of(error.stderr@));
                    } else {
                        assert(error.stderr@ =~= Seq::empty());
                        assert(strings::trim_of(error.stderr@) =~= Seq::empty());
                        assert(text@ =~= error.message@ + ": "@);
                    }
                }
                Err(text)
            },
        }
    }

    /// The paths of the worktrees that gix found: the main one and the others.
    pub fn worktree_list_gix(&self, repo: &str, found: FoundWorktrees) -> (r: Result<
        Vec<String>,
        String,
    >)
        ensures
            paths_seen(r) == found_paths(repo@, found),
    {
        match found {
            FoundWorktrees::NotARepo(cause) => {
                let mut message: String = "不是 git 仓库: ".to_owned();
                message.append(repo);
                message.append(": ");
                message.append(cause.as_str());
                Err(message)
            },
            FoundWorktrees::Failed(cause) => {
                let mut message: String = "枚举 worktree 失败: ".to_owned();
                message.append(cause.as_str());
                Err(message)
            },
            FoundWorktrees::Found { main, linked } => {
                let mut paths: Vec<String> = Vec::new();
                match main {
                    Some(path) => paths.push(path),
                    None => {},
                }
                let ghost first = strings::views(paths@);
                let sorted: Vec<LinkedWorktree> = sort(linked);
                let ghost all = sorted@;
                proof {
                    assert(first =~= match main {
                        Some(path) => seq![path@],
                        None => Seq::empty(),
                    });
                    assert(all.take(0) =~= Seq::empty());
                    assert(first + Seq::empty() =~= first);
                }
                for one in it: sorted
                    invariant
                        it.seq() == all,
                        bases(all.take(it.index() as int)) is Ok,
                        strings::views(paths@) == first + bases(
                            all.take(it.index() as int),
                        )->Ok_0,
                        found_paths(repo@, found) == match bases(all) {
                            Ok(rest) => Ok::<Seq<Seq<char>>, Seq<char>>(first + rest),
                            Err(cause) => Err("读取 worktree 路径失败: "@ + cause),
                        },
                {
                    let ghost before = paths@;
                    let ghost n = it.index() as int;
                    let ghost less = bases(all.take(n))->Ok_0;
                    proof {
                        assert(all.take(n + 1).drop_last() =~= all.take(n));
                        assert(all.take(n + 1).last() == one);
                    }
                    match one.base {
                        Ok(base) => {
                            paths.push(base);
                            proof {
                                assert(strings::views(paths@) =~= strings::views(before).push(
                                    base@,
                                ));
                                assert(strings::views(paths@) =~= first + less.push(base@));
                            }
                        },
                        Err(cause) => {
                            proof {
                                lemma_bases_broken(all, n + 1, cause@);
                            }
                            let mut message: String = "读取 worktree 路径失败: ".to_owned();
                            message.append(cause.as_str());
                            return Err(message);
                        },
                    }
                }
                proof {
                    assert(all.take(all.len() as int) =~= all);
                }
                Ok(paths)
            },
        }
    }

    /// The paths of the worktrees of a repository, or the need to ask the Git program for them.
    pub fn worktree_list(&self, repo: &str, found: FoundWorktrees) -> (r: ListStep)
        ensures
            match found_paths(repo@, found) {
                Ok(paths) => r is Done && strings::views(r->Done_0@) == paths,
                Err(message) => r is AskGit && r->AskGit_0@ == message,
            },
    {
        match self.worktree_list_gix(repo, found) {
            Ok(paths) => ListStep::Done(paths),
            Err(message) => ListStep::AskGit(message),
        }
    }

    /// The paths of the worktrees that the Git program listed; where it listed none, what was said
    /// before it was asked.
    pub fn worktree_listed(&self, earlier: String, ran: Ran) -> (r: Result<Vec<String>, String>)
        ensures
            match ran {
                Ran::Succeeded(bytes) => {
                    let paths = listed_paths(strings::lines_of(encoding::lossy_text(bytes@)));
                    if paths.len() == 0 {
                        r == Err::<Vec<String>, String>(earlier)
                    } else {
                        r is Ok && strings::views(r->Ok_0@) == paths
                    }
                },
                Ran::Failed(bytes) => r is Err && r->Err_0@ == "git "@ + strings::join_of(
                    seq!["worktree"@, "list"@, "--porcelain"@],
                    " "@,
                ) + " 失败"@ + ": "@ + strings::trim_of(encoding::lossy_text(bytes@)),
                Ran::NotRun(cause) => r is Err && r->Err_0@ == "git 执行失败: "@ + cause@ + ": "@,
            },
    {
        match run(&list_command(), ran) {
            Ok(out) => {
                let paths: Vec<String> = listed(out.as_str());
                proof {
                    assert(strings::views(paths@).len() == paths@.len());
                }
                if paths.len() == 0 {
                    Err(earlier)
                } else {
                    Ok(paths)
                }
            },
            Err(error) => {
                proof {
                    if ran is NotRun {
                        assert(error.stderr@ =~= Seq::empty());
                        assert(strings::trim_of(error.stderr@) =~= Seq::empty());
                        assert(failure_text(error) =~= error.message@ + ": "@);
                    }
                }
                Err(told(&error))
            },
        }
    }

    /// The first step of removing a worktree: Git is asked where its repository is still there.
    pub fn worktree_remove(&self, repo_found: bool) -> (r: RemovalStep)
        ensures
            r == if repo_found {
                RemovalStep::Remove
            } else {
                RemovalStep::DeleteDir
            },
    {
        if repo_found {
            RemovalStep::Remove
        } else {
            RemovalStep::DeleteDir
        }
    }
}

} // verus!
