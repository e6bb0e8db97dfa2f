//! The tree of changed files. Only directories with changed files below them are in it, and a
//! directory that holds nothing but one directory makes one node with it.
use crate::common::domain::GitDiffFile;
use crate::strings;
use crate::strings::{among, same, split};
use vstd::prelude::*;

verus! {

/// A node of the tree.
#[derive(Debug, PartialEq, Eq)]
pub struct DiffNode {
    /// What is shown; for directories in one node, their names with slashes between them.
    pub name: String,
    /// The whole path.
    pub key: String,
    /// What is in a directory.
    pub children: Vec<DiffNode>,
    /// The place of a file in the list of changed files.
    pub file_ix: Option<usize>,
}

/// A file: the parts of its path from some directory on, and its place in the list.
pub type FileParts = (Seq<Seq<char>>, usize);

/// The files at their places, by the parts of their paths.
pub open spec fn parts_of(files: Seq<GitDiffFile>) -> Seq<FileParts> {
    Seq::new(files.len(), |i: int| (strings::split_of(files[i].path@, '/'), i as usize))
}

/// The file is in the directory itself.
pub open spec fn direct(file: FileParts) -> bool {
    file.0.len() <= 1
}

/// The files in the directory itself.
pub open spec fn direct_files(files: Seq<FileParts>) -> Seq<FileParts>
    decreases files.len(),
{
    if files.len() == 0 {
        Seq::empty()
    } else {
        let less = direct_files(files.drop_last());
        if direct(files.last()) {
            less.push(files.last())
        } else {
            less
        }
    }
}

/// The directories in the directory, in the order in which they come up.
pub open spec fn directories(files: Seq<FileParts>) -> Seq<Seq<char>>
    decreases files.len(),
{
    if files.len() == 0 {
        Seq::empty()
    } else {
        let less = directories(files.drop_last());
        if direct(files.last()) || less.contains(files.last().0[0]) {
            less
        } else {
            less.push(files.last().0[0])
        }
    }
}

/// The files below a directory in the directory, as seen from it.
pub open spec fn inside(files: Seq<FileParts>, name: Seq<char>) -> Seq<FileParts>
    decreases files.len(),
{
    if files.len() == 0 {
        Seq::empty()
    } else {
        let less = inside(files.drop_last(), name);
        if !direct(files.last()) && files.last().0[0] == name {
            less.push((files.last().0.skip(1), files.last().1))
        } else {
            less
        }
    }
}

/// How many parts all paths have.
pub open spec fn weight(files: Seq<FileParts>) -> nat
    decreases files.len(),
{
    if files.len() == 0 {
        0
    } else {
        weight(files.drop_last()) + files.last().0.len()
    }
}

/// Paths are shorter inside a directory.
pub proof fn lemma_inside_weight(files: Seq<FileParts>, name: Seq<char>)
    ensures
        weight(inside(files, name)) + inside(files, name).len() <= weight(files),
    decreases files.len(),
{
    if files.len() > 0 {
        let less = files.drop_last();
        lemma_inside_weight(less, name);
        let before = inside(less, name);
        if !direct(files.last()) && files.last().0[0] == name {
            let file = (files.last().0.skip(1), files.last().1);
            assert(before.push(file).drop_last() =~= before);
        }
    }
}

/// A name below a path.
pub open spec fn below(prefix: Seq<char>, name: Seq<char>) -> Seq<char> {
    if prefix.len() == 0 {
        name
    } else {
        prefix + "/"@ + name
    }
}

/// The nodes show the files below a directory: first its directories, then its files.
pub open spec fn shows(nodes: Seq<DiffNode>, files: Seq<FileParts>, prefix: Seq<char>) -> bool
    decreases weight(files), 2nat, 0nat,
{
    let dirs = directories(files);
    let own = direct_files(files);
    &&& nodes.len() == dirs.len() + own.len()
    &&& shows_dirs(nodes.take(dirs.len() as int), dirs, files, prefix)
    &&& shows_files(nodes.skip(dirs.len() as int), own, prefix)
}

/// The nodes show directories.
pub open spec fn shows_dirs(
    nodes: Seq<DiffNode>,
    dirs: Seq<Seq<char>>,
    files: Seq<FileParts>,
    prefix: Seq<char>,
) -> bool
    decreases weight(files), 1nat, dirs.len(),
{
    if dirs.len() == 0 {
        nodes.len() == 0
    } else {
        proof {
            lemma_inside_weight(files, dirs.last());
        }
        &&& nodes.len() == dirs.len()
        &&& shows_dirs(nodes.drop_last(), dirs.drop_last(), files, prefix)
        &&& inside(files, dirs.last()).len() > 0
        &&& shows_dir(nodes.last(), dirs.last(), inside(files, dirs.last()), prefix)
    }
}

/// The files hold no file of the directory itself, and only one directory.
pub open spec fn one_directory(files: Seq<FileParts>) -> bool {
    direct_files(files).len() == 0 && directories(files).len() == 1
}

/// The node shows a directory with these files below it, together with the directories that it
/// makes one node with.
pub open spec fn shows_dir(
    node: DiffNode,
    name: Seq<char>,
    files: Seq<FileParts>,
    prefix: Seq<char>,
) -> bool
    decreases weight(files), 3nat, 0nat,
{
    if one_directory(files) {
        let next = directories(files)[0];
        proof {
            lemma_inside_weight(files, next);
        }
        &&& inside(files, next).len() > 0
        &&& shows_dir(node, name + "/"@ + next, inside(files, next), prefix)
    } else {
        &&& node.name@ == name
        &&& node.key@ == below(prefix, name)
        &&& node.file_ix is None
        &&& shows(node.children@, files, below(prefix, name))
    }
}

/// The nodes show files.
pub open spec fn shows_files(nodes: Seq<DiffNode>, files: Seq<FileParts>, prefix: Seq<char>) -> bool {
    &&& nodes.len() == files.len()
    &&& forall|i: int|
        0 <= i < nodes.len() ==> {
            &&& (#[trigger] nodes[i]).name@ == files[i].0[0]
            &&& nodes[i].key@ == below(prefix, files[i].0[0])
            &&& nodes[i].children@.len() == 0
            &&& nodes[i].file_ix == Some(files[i].1)
        }
}

struct Entry {
    parts: Vec<String>,
    ix: usize,
}

spec fn entry_parts(e: Entry) -> FileParts {
    (strings::views(e.parts@), e.ix)
}

spec fn entries(files: Seq<Entry>) -> Seq<FileParts> {
    files.map_values(|e: Entry| entry_parts(e))
}

fn key_of(prefix: &str, name: &str) -> (r: String)
    ensures
        r@ == below(prefix@, name@),
{
    if prefix.is_empty() {
        name.to_owned()
    } else {
        let mut r: String = prefix.to_owned();
        r.append("/");
        r.append(name);
        r
    }
}

fn dirs_of(files: &Vec<Entry>) -> (r: Vec<String>)
    requires
        forall|i: int| 0 <= i < files@.len() ==> (#[trigger] files@[i]).parts@.len() > 0,
    ensures
        strings::views(r@) == directories(entries(files@)),
{
    let mut out: Vec<String> = Vec::new();
    let ghost all = entries(files@);
    let mut i: usize = 0;
    proof {
        assert(all.take(0) =~= Seq::empty());
        assert(strings::views(out@) =~= Seq::empty());
    }
    while i < files.len()
        invariant
            0 <= i <= files@.len(),
            all == entries(files@),
            forall|k: int| 0 <= k < files@.len() ==> (#[trigger] files@[k]).parts@.len() > 0,
            strings::views(out@) == directories(all.take(i as int)),
        decreases files.len() - i,
    {
        let ghost before = out@;
        let file: &Entry = &files[i];
        proof {
            assert(files@[i as int].parts@.len() > 0);
            assert(all.take(i + 1).drop_last() =~= all.take(i as int));
            assert(all.take(i + 1).last() == entry_parts(*file));
            assert(strings::views(file.parts@).len() == file.parts@.len());
            assert(strings::views(file.parts@)[0] == file.parts@[0]@);
        }
        if file.parts.len() > 1 && !among(&out, file.parts[0].as_str()) {
            out.push(file.parts[0].clone());
            proof {
                assert(strings::views(out@) =~= strings::views(before).push(file.parts@[0]@));
            }
        }
        i = i + 1;
    }
    proof {
        assert(all.take(i as int) =~= all);
    }
    out
}

fn has_direct(files: &Vec<Entry>) -> (r: bool)
    ensures
        r == (direct_files(entries(files@)).len() > 0),
{
    let ghost all = entries(files@);
    let mut i: usize = 0;
    proof {
        assert(all.take(0) =~= Seq::empty());
    }
    while i < files.len()
        invariant
            0 <= i <= files@.len(),
            all == entries(files@),
            direct_files(all.take(i as int)).len() == 0,
        decreases files.len() - i,
    {
        proof {
            assert(all.take(i + 1).drop_last() =~= all.take(i as int));
            assert(all.take(i + 1).last() == entry_parts(files@[i as int]));
            assert(strings::views(files@[i as int].parts@).len() == files@[i as int].parts@.len());
        }
        if files[i].parts.len() <= 1 {
            proof {
                lemma_direct_grows(all, i + 1);
            }
            return true;
        }
        i = i + 1;
    }
    proof {
        assert(all.take(i as int) =~= all);
    }
    false
}

proof fn lemma_direct_grows(files: Seq<FileParts>, n: int)
    requires
        0 <= n <= files.len(),
    ensures
        direct_files(files.take(n)).len() <= direct_files(files).len(),
    decreases files.len() - n,
{
    if n < files.len() {
        assert(files.take(n + 1).drop_last() =~= files.take(n));
        lemma_direct_grows(files, n + 1);
    } else {
        assert(files.take(n) =~= files);
    }
}

fn tail(parts: &Vec<String>) -> (r: Vec<String>)
    requires
        parts@.len() > 0,
    ensures
        strings::views(r@) == strings::views(parts@).skip(1),
        r@.len() == parts@.len() - 1,
{
    let mut out: Vec<String> = Vec::new();
    let mut i: usize = 1;
    proof {
        assert(strings::views(out@) =~= strings::views(parts@).subrange(1, 1));
    }
    while i < parts.len()
        invariant
            1 <= i <= parts@.len(),
            out@.len() == i - 1,
            strings::views(out@) == strings::views(parts@).subrange(1, i as int),
        decreases parts.len() - i,
    {
        let ghost before = out@;
        out.push(parts[i].clone());
        i = i + 1;
        proof {
            assert(strings::views(out@) =~= strings::views(before).push(parts@[i - 1]@));
            assert(strings::views(out@) =~= strings::views(parts@).subrange(1, i as int));
        }
    }
    proof {
        assert(strings::views(out@) =~= strings::views(parts@).skip(1));
    }
    out
}

fn inside_of(files: &Vec<Entry>, name: &str) -> (r: Vec<Entry>)
    requires
        forall|i: int| 0 <= i < files@.len() ==> (#[trigger] files@[i]).parts@.len() > 0,
    ensures
        entries(r@) == inside(entries(files@), name@),
        forall|i: int| 0 <= i < r@.len() ==> (#[trigger] r@[i]).parts@.len() > 0,
{
    let mut out: Vec<Entry> = Vec::new();
    let ghost all = entries(files@);
    let mut i: usize = 0;
    proof {
        assert(all.take(0) =~= Seq::empty());
        assert(entries(out@) =~= Seq::empty());
    }
    while i < files.len()
        invariant
            0 <= i <= files@.len(),
            all == entries(files@),
            forall|k: int| 0 <= k < files@.len() ==> (#[trigger] files@[k]).parts@.len() > 0,
            forall|k: int| 0 <= k < out@.len() ==> (#[trigger] out@[k]).parts@.len() > 0,
            entries(out@) == inside(all.take(i as int), name@),
        decreases files.len() - i,
    {
        let ghost before = out@;
        let file: &Entry = &files[i];
        proof {
            assert(files@[i as int].parts@.len() > 0);
            assert(all.take(i + 1).drop_last() =~= all.take(i as int));
            assert(all.take(i + 1).last() == entry_parts(*file));
            assert(strings::views(file.parts@).len() == file.parts@.len());
            assert(strings::views(file.parts@)[0] == file.parts@[0]@);
        }
        if file.parts.len() > 1 && same(file.parts[0].as_str(), name) {
            let rest: Vec<String> = tail(&file.parts);
            out.push(Entry { parts: rest, ix: file.ix });
            proof {
                assert(entries(out@) =~= entries(before).push(
                    (strings::views(file.parts@).skip(1), file.ix),
                ));
            }
        }
        i = i + 1;
    }
    proof {
        assert(all.take(i as int) =~= all);
    }
    out
}

proof fn lemma_directory_has_files(files: Seq<FileParts>, name: Seq<char>)
    requires
        directories(files).contains(name),
    ensures
        inside(files, name).len() > 0,
    decreases files.len(),
{
    if files.len() > 0 {
        let less = files.drop_last();
        if directories(less).contains(name) {
            lemma_directory_has_files(less, name);
        } else {
            let last = files.last();
            assert(directories(files) == directories(less).push(last.0[0]));
            let i = directories(files).index_of(name);
            if i < directories(less).len() {
                assert(directories(less)[i] == name);
                assert(directories(less).contains(name));
            }
            assert(last.0[0] == name);
        }
    }
}

fn dir_node(name: String, files: &Vec<Entry>, prefix: &str) -> (r: DiffNode)
    requires
        forall|i: int| 0 <= i < files@.len() ==> (#[trigger] files@[i]).parts@.len() > 0,
    ensures
        shows_dir(r, name@, entries(files@), prefix@),
    decreases weight(entries(files@)), 3nat,
{
    let dirs: Vec<String> = dirs_of(files);
    let ghost all = entries(files@);
    proof {
        assert(strings::views(dirs@).len() == dirs@.len());
    }
    if dirs.len() == 1 && !has_direct(files) {
        let next: &str = dirs[0].as_str();
        let rest: Vec<Entry> = inside_of(files, next);
        let mut longer: String = name.clone();
        longer.append("/");
        longer.append(next);
        proof {
            assert(strings::views(dirs@)[0] == next@);
            assert(directories(all).contains(next@));
            lemma_directory_has_files(all, next@);
            lemma_inside_weight(all, next@);
        }
        return dir_node(longer, &rest, prefix);
    }
    let key: String = key_of(prefix, name.as_str());
    let children: Vec<DiffNode> = to_nodes(files, key.as_str());
    DiffNode { name, key, children, file_ix: None }
}

proof fn lemma_shows_dirs_push(
    nodes: Seq<DiffNode>,
    dirs: Seq<Seq<char>>,
    files: Seq<FileParts>,
    prefix: Seq<char>,
    node: DiffNode,
    name: Seq<char>,
)
    requires
        shows_dirs(nodes, dirs, files, prefix),
        inside(files, name).len() > 0,
        shows_dir(node, name, inside(files, name), prefix),
    ensures
        shows_dirs(nodes.push(node), dirs.push(name), files, prefix),
{
    assert(nodes.push(node).drop_last() =~= nodes);
    assert(dirs.push(name).drop_last() =~= dirs);
    assert(nodes.len() == dirs.len());
}

fn to_nodes(files: &Vec<Entry>, prefix: &str) -> (r: Vec<DiffNode>)
    requires
        forall|i: int| 0 <= i < files@.len() ==> (#[trigger] files@[i]).parts@.len() > 0,
    ensures
        shows(r@, entries(files@), prefix@),
    decreases weight(entries(files@)), 2nat,
{
    let ghost all = entries(files@);
    let dirs: Vec<String> = dirs_of(files);
    let ghost names = strings::views(dirs@);
    let mut out: Vec<DiffNode> = Vec::new();
    let mut i: usize = 0;
    proof {
        assert(names.take(0) =~= Seq::empty());
    }
    while i < dirs.len()
        invariant
            0 <= i <= dirs@.len(),
            all == entries(files@),
            names == strings::views(dirs@),
            names == directories(all),
            forall|k: int| 0 <= k < files@.len() ==> (#[trigger] files@[k]).parts@.len() > 0,
            out@.len() == i,
            shows_dirs(out@, names.take(i as int), all, prefix@),
        decreases dirs.len() - i,
    {
        let ghost before = out@;
        let name: &String = &dirs[i];
        let rest: Vec<Entry> = inside_of(files, name.as_str());
        proof {
            assert(names[i as int] == name@);
            assert(directories(all).contains(name@));
            lemma_directory_has_files(all, name@);
            lemma_inside_weight(all, name@);
        }
        let node: DiffNode = dir_node(name.clone(), &rest, prefix);
        out.push(node);
        proof {
            lemma_shows_dirs_push(before, names.take(i as int), all, prefix@, node, name@);
            assert(names.take(i as int).push(name@) =~= names.take(i + 1));
        }
        i = i + 1;
    }
    proof {
        assert(names.take(i as int) =~= names);
    }
    let ghost first = out@;
    let ghost count = out@.len() as int;
    let mut j: usize = 0;
    proof {
        assert(all.take(0) =~= Seq::empty());
        assert(out@.skip(count) =~= Seq::empty());
    }
    while j < files.len()
        invariant
            0 <= j <= files@.len(),
            all == entries(files@),
            forall|k: int| 0 <= k < files@.len() ==> (#[trigger] files@[k]).parts@.len() > 0,
            count <= out@.len(),
            count == first.len(),
            out@.take(count) == first,
            shows_files(out@.skip(count), direct_files(all.take(j as int)), prefix@),
        decreases files.len() - j,
    {
        let file: &Entry = &files[j];
        let ghost before = out@;
        proof {
            assert(files@[j as int].parts@.len() > 0);
            assert(all.take(j + 1).drop_last() =~= all.take(j as int));
            assert(all.take(j + 1).last() == entry_parts(*file));
            assert(strings::views(file.parts@).len() == file.parts@.len());
            assert(strings::views(file.parts@)[0] == file.parts@[0]@);
        }
        if file.parts.len() == 1 {
            let name: &str = file.parts[0].as_str();
            let node = DiffNode {
                name: name.to_owned(),
                key: key_of(prefix, name),
                children: Vec::new(),
                file_ix: Some(file.ix),
            };
            out.push(node);
            proof {
                let less = direct_files(all.take(j as int));
                let more = direct_files(all.take(j + 1));
                assert(more == less.push(entry_parts(*file)));
                assert(out@.take(count) =~= first);
                assert(out@.skip(count) =~= before.skip(count).push(node));
                let shown = out@.skip(count);
                assert forall|i: int| 0 <= i < shown.len() implies {
                    &&& (#[trigger] shown[i]).name@ == more[i].0[0]
                    &&& shown[i].key@ == below(prefix@, more[i].0[0])
                    &&& shown[i].children@.len() == 0
                    &&& shown[i].file_ix == Some(more[i].1)
                } by {
                    if i < less.len() {
                        assert(shown[i] == before.skip(count)[i]);
                        assert(more[i] == less[i]);
                    }
                }
            }
        }
        j = j + 1;
    }
    proof {
        assert(all.take(j as int) =~= all);
    }
    out
}

/// The tree of changed files: directories before files, each in the order in which they come up.
pub fn build(files: &Vec<GitDiffFile>) -> (r: Vec<DiffNode>)
    ensures
        shows(r@, parts_of(files@), Seq::empty()),
{
    let mut all: Vec<Entry> = Vec::new();
    let mut i: usize = 0;
    while i < files.len()
        invariant
            0 <= i <= files@.len(),
            all@.len() == i,
            forall|k: int| 0 <= k < i ==> (#[trigger] all@[k]).parts@.len() > 0,
            forall|k: int|
                0 <= k < i ==> entry_parts(#[trigger] all@[k]) == parts_of(files@)[k],
        decreases files.len() - i,
    {
        let parts: Vec<String> = split(files[i].path.as_str(), '/');
        proof {
            lemma_parts(files@[i as int].path@);
            assert(strings::views(parts@).len() == parts@.len());
        }
        all.push(Entry { parts, ix: i });
        i = i + 1;
    }
    proof {
        assert(entries(all@) =~= parts_of(files@));
        reveal_strlit("");
        assert(""@ =~= Seq::empty());
    }
    to_nodes(&all, "")
}

proof fn lemma_parts(path: Seq<char>)
    ensures
        strings::split_of(path, '/').len() > 0,
{
}

/// The file stands in the tree under a path.
pub open spec fn in_tree(nodes: Seq<DiffNode>, key: Seq<char>, ix: usize) -> bool
    decreases nodes,
{
    exists|i: int|
        0 <= i < nodes.len() && (((#[trigger] nodes[i]).file_ix == Some(ix) && nodes[i].key@ == key)
            || in_tree(nodes[i].children@, key, ix))
}

/// The file stands at the node, or below it, under a path.
pub open spec fn in_node(node: DiffNode, key: Seq<char>, ix: usize) -> bool {
    (node.file_ix == Some(ix) && node.key@ == key) || in_tree(node.children@, key, ix)
}

proof fn lemma_direct_at(files: Seq<FileParts>, k: int) -> (i: int)
    requires
        0 <= k < files.len(),
        direct(files[k]),
    ensures
        0 <= i < direct_files(files).len(),
        direct_files(files)[i] == files[k],
    decreases files.len(),
{
    let less = files.drop_last();
    if k == files.len() - 1 {
        direct_files(less).len() as int
    } else {
        assert(less[k] == files[k]);
        let i = lemma_direct_at(less, k);
        i
    }
}

proof fn lemma_inside_at(files: Seq<FileParts>, k: int) -> (i: int)
    requires
        0 <= k < files.len(),
        !direct(files[k]),
    ensures
        0 <= i < inside(files, files[k].0[0]).len(),
        inside(files, files[k].0[0])[i] == (files[k].0.skip(1), files[k].1),
        directories(files).contains(files[k].0[0]),
    decreases files.len(),
{
    let less = files.drop_last();
    let name = files[k].0[0];
    if k == files.len() - 1 {
        let i = inside(less, name).len() as int;
        if !directories(less).contains(name) {
            assert(directories(files)[directories(less).len() as int] == name);
        }
        i
    } else {
        assert(less[k] == files[k]);
        let i = lemma_inside_at(less, k);
        let at = directories(less).index_of(name);
        assert(directories(files)[at] == name);
        i
    }
}

proof fn lemma_dir_shown(
    nodes: Seq<DiffNode>,
    dirs: Seq<Seq<char>>,
    files: Seq<FileParts>,
    prefix: Seq<char>,
    name: Seq<char>,
) -> (i: int)
    requires
        shows_dirs(nodes, dirs, files, prefix),
        dirs.contains(name),
    ensures
        0 <= i < nodes.len(),
        nodes.len() == dirs.len(),
        shows_dir(nodes[i], name, inside(files, name), prefix),
    decreases dirs.len(),
{
    let at = dirs.index_of(name);
    if at == dirs.len() - 1 {
        at
    } else {
        let less = dirs.drop_last();
        assert(less[at] == name);
        assert(less.contains(name));
        lemma_dir_shown(nodes.drop_last(), less, files, prefix, name)
    }
}

proof fn lemma_found_at(nodes: Seq<DiffNode>, i: int, key: Seq<char>, ix: usize)
    requires
        0 <= i < nodes.len(),
        in_node(nodes[i], key, ix),
    ensures
        in_tree(nodes, key, ix),
{
    reveal_with_fuel(in_tree, 2);
}

proof fn lemma_file_in_dir(
    node: DiffNode,
    name: Seq<char>,
    files: Seq<FileParts>,
    prefix: Seq<char>,
    k: int,
)
    requires
        shows_dir(node, name, files, prefix),
        prefix.len() > 0 || name.len() > 0,
        0 <= k < files.len(),
        files[k].0.len() > 0,
    ensures
        in_node(
            node,
            below(prefix, name) + "/"@ + strings::join_of(files[k].0, "/"@),
            files[k].1,
        ),
    decreases weight(files), 3nat,
{
    let parts = files[k].0;
    if one_directory(files) {
        let next = directories(files)[0];
        if direct(files[k]) {
            let i = lemma_direct_at(files, k);
            assert(false);
        }
        let i = lemma_inside_at(files, k);
        assert(parts[0] == next);
        let rest = inside(files, next);
        lemma_inside_weight(files, next);
        lemma_file_in_dir(node, name + "/"@ + next, rest, prefix, i);
        strings::lemma_join_front(parts, "/"@);
        assert(below(prefix, name + "/"@ + next) + "/"@ + strings::join_of(parts.skip(1), "/"@)
            =~= below(prefix, name) + "/"@ + strings::join_of(parts, "/"@));
    } else {
        lemma_file_in_tree(node.children@, files, below(prefix, name), k);
    }
}

proof fn lemma_file_in_tree(
    nodes: Seq<DiffNode>,
    files: Seq<FileParts>,
    prefix: Seq<char>,
    k: int,
)
    requires
        shows(nodes, files, prefix),
        0 <= k < files.len(),
        files[k].0.len() > 0,
        prefix.len() > 0 || direct(files[k]) || files[k].0[0].len() > 0,
    ensures
        in_tree(nodes, below(prefix, strings::join_of(files[k].0, "/"@)), files[k].1),
    decreases weight(files), 2nat,
{
    let parts = files[k].0;
    let ix = files[k].1;
    let dirs = directories(files);
    let key = below(prefix, strings::join_of(parts, "/"@));
    if direct(files[k]) {
        let i = lemma_direct_at(files, k);
        let shown = nodes.skip(dirs.len() as int);
        assert(shown[i].key@ == below(prefix, parts[0]));
        assert(nodes[dirs.len() + i] == shown[i]);
        assert(strings::join_of(parts, "/"@) == parts[0]);
        lemma_found_at(nodes, dirs.len() + i, key, ix);
    } else {
        let name = parts[0];
        let at = lemma_inside_at(files, k);
        let first = nodes.take(dirs.len() as int);
        let i = lemma_dir_shown(first, dirs, files, prefix, name);
        let rest = inside(files, name);
        lemma_inside_weight(files, name);
        lemma_file_in_dir(first[i], name, rest, prefix, at);
        strings::lemma_join_front(parts, "/"@);
        assert(below(prefix, name) + "/"@ + strings::join_of(parts.skip(1), "/"@) =~= key);
        assert(nodes[i] == first[i]);
        lemma_found_at(nodes, i, key, ix);
    }
}

/// How often a file stands in the tree.
pub open spec fn count_in(nodes: Seq<DiffNode>, ix: usize) -> nat
    decreases nodes,
{
    if nodes.len() == 0 {
        0
    } else {
        count_in(nodes.drop_last(), ix) + count_at(nodes.last(), ix)
    }
}

/// How often a file stands at the node and below it.
pub open spec fn count_at(node: DiffNode, ix: usize) -> nat
    decreases node,
{
    count_in(node.children@, ix) + if node.file_ix == Some(ix) {
        1nat
    } else {
        0nat
    }
}

/// How often a place is among the files.
spec fn times(files: Seq<FileParts>, ix: usize) -> nat
    decreases files.len(),
{
    if files.len() == 0 {
        0
    } else {
        times(files.drop_last(), ix) + if files.last().1 == ix {
            1nat
        } else {
            0nat
        }
    }
}

/// How often a place is among the files below some of the directories.
spec fn times_below(dirs: Seq<Seq<char>>, files: Seq<FileParts>, ix: usize) -> nat
    decreases dirs.len(),
{
    if dirs.len() == 0 {
        0
    } else {
        times_below(dirs.drop_last(), files, ix) + times(inside(files, dirs.last()), ix)
    }
}

proof fn lemma_directories_differ(files: Seq<FileParts>)
    ensures
        directories(files).no_duplicates(),
    decreases files.len(),
{
    if files.len() > 0 {
        lemma_directories_differ(files.drop_last());
    }
}

proof fn lemma_nothing_inside(files: Seq<FileParts>, name: Seq<char>)
    requires
        !directories(files).contains(name),
    ensures
        inside(files, name).len() == 0,
    decreases files.len(),
{
    if files.len() > 0 {
        let less = files.drop_last();
        let dirs = directories(less);
        if dirs.contains(name) {
            let at = dirs.index_of(name);
            assert(directories(files)[at] == name);
        }
        lemma_nothing_inside(less, name);
        if !direct(files.last()) && files.last().0[0] == name {
            assert(directories(files)[dirs.len() as int] == name);
        }
    }
}

/// One more file counts below its directory and nowhere else.
proof fn lemma_one_more_below(dirs: Seq<Seq<char>>, files: Seq<FileParts>, ix: usize)
    requires
        files.len() > 0,
        dirs.no_duplicates(),
    ensures
        times_below(dirs, files, ix) == times_below(dirs, files.drop_last(), ix) + if !direct(
            files.last(),
        ) && dirs.contains(files.last().0[0]) && files.last().1 == ix {
            1nat
        } else {
            0nat
        },
    decreases dirs.len(),
{
    if dirs.len() > 0 {
        let less = dirs.drop_last();
        let name = files.last().0[0];
        let last = dirs.last();
        lemma_one_more_below(less, files, ix);
        let before = inside(files.drop_last(), last);
        if !direct(files.last()) && name == last {
            let file = (files.last().0.skip(1), files.last().1);
            assert(before.push(file).drop_last() =~= before);
            assert(dirs[dirs.len() - 1] == name);
            if less.contains(name) {
                let at = less.index_of(name);
                assert(dirs[at] == dirs[dirs.len() - 1]);
            }
        } else {
            if less.contains(name) {
                let at = less.index_of(name);
                assert(dirs[at] == name);
            }
            if dirs.contains(name) && name != last {
                let at = dirs.index_of(name);
                assert(less[at] == name);
            }
        }
    }
}

/// Every file is in the directory itself or below one of its directories.
proof fn lemma_times_split(files: Seq<FileParts>, ix: usize)
    ensures
        times(files, ix) == times(direct_files(files), ix) + times_below(
            directories(files),
            files,
            ix,
        ),
    decreases files.len(),
{
    if files.len() > 0 {
        let less = files.drop_last();
        let dirs = directories(less);
        let own = direct_files(less);
        lemma_times_split(less, ix);
        lemma_directories_differ(less);
        lemma_one_more_below(dirs, files, ix);
        if direct(files.last()) {
            assert(own.push(files.last()).drop_last() =~= own);
        } else if !dirs.contains(files.last().0[0]) {
            let name = files.last().0[0];
            lemma_nothing_inside(less, name);
            let file = (files.last().0.skip(1), files.last().1);
            assert(dirs.push(name).drop_last() =~= dirs);
            let now = inside(files, name);
            assert(now.drop_last() =~= inside(less, name));
            assert(times(inside(less, name), ix) == 0);
        }
    }
}

proof fn lemma_count_split(a: Seq<DiffNode>, b: Seq<DiffNode>, ix: usize)
    ensures
        count_in(a + b, ix) == count_in(a, ix) + count_in(b, ix),
    decreases b.len(),
{
    if b.len() == 0 {
        assert(a + b =~= a);
    } else {
        lemma_count_split(a, b.drop_last(), ix);
        assert((a + b).drop_last() =~= a + b.drop_last());
        assert((a + b).last() == b.last());
    }
}

proof fn lemma_count_files(nodes: Seq<DiffNode>, files: Seq<FileParts>, prefix: Seq<char>, ix: usize)
    requires
        shows_files(nodes, files, prefix),
    ensures
        count_in(nodes, ix) == times(files, ix),
    decreases nodes.len(),
{
    if nodes.len() > 0 {
        let less = nodes.drop_last();
        assert forall|i: int| 0 <= i < less.len() implies {
            &&& (#[trigger] less[i]).name@ == files.drop_last()[i].0[0]
            &&& less[i].key@ == below(prefix, files.drop_last()[i].0[0])
            &&& less[i].children@.len() == 0
            &&& less[i].file_ix == Some(files.drop_last()[i].1)
        } by {
            assert(less[i] == nodes[i]);
        }
        lemma_count_files(less, files.drop_last(), prefix, ix);
        let node = nodes[nodes.len() - 1];
        assert(node.file_ix == Some(files.last().1));
        assert(count_in(node.children@, ix) == 0);
        assert(count_at(node, ix) == if files.last().1 == ix {
            1nat
        } else {
            0nat
        }) by {
            reveal_with_fuel(count_at, 2);
        }
        reveal_with_fuel(count_in, 2);
    }
}

proof fn lemma_count_dirs(
    nodes: Seq<DiffNode>,
    dirs: Seq<Seq<char>>,
    files: Seq<FileParts>,
    prefix: Seq<char>,
    ix: usize,
)
    requires
        shows_dirs(nodes, dirs, files, prefix),
    ensures
        count_in(nodes, ix) == times_below(dirs, files, ix),
    decreases weight(files), 1nat, dirs.len(),
{
    if dirs.len() > 0 {
        lemma_inside_weight(files, dirs.last());
        lemma_count_dirs(nodes.drop_last(), dirs.drop_last(), files, prefix, ix);
        lemma_count_dir(nodes.last(), dirs.last(), inside(files, dirs.last()), prefix, ix);
    }
}

proof fn lemma_count_dir(
    node: DiffNode,
    name: Seq<char>,
    files: Seq<FileParts>,
    prefix: Seq<char>,
    ix: usize,
)
    requires
        shows_dir(node, name, files, prefix),
    ensures
        count_at(node, ix) == times(files, ix),
    decreases weight(files), 3nat, 0nat,
{
    if one_directory(files) {
        let dirs = directories(files);
        let next = dirs[0];
        lemma_inside_weight(files, next);
        lemma_count_dir(node, name + "/"@ + next, inside(files, next), prefix, ix);
        lemma_times_split(files, ix);
        reveal_with_fuel(times_below, 2);
    } else {
        lemma_count(node.children@, files, below(prefix, name), ix);
    }
}

/// A file stands in the tree as often as it is among the files.
proof fn lemma_count(nodes: Seq<DiffNode>, files: Seq<FileParts>, prefix: Seq<char>, ix: usize)
    requires
        shows(nodes, files, prefix),
    ensures
        count_in(nodes, ix) == times(files, ix),
    decreases weight(files), 2nat, 0nat,
{
    let dirs = directories(files);
    let first = nodes.take(dirs.len() as int);
    let rest = nodes.skip(dirs.len() as int);
    lemma_count_dirs(first, dirs, files, prefix, ix);
    lemma_count_files(rest, direct_files(files), prefix, ix);
    lemma_count_split(first, rest, ix);
    assert(first + rest =~= nodes);
    lemma_times_split(files, ix);
}

proof fn lemma_places(files: Seq<GitDiffFile>, n: int, k: int)
    requires
        0 <= n <= files.len() <= usize::MAX,
        0 <= k < files.len(),
    ensures
        times(parts_of(files).take(n), k as usize) == if k < n {
            1nat
        } else {
            0nat
        },
    decreases n,
{
    let all = parts_of(files);
    if n > 0 {
        lemma_places(files, n - 1, k);
        assert(all.take(n).drop_last() =~= all.take(n - 1));
        assert(all.take(n).last().1 == n - 1);
    }
}

/// Every changed file stands once in the tree, and there under its path, as long as the path does
/// not begin with a slash.
pub proof fn law_every_file_is_in_the_tree(nodes: Seq<DiffNode>, files: Seq<GitDiffFile>, k: int)
    requires
        shows(nodes, parts_of(files), Seq::empty()),
        0 <= k < files.len(),
        files.len() <= usize::MAX,
        files[k].path@.len() > 0 ==> files[k].path@[0] != '/',
    ensures
        in_tree(nodes, files[k].path@, k as usize),
        count_in(nodes, k as usize) == 1,
{
    let path = files[k].path@;
    let parts = strings::split_of(path, '/');
    strings::lemma_index_of_char(path, '/');
    if parts.len() > 1 {
        assert(path.len() > 0);
        assert(parts[0].len() > 0);
    }
    lemma_file_in_tree(nodes, parts_of(files), Seq::empty(), k);
    reveal_strlit("/");
    assert("/"@ =~= seq!['/']);
    strings::lemma_join_split(path, '/');
    lemma_count(nodes, parts_of(files), Seq::empty(), k as usize);
    lemma_places(files, files.len() as int, k);
    assert(parts_of(files).take(files.len() as int) =~= parts_of(files));
}

proof fn lemma_shown_dir(node: DiffNode, name: Seq<char>, files: Seq<FileParts>, prefix: Seq<char>)
    requires
        shows_dir(node, name, files, prefix),
    ensures
        node.file_ix is None,
        node.key@ == below(prefix, node.name@),
    decreases weight(files),
{
    if one_directory(files) {
        let next = directories(files)[0];
        lemma_inside_weight(files, next);
        lemma_shown_dir(node, name + "/"@ + next, inside(files, next), prefix);
    }
}

proof fn lemma_shown_dirs(
    nodes: Seq<DiffNode>,
    dirs: Seq<Seq<char>>,
    files: Seq<FileParts>,
    prefix: Seq<char>,
)
    requires
        shows_dirs(nodes, dirs, files, prefix),
    ensures
        nodes.len() == dirs.len(),
        forall|i: int|
            0 <= i < nodes.len() ==> (#[trigger] nodes[i]).file_ix is None && nodes[i].key@ == below(
                prefix,
                nodes[i].name@,
            ),
    decreases dirs.len(),
{
    if dirs.len() > 0 {
        lemma_shown_dirs(nodes.drop_last(), dirs.drop_last(), files, prefix);
        lemma_shown_dir(nodes.last(), dirs.last(), inside(files, dirs.last()), prefix);
        assert forall|i: int| 0 <= i < nodes.len() implies (#[trigger] nodes[i]).file_ix is None
            && nodes[i].key@ == below(prefix, nodes[i].name@) by {
            if i < nodes.len() - 1 {
                assert(nodes.drop_last()[i] == nodes[i]);
            }
        }
    }
}

/// Directories stand before files, and a node is known by where it is: by its name behind that of the
/// directory that it is in, with a slash between them.
pub proof fn law_directories_stand_before_files(
    nodes: Seq<DiffNode>,
    files: Seq<FileParts>,
    prefix: Seq<char>,
    i: int,
    j: int,
)
    requires
        shows(nodes, files, prefix),
        0 <= i <= j < nodes.len(),
    ensures
        nodes[i].file_ix is Some ==> nodes[j].file_ix is Some,
        prefix.len() == 0 ==> nodes[i].key@ == nodes[i].name@,
        prefix.len() > 0 ==> nodes[i].key@ == prefix + "/"@ + nodes[i].name@,
        nodes[i].file_ix is Some ==> nodes[i].children@.len() == 0,
{
    let dirs = directories(files);
    let n = dirs.len() as int;
    lemma_shown_dirs(nodes.take(n), dirs, files, prefix);
    if i < n {
        assert(nodes.take(n)[i] == nodes[i]);
    } else {
        assert(nodes.skip(n)[i - n] == nodes[i]);
        assert(nodes.skip(n)[j - n] == nodes[j]);
    }
}

/// A directory that holds nothing but one directory is shown as one with it.
pub proof fn law_lone_directories_are_shown_as_one(
    nodes: Seq<DiffNode>,
    files: Seq<FileParts>,
    prefix: Seq<char>,
    i: int,
)
    requires
        shows(nodes, files, prefix),
        0 <= i < nodes.len(),
        nodes[i].file_ix is None,
    ensures
        !(nodes[i].children@.len() == 1 && nodes[i].children@[0].file_ix is None),
{
    let dirs = directories(files);
    let n = dirs.len() as int;
    lemma_shown_dirs(nodes.take(n), dirs, files, prefix);
    if i < n {
        lemma_not_alone(nodes.take(n), dirs, files, prefix, i);
        assert(nodes.take(n)[i] == nodes[i]);
    } else {
        assert(nodes.skip(n)[i - n] == nodes[i]);
    }
}

proof fn lemma_not_alone(
    nodes: Seq<DiffNode>,
    dirs: Seq<Seq<char>>,
    files: Seq<FileParts>,
    prefix: Seq<char>,
    i: int,
)
    requires
        shows_dirs(nodes, dirs, files, prefix),
        0 <= i < nodes.len(),
    ensures
        !(nodes[i].children@.len() == 1 && nodes[i].children@[0].file_ix is None),
    decreases dirs.len(),
{
    if i < nodes.len() - 1 {
        lemma_not_alone(nodes.drop_last(), dirs.drop_last(), files, prefix, i);
        assert(nodes.drop_last()[i] == nodes[i]);
    } else {
        lemma_not_alone_in(nodes.last(), dirs.last(), inside(files, dirs.last()), prefix);
    }
}

proof fn lemma_not_alone_in(
    node: DiffNode,
    name: Seq<char>,
    files: Seq<FileParts>,
    prefix: Seq<char>,
)
    requires
        shows_dir(node, name, files, prefix),
    ensures
        !(node.children@.len() == 1 && node.children@[0].file_ix is None),
    decreases weight(files),
{
    if one_directory(files) {
        let next = directories(files)[0];
        lemma_inside_weight(files, next);
        lemma_not_alone_in(node, name + "/"@ + next, inside(files, next), prefix);
    } else {
        lemma_two_or_a_file(node.children@, files, below(prefix, name));
    }
}

proof fn lemma_two_or_a_file(nodes: Seq<DiffNode>, files: Seq<FileParts>, prefix: Seq<char>)
    requires
        shows(nodes, files, prefix),
        !one_directory(files),
    ensures
        !(nodes.len() == 1 && nodes[0].file_ix is None),
{
    let n = directories(files).len() as int;
    if nodes.len() == 1 && direct_files(files).len() == 1 {
        assert(nodes.skip(n)[0] == nodes[0]);
    }
}

proof fn lemma_direct_in_order(files: Seq<FileParts>)
    requires
        forall|i: int, j: int|
            0 <= i < j < files.len() ==> (#[trigger] files[i]).1 < (#[trigger] files[j]).1,
    ensures
        forall|i: int, j: int|
            0 <= i < j < direct_files(files).len() ==> (#[trigger] direct_files(files)[i]).1 < (
            #[trigger] direct_files(files)[j]).1,
        forall|i: int|
            0 <= i < direct_files(files).len() ==> files.contains(
                #[trigger] direct_files(files)[i],
            ),
    decreases files.len(),
{
    if files.len() > 0 {
        let less = files.drop_last();
        let before = direct_files(less);
        let after = direct_files(files);
        assert forall|i: int, j: int| 0 <= i < j < less.len() implies (#[trigger] less[i]).1 < (
        #[trigger] less[j]).1 by {
            assert(files[i].1 < files[j].1);
        }
        lemma_direct_in_order(less);
        assert forall|i: int| 0 <= i < after.len() implies files.contains(#[trigger] after[i]) by {
            if i < before.len() {
                assert(after[i] == before[i]);
                let k = less.index_of(before[i]);
                assert(files[k] == after[i]);
            } else {
                assert(files[files.len() - 1] == after[i]);
            }
        }
        assert forall|i: int, j: int| 0 <= i < j < after.len() implies (#[trigger] after[i]).1 < (
        #[trigger] after[j]).1 by {
            assert(after[i] == before[i]);
            if j < before.len() {
                assert(after[j] == before[j]);
            } else {
                let k = less.index_of(before[i]);
                assert(files[k].1 < files[files.len() - 1].1);
            }
        }
    }
}

/// The files of a directory stand in the order of the diff.
pub proof fn law_files_stand_in_their_order(nodes: Seq<DiffNode>, files: Seq<GitDiffFile>, i: int, j: int)
    requires
        shows(nodes, parts_of(files), Seq::empty()),
        files.len() <= usize::MAX,
        0 <= i < j < nodes.len(),
        nodes[i].file_ix is Some,
    ensures
        nodes[j].file_ix is Some && nodes[i].file_ix->0 < nodes[j].file_ix->0,
{
    let parts = parts_of(files);
    let n = directories(parts).len() as int;
    law_directories_stand_before_files(nodes, parts, Seq::empty(), i, j);
    lemma_shown_dirs(nodes.take(n), directories(parts), parts, Seq::empty());
    lemma_direct_in_order(parts);
    if i < n {
        assert(nodes.take(n)[i] == nodes[i]);
    }
    assert(nodes.skip(n)[i - n] == nodes[i]);
    assert(nodes.skip(n)[j - n] == nodes[j]);
}

} // verus!
