//! The tree of a session's directory. What is in a directory is fetched whenever it is opened, and
//! dropped when it is closed.
use crate::common::domain::FsEntry;
use crate::strings::same;
use vstd::prelude::*;

verus! {

/// A file or a directory in the tree.
#[derive(Debug, PartialEq)]
pub struct WorkspaceNode {
    pub entry: FsEntry,
    pub expanded: bool,
    /// What is in it; nothing until it has been fetched.
    pub children: Option<Vec<WorkspaceNode>>,
}

/// The nodes of entries that were just fetched.
pub open spec fn fresh(nodes: Seq<WorkspaceNode>, entries: Seq<FsEntry>) -> bool {
    &&& nodes.len() == entries.len()
    &&& forall|i: int|
        0 <= i < nodes.len() ==> (#[trigger] nodes[i]).entry == entries[i] && !nodes[i].expanded
            && nodes[i].children is None
}

/// A node for the path is among the nodes or below them.
pub open spec fn holds(nodes: Seq<WorkspaceNode>, path: Seq<char>) -> bool
    decreases nodes,
{
    exists|i: int|
        0 <= i < nodes.len() && ((#[trigger] nodes[i]).entry.path@ == path || (
        nodes[i].children is Some && holds(nodes[i].children->0@, path)))
}

/// The node stands for the path, or one below it does.
pub open spec fn leads_to(node: WorkspaceNode, path: Seq<char>) -> bool {
    node.entry.path@ == path || (node.children is Some && holds(node.children->0@, path))
}

/// What is done to a node.
#[derive(Debug, PartialEq)]
pub enum NodeChange {
    /// It is opened or closed. Closing drops what is in it.
    Toggle,
    /// What is in it was fetched.
    Fill(Vec<FsEntry>),
}

/// How a node is after a change to it.
pub open spec fn changed(before: WorkspaceNode, after: WorkspaceNode, change: NodeChange) -> bool {
    &&& after.entry == before.entry
    &&& match change {
        NodeChange::Toggle => {
            &&& after.expanded == !before.expanded
            &&& after.children == if before.expanded {
                None
            } else {
                before.children
            }
        },
        NodeChange::Fill(entries) => {
            &&& after.expanded == before.expanded
            &&& after.children is Some
            &&& fresh(after.children->0@, entries@)
        },
    }
}

/// How nodes are after the first node for a path, which was `was`, became `now`: only the one that
/// leads to it is not as it was.
pub open spec fn exchanged(
    before: Seq<WorkspaceNode>,
    after: Seq<WorkspaceNode>,
    path: Seq<char>,
    was: WorkspaceNode,
    now: WorkspaceNode,
) -> bool
    decreases before,
{
    &&& after.len() == before.len()
    &&& exists|i: int|
        {
            &&& 0 <= i < before.len()
            &&& leads_to(#[trigger] before[i], path)
            &&& forall|j: int| 0 <= j < i ==> !leads_to(#[trigger] before[j], path)
            &&& forall|j: int| 0 <= j < before.len() && j != i ==> #[trigger] after[j] == before[j]
            &&& if before[i].entry.path@ == path {
                before[i] == was && after[i] == now
            } else {
                &&& after[i].entry == before[i].entry
                &&& after[i].expanded == before[i].expanded
                &&& before[i].children is Some
                &&& after[i].children is Some
                &&& exchanged(before[i].children->0@, after[i].children->0@, path, was, now)
            }
        }
}

/// How nodes are after a change to the first node for a path.
pub open spec fn nodes_changed(
    before: Seq<WorkspaceNode>,
    after: Seq<WorkspaceNode>,
    path: Seq<char>,
    change: NodeChange,
) -> bool {
    exists|was: WorkspaceNode, now: WorkspaceNode| #[trigger]
        exchanged(before, after, path, was, now) && changed(was, now, change)
}

impl WorkspaceNode {
    /// A node that is closed.
    pub fn new(entry: FsEntry) -> (r: Self)
        ensures
            r.entry == entry,
            !r.expanded,
            r.children is None,
    {
        WorkspaceNode { entry, expanded: false, children: None }
    }

    /// The nodes of entries that were just fetched.
    pub fn all(entries: Vec<FsEntry>) -> (r: Vec<WorkspaceNode>)
        ensures
            fresh(r@, entries@),
    {
        let ghost given = entries@;
        let mut out: Vec<WorkspaceNode> = Vec::new();
        for entry in it: entries
            invariant
                it.seq() == given,
                fresh(out@, given.take(it.index() as int)),
        {
            out.push(WorkspaceNode::new(entry));
        }
        proof {
            assert(given.take(given.len() as int) =~= given);
        }
        out
    }

    /// The first of the nodes that leads to a path.
    pub fn find(nodes: &Vec<WorkspaceNode>, path: &str) -> (r: Option<usize>)
        ensures
            r is Some == holds(nodes@, path@),
            r matches Some(i) ==> {
                &&& i < nodes@.len()
                &&& leads_to(nodes@[i as int], path@)
                &&& forall|j: int| 0 <= j < i ==> !leads_to(#[trigger] nodes@[j], path@)
            },
        decreases nodes@,
    {
        let mut i: usize = 0;
        while i < nodes.len()
            invariant
                0 <= i <= nodes@.len(),
                forall|j: int| 0 <= j < i ==> !leads_to(#[trigger] nodes@[j], path@),
            decreases nodes.len() - i,
        {
            let node: &WorkspaceNode = &nodes[i];
            let found: bool = if same(node.entry.path.as_str(), path) {
                true
            } else {
                match &node.children {
                    Some(kids) => WorkspaceNode::find(kids, path).is_some(),
                    None => false,
                }
            };
            assert(found == leads_to(nodes@[i as int], path@));
            if found {
                return Some(i);
            }
            i = i + 1;
        }
        proof {
            if holds(nodes@, path@) {
                let k = choose|k: int|
                    0 <= k < nodes@.len() && ((#[trigger] nodes@[k]).entry.path@ == path@ || (
                    nodes@[k].children is Some && holds(nodes@[k].children->0@, path@)));
                assert(leads_to(nodes@[k], path@));
            }
        }
        None
    }

    /// The first node for a path, to be changed in its place.
    pub fn find_mut<'a>(nodes: &'a mut Vec<WorkspaceNode>, path: &str) -> (r: Option<
        &'a mut WorkspaceNode,
    >)
        ensures
            r is Some == holds(old(nodes)@, path@),
            r matches Some(node) ==> {
                &&& node.entry.path@ == path@
                &&& exchanged(old(nodes)@, final(nodes)@, path@, *node, *final(node))
            },
            r is None ==> final(nodes)@ == old(nodes)@,
        decreases old(nodes)@,
    {
        match WorkspaceNode::find(nodes, path) {
            None => None,
            Some(i) => {
                let node: &mut WorkspaceNode = &mut nodes[i];
                if same(node.entry.path.as_str(), path) {
                    Some(node)
                } else {
                    match &mut node.children {
                        Some(kids) => WorkspaceNode::find_mut(kids, path),
                        None => None,
                    }
                }
            },
        }
    }

    fn change(&mut self, change: NodeChange)
        ensures
            changed(*old(self), *final(self), change),
    {
        match change {
            NodeChange::Toggle => {
                if self.expanded {
                    self.expanded = false;
                    self.children = None;
                } else {
                    self.expanded = true;
                }
            },
            NodeChange::Fill(entries) => {
                self.children = Some(WorkspaceNode::all(entries));
            },
        }
    }

    /// Changes the first node for a path. Without one, nothing changes.
    pub fn update(nodes: &mut Vec<WorkspaceNode>, path: &str, change: NodeChange) -> (r: bool)
        ensures
            r == holds(old(nodes)@, path@),
            r ==> nodes_changed(old(nodes)@, final(nodes)@, path@, change),
            !r ==> final(nodes)@ == old(nodes)@,
    {
        let ghost before = nodes@;
        match WorkspaceNode::find_mut(nodes, path) {
            None => false,
            Some(node) => {
                let ghost was = *node;
                node.change(change);
                let ghost now = *node;
                proof {
                    assert(exchanged(before, nodes@, path@, was, now));
                }
                true
            },
        }
    }
}

} // verus!
