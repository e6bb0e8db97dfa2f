//! The panel with the files of a session: the tree at the left, the file that is looked at.
use crate::desktop::state::tree::WorkspaceNode;
use crate::desktop::state::Core;
use crate::strings::same;
use vstd::prelude::*;

verus! {

/// A row of the tree, with texts of some type, and how deep it stands.
#[derive(Debug, PartialEq)]
pub enum TreeRow<T> {
    Dir { path: T, name: T, depth: usize, expanded: bool },
    /// What is in the directory above is on its way.
    Loading,
    File { path: T, name: T, depth: usize, selected: bool },
}

/// What a row says.
pub open spec fn row_text(row: TreeRow<String>) -> TreeRow<Seq<char>> {
    match row {
        TreeRow::Dir { path, name, depth, expanded } => TreeRow::Dir {
            path: path@,
            name: name@,
            depth,
            expanded,
        },
        TreeRow::Loading => TreeRow::Loading,
        TreeRow::File { path, name, depth, selected } => TreeRow::File {
            path: path@,
            name: name@,
            depth,
            selected,
        },
    }
}

/// What rows say.
pub open spec fn rows_text(rows: Seq<TreeRow<String>>) -> Seq<TreeRow<Seq<char>>> {
    rows.map_values(|r: TreeRow<String>| row_text(r))
}

/// One level deeper.
pub open spec fn deeper(depth: usize) -> usize {
    if depth == usize::MAX {
        depth
    } else {
        (depth + 1) as usize
    }
}

/// A file is the one that is looked at.
pub open spec fn looked_at(file: Option<String>, path: Seq<char>) -> bool {
    file matches Some(one) && one@ == path
}

/// The rows of nodes: for each its own, and behind a directory that is expanded those of what is in
/// it.
pub open spec fn tree_rows(nodes: Seq<WorkspaceNode>, file: Option<String>, depth: usize) -> Seq<
    TreeRow<Seq<char>>,
>
    decreases nodes,
{
    if nodes.len() == 0 {
        Seq::empty()
    } else {
        let node = nodes.last();
        let before = tree_rows(nodes.drop_last(), file, depth);
        if !node.entry.is_dir {
            before.push(
                TreeRow::File {
                    path: node.entry.path@,
                    name: node.entry.name@,
                    depth,
                    selected: looked_at(file, node.entry.path@),
                },
            )
        } else {
            let own = before.push(
                TreeRow::Dir {
                    path: node.entry.path@,
                    name: node.entry.name@,
                    depth,
                    expanded: node.expanded,
                },
            );
            if !node.expanded {
                own
            } else {
                match node.children {
                    Some(children) => own + tree_rows(children@, file, deeper(depth)),
                    None => own.push(TreeRow::Loading),
                }
            }
        }
    }
}

/// The rows of nodes.
pub fn workspace_nodes(nodes: &Vec<WorkspaceNode>, file: &Option<String>, depth: usize) -> (r: Vec<
    TreeRow<String>,
>)
    ensures
        rows_text(r@) == tree_rows(nodes@, *file, depth),
    decreases nodes@,
{
    let mut rows: Vec<TreeRow<String>> = Vec::new();
    let mut i: usize = 0;
    proof {
        assert(nodes@.take(0) =~= Seq::empty());
        assert(rows_text(rows@) =~= Seq::empty());
    }
    while i < nodes.len()
        invariant
            0 <= i <= nodes@.len(),
            rows_text(rows@) == tree_rows(nodes@.take(i as int), *file, depth),
        decreases nodes.len() - i,
    {
        let node: &WorkspaceNode = &nodes[i];
        let ghost before = rows@;
        proof {
            assert(nodes@.take(i + 1).drop_last() =~= nodes@.take(i as int));
            assert(nodes@.take(i + 1).last() == nodes@[i as int]);
        }
        if !node.entry.is_dir {
            let selected: bool = match file {
                Some(one) => same(one.as_str(), node.entry.path.as_str()),
                None => false,
            };
            rows.push(
                TreeRow::File {
                    path: node.entry.path.clone(),
                    name: node.entry.name.clone(),
                    depth,
                    selected,
                },
            );
            proof {
                assert(rows_text(rows@) =~= rows_text(before).push(row_text(rows@.last())));
            }
        } else {
            rows.push(
                TreeRow::Dir {
                    path: node.entry.path.clone(),
                    name: node.entry.name.clone(),
                    depth,
                    expanded: node.expanded,
                },
            );
            let ghost own = rows@;
            proof {
                assert(rows_text(own) =~= rows_text(before).push(row_text(own.last())));
            }
            if node.expanded {
                match &node.children {
                    Some(children) => {
                        let below: usize = if depth == usize::MAX {
                            depth
                        } else {
                            depth + 1
                        };
                        proof {
                            assert(decreases_to!(nodes@ => nodes@[i as int]));
                            assert(decreases_to!(nodes@[i as int] => nodes@[i as int].children));
                        }
                        let mut more: Vec<TreeRow<String>> = workspace_nodes(
                            children,
                            file,
                            below,
                        );
                        let ghost added = more@;
                        rows.append(&mut more);
                        proof {
                            assert(rows@ =~= own + added);
                            assert(rows_text(rows@) =~= rows_text(own) + rows_text(added));
                        }
                    },
                    None => {
                        rows.push(TreeRow::Loading);
                        proof {
                            assert(rows_text(rows@) =~= rows_text(own).push(TreeRow::Loading));
                        }
                    },
                }
            }
        }
        i = i + 1;
    }
    proof {
        assert(nodes@.take(i as int) =~= nodes@);
    }
    rows
}

/// Something to show, or what is said where there is nothing.
#[derive(Debug, PartialEq)]
pub enum Shown<T> {
    Hint(&'static str),
    Content(T),
}

/// The panel: the tree and the file, as far as they are unfolded, and what the buttons that fold
/// them say.
#[derive(Debug, PartialEq)]
pub struct WorkspacePanel {
    pub tree: Option<Shown<Vec<TreeRow<String>>>>,
    pub content: Option<Shown<String>>,
    pub tree_tip: &'static str,
    pub content_tip: &'static str,
}

/// The panel with the files of a session.
pub fn workspace_panel(
    core: &Core,
    file: &Option<String>,
    tree_visible: bool,
    content_visible: bool,
) -> (r: WorkspacePanel)
    ensures
        r.tree is Some == tree_visible,
        r.tree matches Some(tree) ==> match tree {
            Shown::Hint(hint) => core.view.session is None && hint@ == "未选择会话"@,
            Shown::Content(rows) => core.view.session is Some && rows_text(rows@) == tree_rows(
                core.view.detail.workspace_tree@,
                *file,
                0,
            ),
        },
        r.content is Some == content_visible,
        r.content matches Some(content) ==> match content {
            Shown::Hint(hint) => core.view.detail.file_content is None && hint@
                == "在左侧选择文件查看内容"@,
            Shown::Content(text) => core.view.detail.file_content matches Some(given) && text@
                == "```text\n"@ + given@ + "\n```"@,
        },
        r.tree_tip@ == if tree_visible {
            "折叠文件树"@
        } else {
            "展开文件树"@
        },
        r.content_tip@ == if content_visible {
            "折叠内容"@
        } else {
            "展开内容"@
        },
{
    let tree: Option<Shown<Vec<TreeRow<String>>>> = if tree_visible {
        match &core.view.session {
            Some(_) => Some(
                Shown::Content(workspace_nodes(&core.view.detail.workspace_tree, file, 0)),
            ),
            None => Some(Shown::Hint("未选择会话")),
        }
    } else {
        None
    };
    let content: Option<Shown<String>> = if content_visible {
        match &core.view.detail.file_content {
            Some(given) => {
                let mut text: String = "```text\n".to_owned();
                text.append(given.as_str());
                text.append("\n```");
                Some(Shown::Content(text))
            },
            None => Some(Shown::Hint("在左侧选择文件查看内容")),
        }
    } else {
        None
    };
    WorkspacePanel {
        tree,
        content,
        tree_tip: if tree_visible {
            "折叠文件树"
        } else {
            "展开文件树"
        },
        content_tip: if content_visible {
            "折叠内容"
        } else {
            "展开内容"
        },
    }
}

} // verus!
