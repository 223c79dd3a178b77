//! Snapshot model of the compositor's window tree.
//!
//! A [`Node`] holds, as plain values, exactly the attributes the layout
//! engine reads from the compositor's tree reports.  Trees are immutable
//! snapshots: the engine never mutates one, it only derives command batches
//! from it.  The depth-first order used by every search visits a node before
//! its children and floating children before tiling children; the first
//! match wins.

use vstd::prelude::*;

verus! {

/// The raw node kind as the compositor reports it.
#[derive(Clone, Copy, Debug, PartialEq, Eq, Structural)]
pub enum NodeKind {
    Root,
    Output,
    Workspace,
    Con,
    FloatingCon,
    Dockarea,
}

/// The layout discipline of a node's children, as the compositor reports it.
/// `NoLayout` stands for the compositor's "none", reported for leaf windows.
#[derive(Clone, Copy, Debug, PartialEq, Eq, Structural)]
pub enum ChildLayout {
    NoLayout,
    SplitH,
    SplitV,
    Stacked,
    Tabbed,
    Output,
    Dockarea,
}

/// The refined classification of a node, derived from its raw attributes.
#[derive(Clone, Copy, Debug, PartialEq, Eq, Structural)]
pub enum RefinedNodeType {
    Root,
    Output,
    Workspace,
    /// Does not directly contain an application.
    Container,
    /// Does not directly contain an application.
    FloatingContainer,
    /// Directly contains an application.
    FloatingWindow,
    /// Directly contains an application.
    Window,
}

/// A node's rectangle on screen.
#[derive(Clone, Copy, Debug, PartialEq, Eq, Structural)]
pub struct Rect {
    pub x: i32,
    pub y: i32,
    pub width: i32,
    pub height: i32,
}

/// The window attributes a compositor reports for views taken over from the
/// X11 compatibility layer; only the class is read by this library.
#[derive(Debug)]
pub struct WindowProperties {
    pub class: Option<String>,
}

/// One vertex of the window tree, with the attributes the engine reads.
#[derive(Debug)]
pub struct Node {
    pub id: i64,
    pub name: Option<String>,
    pub node_type: NodeKind,
    /// Layout of this node's children.
    pub layout: ChildLayout,
    pub rect: Rect,
    pub focused: bool,
    /// The compositor's visibility flag; an absent flag counts as not visible.
    pub visible: bool,
    /// Whether the node's size percentage of its parent exceeds one.
    pub full_screen: bool,
    pub app_id: Option<String>,
    pub pid: Option<i32>,
    pub shell: Option<String>,
    pub window_properties: Option<WindowProperties>,
    /// The workspace number, present on workspace nodes only.
    pub num: Option<i32>,
    pub marks: Vec<String>,
    /// Tiling children, in layout order.
    pub nodes: Vec<Node>,
    /// Floating children.
    pub floating_nodes: Vec<Node>,
}

/// A workspace as reported by the compositor's workspace query.
#[derive(Debug)]
pub struct Workspace {
    pub id: i64,
    /// The stable user-facing key; the id is transient.
    pub num: i32,
    pub name: String,
    pub focused: bool,
}

/// The change kind of a window lifecycle event; kinds the engine ignores are
/// collapsed into `Other`.
#[derive(Clone, Copy, Debug, PartialEq, Eq, Structural)]
pub enum WindowChange {
    New,
    Close,
    Focus,
    Move,
    Other,
}

/// A window lifecycle event: the change kind and the affected node's
/// snapshot at the moment of the event.
#[derive(Debug)]
pub struct WindowEvent {
    pub change: WindowChange,
    pub container: Node,
}

/// The shape of a pure container: no application attributes at all, but a
/// definite child layout.
pub open spec fn container_shape(n: Node) -> bool {
    &&& n.name is None
    &&& n.app_id is None
    &&& n.pid is None
    &&& n.shell is None
    &&& n.window_properties is None
    &&& n.layout != ChildLayout::NoLayout
}

/// Classification of a node from its raw attributes.  `None` marks the one
/// shape that matches no known classification, which the engine treats as an
/// invariant violation (protocol drift), not as a recoverable state.
pub open spec fn classify(n: Node) -> Option<RefinedNodeType> {
    match n.node_type {
        NodeKind::Root => Some(RefinedNodeType::Root),
        NodeKind::Output => Some(RefinedNodeType::Output),
        NodeKind::Workspace => Some(RefinedNodeType::Workspace),
        NodeKind::Con => if container_shape(n) {
            Some(RefinedNodeType::Container)
        } else if n.pid is Some {
            Some(RefinedNodeType::Window)
        } else {
            None
        },
        NodeKind::FloatingCon => if container_shape(n) {
            Some(RefinedNodeType::FloatingContainer)
        } else if n.pid is Some {
            Some(RefinedNodeType::FloatingWindow)
        } else {
            None
        },
        NodeKind::Dockarea => None,
    }
}

pub open spec fn is_root_node(n: Node) -> bool {
    classify(n) == Some(RefinedNodeType::Root)
}

pub open spec fn is_output_node(n: Node) -> bool {
    classify(n) == Some(RefinedNodeType::Output)
}

pub open spec fn is_workspace_node(n: Node) -> bool {
    classify(n) == Some(RefinedNodeType::Workspace)
}

pub open spec fn is_container_node(n: Node) -> bool {
    classify(n) == Some(RefinedNodeType::Container)
}

pub open spec fn is_floating_container_node(n: Node) -> bool {
    classify(n) == Some(RefinedNodeType::FloatingContainer)
}

pub open spec fn is_window_node(n: Node) -> bool {
    classify(n) == Some(RefinedNodeType::Window)
}

pub open spec fn is_floating_window_node(n: Node) -> bool {
    classify(n) == Some(RefinedNodeType::FloatingWindow)
}

/// The depth-first traversal of a tree: a node first, then its floating
/// children, then its tiling children.
pub open spec fn dfs(n: Node) -> Seq<Node>
    decreases n,
{
    seq![n] + dfs_list(n.floating_nodes@) + dfs_list(n.nodes@)
}

/// The depth-first traversal of a forest, left to right.
pub open spec fn dfs_list(s: Seq<Node>) -> Seq<Node>
    decreases s,
{
    if s.len() == 0 {
        Seq::empty()
    } else {
        dfs_list(s.drop_last()) + dfs(s.last())
    }
}

/// The traversal of one more leading tree of a forest.
pub proof fn lemma_dfs_list_take(s: Seq<Node>, i: int)
    requires
        0 <= i < s.len(),
    ensures
        dfs_list(s.subrange(0, i + 1)) == dfs_list(s.subrange(0, i)) + dfs(s[i]),
{
    let t = s.subrange(0, i + 1);
    assert(t.drop_last() =~= s.subrange(0, i));
    assert(t.last() == s[i]);
}

/// Whether a tree contains a node with the given id.
pub open spec fn tree_contains_id(n: Node, id: i64) -> bool {
    exists|i: int| #[trigger] found_id(dfs(n), id, i)
}

/// Whether a node carries the given mark.
pub open spec fn has_mark(n: Node, m: Seq<char>) -> bool {
    exists|k: int| 0 <= k < n.marks@.len() && #[trigger] n.marks@[k]@ == m
}

/// Position `i` of a depth-first traversal holds the node with the given id.
pub open spec fn found_id(s: Seq<Node>, id: i64, i: int) -> bool {
    0 <= i < s.len() && s[i].id == id
}

/// Position `i` holds a workspace node whose subtree contains the given id.
pub open spec fn found_ws_containing(s: Seq<Node>, id: i64, i: int) -> bool {
    0 <= i < s.len() && is_workspace_node(s[i]) && tree_contains_id(s[i], id)
}

/// Position `i` holds a node carrying the given mark.
pub open spec fn found_mark(s: Seq<Node>, m: Seq<char>, i: int) -> bool {
    0 <= i < s.len() && has_mark(s[i], m)
}

/// Position `i` holds a focused window.
pub open spec fn found_focused_window(s: Seq<Node>, i: int) -> bool {
    0 <= i < s.len() && is_window_node(s[i]) && s[i].focused
}

/// Position `i` holds a visible window.
pub open spec fn found_visible_window(s: Seq<Node>, i: int) -> bool {
    0 <= i < s.len() && is_window_node(s[i]) && s[i].visible
}

/// Position `i` holds a window.
pub open spec fn found_window(s: Seq<Node>, i: int) -> bool {
    0 <= i < s.len() && is_window_node(s[i])
}

/// Position `i` holds a node that matches no classification.
pub open spec fn found_unclassifiable(s: Seq<Node>, i: int) -> bool {
    0 <= i < s.len() && classify(s[i]) is None
}

/// Every node of the traversal classifies.
pub open spec fn all_classifiable(s: Seq<Node>) -> bool {
    forall|i: int| !(#[trigger] found_unclassifiable(s, i))
}

/// Position `i` holds a visible node.
pub open spec fn found_visible(s: Seq<Node>, i: int) -> bool {
    0 <= i < s.len() && s[i].visible
}

/// Position `i` holds a node with a tiling child of the given id.
pub open spec fn found_parent_of(s: Seq<Node>, id: i64, i: int) -> bool {
    0 <= i < s.len() && has_tiling_child(s[i], id)
}

/// Whether a node has a tiling child with the given id.
pub open spec fn has_tiling_child(n: Node, id: i64) -> bool {
    exists|k: int| 0 <= k < n.nodes@.len() && (#[trigger] n.nodes@[k]).id == id
}

/// The windows of a tree, in depth-first order.
pub open spec fn windows_of(n: Node) -> Seq<Node> {
    dfs(n).filter(|m: Node| is_window_node(m))
}

/// A workspace node carrying the given workspace number.
pub open spec fn is_ws_with_num(n: Node, num: i32) -> bool {
    is_workspace_node(n) && n.num == Some(num)
}

/// Whether a tree contains a workspace node with the given number.
pub open spec fn has_workspace_num(n: Node, num: i32) -> bool {
    exists|i: int| #[trigger] found_ws_num(dfs(n), num, i)
}

/// Position `i` holds a workspace node with the given number.
pub open spec fn found_ws_num(s: Seq<Node>, num: i32, i: int) -> bool {
    0 <= i < s.len() && is_ws_with_num(s[i], num)
}

/// Position `i` holds an output node owning a workspace with the given number.
pub open spec fn found_output_with_ws(s: Seq<Node>, num: i32, i: int) -> bool {
    0 <= i < s.len() && is_output_node(s[i]) && has_workspace_num(s[i], num)
}

/// Position `i` of a workspace list holds the focused workspace.
pub open spec fn found_focused_ws(s: Seq<Workspace>, i: int) -> bool {
    0 <= i < s.len() && s[i].focused
}

/// Position `i` of a workspace list holds the workspace with the given id.
pub open spec fn found_ws_id(s: Seq<Workspace>, id: i64, i: int) -> bool {
    0 <= i < s.len() && s[i].id == id
}

/// `n` is the first node of the traversal with the given id.
pub open spec fn is_first_id_match(s: Seq<Node>, id: i64, n: Node) -> bool {
    exists|i: int|
        #[trigger] found_id(s, id, i) && n == s[i] && (forall|j: int|
            0 <= j < i ==> !found_id(s, id, j))
}

/// `n` is the first workspace node of the traversal whose subtree holds the
/// given id.
pub open spec fn is_first_ws_containing(s: Seq<Node>, id: i64, n: Node) -> bool {
    exists|i: int|
        #[trigger] found_ws_containing(s, id, i) && n == s[i] && (forall|j: int|
            0 <= j < i ==> !found_ws_containing(s, id, j))
}

/// `w` is the first workspace of the list with the given id.
pub open spec fn is_first_ws_id(s: Seq<Workspace>, id: i64, w: Workspace) -> bool {
    exists|k: int|
        #[trigger] found_ws_id(s, id, k) && w == s[k] && (forall|l: int|
            0 <= l < k ==> !found_ws_id(s, id, l))
}

/// `w` is the workspace the node with the given id resolves to: the first
/// workspace node whose subtree holds the id, looked up in the workspace
/// list by the workspace node's id.
pub open spec fn is_resolved_ws(tree: Node, wss: Seq<Workspace>, id: i64, w: Workspace) -> bool {
    exists|n: Node| #[trigger] is_first_ws_containing(dfs(tree), id, n) && is_first_ws_id(wss, n.id, w)
}

/// `p` is the first node of the traversal with a tiling child of the given
/// id.
pub open spec fn is_first_parent_match(s: Seq<Node>, id: i64, p: Node) -> bool {
    exists|i: int|
        #[trigger] found_parent_of(s, id, i) && p == s[i] && (forall|j: int|
            0 <= j < i ==> !found_parent_of(s, id, j))
}

/// `n` is the first node of the traversal carrying the given mark.
pub open spec fn is_first_mark_match(s: Seq<Node>, m: Seq<char>, n: Node) -> bool {
    exists|i: int|
        #[trigger] found_mark(s, m, i) && n == s[i] && (forall|j: int|
            0 <= j < i ==> !found_mark(s, m, j))
}

/// `n` is the first visible window of the traversal.
pub open spec fn is_first_visible_window(s: Seq<Node>, n: Node) -> bool {
    exists|i: int|
        #[trigger] found_visible_window(s, i) && n == s[i] && (forall|j: int|
            0 <= j < i ==> !found_visible_window(s, j))
}

/// `n` is the last window of the traversal.
pub open spec fn is_last_window(s: Seq<Node>, n: Node) -> bool {
    exists|i: int|
        #[trigger] found_window(s, i) && n == s[i] && (forall|j: int|
            i < j < s.len() ==> !found_window(s, j))
}

/// `w` is the first focused workspace of the list.
pub open spec fn is_first_focused_ws(s: Seq<Workspace>, w: Workspace) -> bool {
    exists|k: int|
        #[trigger] found_focused_ws(s, k) && w == s[k] && (forall|l: int|
            0 <= l < k ==> !found_focused_ws(s, l))
}

/// What a tree or workspace query can fail with: a compositor-state error,
/// never fatal to the daemon.
#[derive(Clone, Copy, Debug, PartialEq, Eq, Structural)]
pub enum TreeError {
    /// The event's node is not in the tree snapshot.
    NodeNotFound,
    /// No workspace node's subtree holds the node.
    NoWorkspaceForNode,
    /// A workspace node exists but the workspace list does not know its id.
    UnknownWorkspace,
    /// No node has the asked-for node among its tiling children.
    NoParent,
    /// The workspace list holds no focused workspace.
    NoFocusedWorkspace,
    /// No output node owns a workspace with the asked-for number.
    NoOutputFound,
    /// A workspace node expected in the tree snapshot is missing.
    NoWorkspaceFound,
    /// The workspace has no main window where one was expected.
    MainNotFound,
    /// The workspace has no stack container where one was expected.
    StackNotFound,
    /// The stack has no visible node where one was expected.
    NoVisibleNode,
    /// The stack holds no window where one was expected.
    NoStackWindow,
    /// A node of the snapshot matches no classification: compositor
    /// protocol drift, fatal for the operation that met it.
    UnclassifiableNode,
}

/// The index of the first node from `i` on that satisfies `p`.
pub open spec fn first_from(s: Seq<Node>, p: spec_fn(Node) -> bool, i: int) -> Option<int>
    decreases s.len() - i,
{
    if i < 0 || i >= s.len() {
        None
    } else if p(s[i]) {
        Some(i)
    } else {
        first_from(s, p, i + 1)
    }
}

/// What `first_from` finds from position `i` on: the first match, or nothing.
pub proof fn lemma_first_from(s: Seq<Node>, p: spec_fn(Node) -> bool, i: int)
    requires
        0 <= i <= s.len(),
    ensures
        match first_from(s, p, i) {
            Some(k) => i <= k < s.len() && p(s[k]) && (forall|j: int|
                i <= j < k ==> !#[trigger] p(s[j])),
            None => forall|j: int| i <= j < s.len() ==> !#[trigger] p(s[j]),
        },
    decreases s.len() - i,
{
    if i < 0 || i >= s.len() {
    } else if p(s[i]) {
    } else {
        lemma_first_from(s, p, i + 1);
    }
}

/// A position that matches, with no earlier match, is what `first_from`
/// finds from the start.
pub proof fn lemma_first_from_unique(s: Seq<Node>, p: spec_fn(Node) -> bool, i: int)
    requires
        0 <= i < s.len(),
        p(s[i]),
        forall|j: int| 0 <= j < i ==> !#[trigger] p(s[j]),
    ensures
        first_from(s, p, 0) == Some(i),
{
    lemma_first_from(s, p, 0);
    match first_from(s, p, 0) {
        Some(k) => {
            if k < i {
                assert(p(s[k]));
                assert(false);
            } else if k > i {
                assert(!p(s[i]));
                assert(false);
            }
        },
        None => {
            assert(!p(s[i]));
            assert(false);
        },
    }
}

/// With no match anywhere, `first_from` finds nothing.
pub proof fn lemma_first_from_none(s: Seq<Node>, p: spec_fn(Node) -> bool)
    requires
        forall|j: int| 0 <= j < s.len() ==> !#[trigger] p(s[j]),
    ensures
        first_from(s, p, 0) is None,
{
    lemma_first_from(s, p, 0);
    match first_from(s, p, 0) {
        Some(k) => {
            assert(p(s[k]));
            assert(false);
        },
        None => {},
    }
}

/// The values behind a sequence of node references.
pub open spec fn deref_seq(s: Seq<&Node>) -> Seq<Node> {
    s.map_values(|m: &Node| *m)
}

/// Dereferencing distributes over concatenation.
pub proof fn lemma_deref_seq_add(a: Seq<&Node>, b: Seq<&Node>)
    ensures
        deref_seq(a + b) == deref_seq(a) + deref_seq(b),
{
    assert(deref_seq(a + b) =~= deref_seq(a) + deref_seq(b));
}

impl Node {
    /// Classifies this node; `None` is the invariant-violation shape.
    pub fn get_refined_node_type(&self) -> (r: Option<RefinedNodeType>)
        ensures
            r == classify(*self),
    {
        match self.node_type {
            NodeKind::Root => Some(RefinedNodeType::Root),
            NodeKind::Output => Some(RefinedNodeType::Output),
            NodeKind::Workspace => Some(RefinedNodeType::Workspace),
            NodeKind::Con => {
                if self.name.is_none() && self.app_id.is_none() && self.pid.is_none()
                    && self.shell.is_none() && self.window_properties.is_none()
                    && self.layout != ChildLayout::NoLayout {
                    Some(RefinedNodeType::Container)
                } else if self.pid.is_some() {
                    Some(RefinedNodeType::Window)
                } else {
                    None
                }
            },
            NodeKind::FloatingCon => {
                if self.name.is_none() && self.app_id.is_none() && self.pid.is_none()
                    && self.shell.is_none() && self.window_properties.is_none()
                    && self.layout != ChildLayout::NoLayout {
                    Some(RefinedNodeType::FloatingContainer)
                } else if self.pid.is_some() {
                    Some(RefinedNodeType::FloatingWindow)
                } else {
                    None
                }
            },
            NodeKind::Dockarea => None,
        }
    }

    pub fn is_root(&self) -> (r: bool)
        ensures
            r == is_root_node(*self),
    {
        matches!(self.get_refined_node_type(), Some(RefinedNodeType::Root))
    }

    pub fn is_output(&self) -> (r: bool)
        ensures
            r == is_output_node(*self),
    {
        matches!(self.get_refined_node_type(), Some(RefinedNodeType::Output))
    }

    pub fn is_workspace(&self) -> (r: bool)
        ensures
            r == is_workspace_node(*self),
    {
        matches!(self.get_refined_node_type(), Some(RefinedNodeType::Workspace))
    }

    pub fn is_container(&self) -> (r: bool)
        ensures
            r == is_container_node(*self),
    {
        matches!(self.get_refined_node_type(), Some(RefinedNodeType::Container))
    }

    pub fn is_floating_container(&self) -> (r: bool)
        ensures
            r == is_floating_container_node(*self),
    {
        matches!(self.get_refined_node_type(), Some(RefinedNodeType::FloatingContainer))
    }

    pub fn is_window(&self) -> (r: bool)
        ensures
            r == is_window_node(*self),
    {
        matches!(self.get_refined_node_type(), Some(RefinedNodeType::Window))
    }

    pub fn is_floating_window(&self) -> (r: bool)
        ensures
            r == is_floating_window_node(*self),
    {
        matches!(self.get_refined_node_type(), Some(RefinedNodeType::FloatingWindow))
    }

    /// Whether the node's size percentage of its parent exceeds one.
    pub fn is_full_screen(&self) -> (r: bool)
        ensures
            r == self.full_screen,
    {
        self.full_screen
    }

    /// All nodes of this tree in depth-first order, the node itself first.
    pub fn descendants<'a>(&'a self) -> (r: Vec<&'a Node>)
        ensures
            deref_seq(r@) == dfs(*self),
        decreases *self,
    {
        let mut r: Vec<&'a Node> = Vec::new();
        r.push(self);
        assert(deref_seq(r@) =~= seq![*self]);
        let mut fi: usize = 0;
        while fi < self.floating_nodes.len()
            invariant
                fi <= self.floating_nodes@.len(),
                deref_seq(r@) == seq![*self] + dfs_list(
                    self.floating_nodes@.subrange(0, fi as int),
                ),
            decreases self.floating_nodes@.len() - fi,
        {
            let mut c = self.floating_nodes[fi].descendants();
            let ghost r0 = r@;
            let ghost c0 = c@;
            r.append(&mut c);
            proof {
                assert(r@ == r0 + c0);
                lemma_deref_seq_add(r0, c0);
                lemma_dfs_list_take(self.floating_nodes@, fi as int);
                assert(deref_seq(r@) =~= seq![*self] + dfs_list(
                    self.floating_nodes@.subrange(0, fi as int + 1),
                ));
            }
            fi += 1;
        }
        proof {
            assert(self.floating_nodes@.subrange(0, self.floating_nodes@.len() as int)
                =~= self.floating_nodes@);
        }
        let mut ti: usize = 0;
        while ti < self.nodes.len()
            invariant
                ti <= self.nodes@.len(),
                deref_seq(r@) == seq![*self] + dfs_list(self.floating_nodes@) + dfs_list(
                    self.nodes@.subrange(0, ti as int),
                ),
            decreases self.nodes@.len() - ti,
        {
            let mut c = self.nodes[ti].descendants();
            let ghost r0 = r@;
            let ghost c0 = c@;
            r.append(&mut c);
            proof {
                assert(r@ == r0 + c0);
                lemma_deref_seq_add(r0, c0);
                lemma_dfs_list_take(self.nodes@, ti as int);
                assert(deref_seq(r@) =~= seq![*self] + dfs_list(self.floating_nodes@)
                    + dfs_list(self.nodes@.subrange(0, ti as int + 1)));
            }
            ti += 1;
        }
        proof {
            assert(self.nodes@.subrange(0, self.nodes@.len() as int) =~= self.nodes@);
        }
        r
    }

    /// The first node of this tree with the given id, in depth-first order.
    pub fn find_by_id<'a>(&'a self, id: i64) -> (r: Option<&'a Node>)
        ensures
            match r {
                Some(m) => exists|i: int|
                    #[trigger] found_id(dfs(*self), id, i) && *m == dfs(*self)[i] && (forall|
                        j: int,
                    | 0 <= j < i ==> !found_id(dfs(*self), id, j)),
                None => forall|i: int| !(#[trigger] found_id(dfs(*self), id, i)),
            },
    {
        let ds = self.descendants();
        let mut i: usize = 0;
        while i < ds.len()
            invariant
                deref_seq(ds@) == dfs(*self),
                i <= ds@.len(),
                forall|j: int| 0 <= j < i ==> !(#[trigger] found_id(dfs(*self), id, j)),
            decreases ds@.len() - i,
        {
            let m: &Node = ds[i];
            proof {
                assert(*m == deref_seq(ds@)[i as int]);
            }
            if m.id == id {
                proof {
                    assert(found_id(dfs(*self), id, i as int));
                }
                return Some(m);
            }
            i += 1;
        }
        None
    }

    /// Whether this tree contains a node with the given id.
    pub fn contains_id(&self, id: i64) -> (r: bool)
        ensures
            r == tree_contains_id(*self, id),
    {
        self.find_by_id(id).is_some()
    }

    /// Whether this node carries the given mark.
    pub fn has_mark_str(&self, mark: &str) -> (r: bool)
        ensures
            r == has_mark(*self, mark@),
    {
        let mut k: usize = 0;
        while k < self.marks.len()
            invariant
                k <= self.marks@.len(),
                forall|j: int| 0 <= j < k ==> #[trigger] self.marks@[j]@ != mark@,
            decreases self.marks@.len() - k,
        {
            if crate::strutil::str_eq(self.marks[k].as_str(), mark) {
                return true;
            }
            k += 1;
        }
        false
    }

    /// The first node of this tree carrying the given mark.
    pub fn find_with_mark<'a>(&'a self, mark: &str) -> (r: Option<&'a Node>)
        ensures
            match r {
                Some(m) => exists|i: int|
                    #[trigger] found_mark(dfs(*self), mark@, i) && *m == dfs(*self)[i] && (forall|
                        j: int,
                    | 0 <= j < i ==> !found_mark(dfs(*self), mark@, j)),
                None => forall|i: int| !(#[trigger] found_mark(dfs(*self), mark@, i)),
            },
    {
        let ds = self.descendants();
        let mut i: usize = 0;
        while i < ds.len()
            invariant
                deref_seq(ds@) == dfs(*self),
                i <= ds@.len(),
                forall|j: int| 0 <= j < i ==> !(#[trigger] found_mark(dfs(*self), mark@, j)),
            decreases ds@.len() - i,
        {
            let m: &Node = ds[i];
            proof {
                assert(*m == deref_seq(ds@)[i as int]);
            }
            if m.has_mark_str(mark) {
                proof {
                    assert(found_mark(dfs(*self), mark@, i as int));
                }
                return Some(m);
            }
            i += 1;
        }
        None
    }

    /// The first focused window of this tree, in depth-first order.
    pub fn find_focused_window<'a>(&'a self) -> (r: Option<&'a Node>)
        ensures
            match r {
                Some(m) => exists|i: int|
                    #[trigger] found_focused_window(dfs(*self), i) && *m == dfs(*self)[i] && (
                    forall|j: int| 0 <= j < i ==> !found_focused_window(dfs(*self), j)),
                None => forall|i: int| !(#[trigger] found_focused_window(dfs(*self), i)),
            },
    {
        let ds = self.descendants();
        let mut i: usize = 0;
        while i < ds.len()
            invariant
                deref_seq(ds@) == dfs(*self),
                i <= ds@.len(),
                forall|j: int| 0 <= j < i ==> !(#[trigger] found_focused_window(dfs(*self), j)),
            decreases ds@.len() - i,
        {
            let m: &Node = ds[i];
            proof {
                assert(*m == deref_seq(ds@)[i as int]);
            }
            if m.is_window() && m.focused {
                proof {
                    assert(found_focused_window(dfs(*self), i as int));
                }
                return Some(m);
            }
            i += 1;
        }
        None
    }

    /// The first visible window of this tree, in depth-first order.
    pub fn find_visible_window<'a>(&'a self) -> (r: Option<&'a Node>)
        ensures
            match r {
                Some(m) => exists|i: int|
                    #[trigger] found_visible_window(dfs(*self), i) && *m == dfs(*self)[i] && (
                    forall|j: int| 0 <= j < i ==> !found_visible_window(dfs(*self), j)),
                None => forall|i: int| !(#[trigger] found_visible_window(dfs(*self), i)),
            },
    {
        let ds = self.descendants();
        let mut i: usize = 0;
        while i < ds.len()
            invariant
                deref_seq(ds@) == dfs(*self),
                i <= ds@.len(),
                forall|j: int| 0 <= j < i ==> !(#[trigger] found_visible_window(dfs(*self), j)),
            decreases ds@.len() - i,
        {
            let m: &Node = ds[i];
            proof {
                assert(*m == deref_seq(ds@)[i as int]);
            }
            if m.is_window() && m.visible {
                proof {
                    assert(found_visible_window(dfs(*self), i as int));
                }
                return Some(m);
            }
            i += 1;
        }
        None
    }

    /// The first visible node of this tree, in depth-first order.
    pub fn find_visible<'a>(&'a self) -> (r: Option<&'a Node>)
        ensures
            match r {
                Some(m) => exists|i: int|
                    #[trigger] found_visible(dfs(*self), i) && *m == dfs(*self)[i] && (forall|
                        j: int,
                    | 0 <= j < i ==> !found_visible(dfs(*self), j)),
                None => forall|i: int| !(#[trigger] found_visible(dfs(*self), i)),
            },
    {
        let ds = self.descendants();
        let mut i: usize = 0;
        while i < ds.len()
            invariant
                deref_seq(ds@) == dfs(*self),
                i <= ds@.len(),
                forall|j: int| 0 <= j < i ==> !(#[trigger] found_visible(dfs(*self), j)),
            decreases ds@.len() - i,
        {
            let m: &Node = ds[i];
            proof {
                assert(*m == deref_seq(ds@)[i as int]);
            }
            if m.visible {
                proof {
                    assert(found_visible(dfs(*self), i as int));
                }
                return Some(m);
            }
            i += 1;
        }
        None
    }

    /// The last window of this tree, in depth-first order.
    pub fn find_last_window<'a>(&'a self) -> (r: Option<&'a Node>)
        ensures
            match r {
                Some(m) => is_last_window(dfs(*self), *m),
                None => forall|i: int| !(#[trigger] found_window(dfs(*self), i)),
            },
    {
        let ds = self.descendants();
        let mut i: usize = ds.len();
        while i > 0
            invariant
                deref_seq(ds@) == dfs(*self),
                i <= ds@.len(),
                forall|j: int| i <= j < dfs(*self).len() ==> !(#[trigger] found_window(
                    dfs(*self),
                    j,
                )),
            decreases i,
        {
            i -= 1;
            let m: &Node = ds[i];
            proof {
                assert(*m == deref_seq(ds@)[i as int]);
            }
            if m.is_window() {
                proof {
                    assert(found_window(dfs(*self), i as int));
                }
                return Some(m);
            }
        }
        None
    }

    /// The first node of this tree that matches no classification, in
    /// depth-first order.
    pub fn find_unclassifiable<'a>(&'a self) -> (r: Option<&'a Node>)
        ensures
            match r {
                Some(m) => exists|i: int|
                    #[trigger] found_unclassifiable(dfs(*self), i) && *m == dfs(*self)[i],
                None => all_classifiable(dfs(*self)),
            },
    {
        let ds = self.descendants();
        let mut i: usize = 0;
        while i < ds.len()
            invariant
                deref_seq(ds@) == dfs(*self),
                i <= ds@.len(),
                forall|j: int| 0 <= j < i ==> !(#[trigger] found_unclassifiable(dfs(*self), j)),
            decreases ds@.len() - i,
        {
            let m: &Node = ds[i];
            proof {
                assert(*m == deref_seq(ds@)[i as int]);
            }
            if m.get_refined_node_type().is_none() {
                proof {
                    assert(found_unclassifiable(dfs(*self), i as int));
                }
                return Some(m);
            }
            i += 1;
        }
        None
    }

    /// All windows of this tree, in depth-first order.
    pub fn window_nodes<'a>(&'a self) -> (r: Vec<&'a Node>)
        ensures
            deref_seq(r@) == windows_of(*self),
    {
        let ds = self.descendants();
        let mut r: Vec<&'a Node> = Vec::new();
        let mut i: usize = 0;
        proof {
            reveal_with_fuel(Seq::<Node>::filter, 2);
            assert(dfs(*self).subrange(0, 0).filter(|m: Node| is_window_node(m))
                =~= Seq::<Node>::empty());
            assert(deref_seq(r@) =~= Seq::<Node>::empty());
        }
        while i < ds.len()
            invariant
                deref_seq(ds@) == dfs(*self),
                i <= ds@.len(),
                deref_seq(r@) == dfs(*self).subrange(0, i as int).filter(
                    (|m: Node| is_window_node(m)),
                ),
            decreases ds@.len() - i,
        {
            let m: &Node = ds[i];
            proof {
                assert(*m == deref_seq(ds@)[i as int]);
            }
            let ghost r0 = r@;
            if m.is_window() {
                r.push(m);
            }
            proof {
                reveal_with_fuel(Seq::<Node>::filter, 2);
                let s = dfs(*self);
                let pred = (|m: Node| is_window_node(m));
                let pre = s.subrange(0, i as int);
                assert(s.subrange(0, i as int + 1).drop_last() =~= pre);
                assert(s.subrange(0, i as int + 1).last() == s[i as int]);
                if is_window_node(*m) {
                    assert(deref_seq(r@) =~= deref_seq(r0).push(*m));
                } else {
                    assert(deref_seq(r@) =~= deref_seq(r0));
                }
                assert(deref_seq(r@) =~= s.subrange(0, i as int + 1).filter(pred));
            }
            i += 1;
        }
        proof {
            assert(dfs(*self).subrange(0, ds@.len() as int) =~= dfs(*self));
        }
        r
    }

    /// Whether this node has a tiling child with the given id.
    pub fn has_tiling_child_id(&self, id: i64) -> (r: bool)
        ensures
            r == has_tiling_child(*self, id),
    {
        let mut k: usize = 0;
        while k < self.nodes.len()
            invariant
                k <= self.nodes@.len(),
                forall|j: int| 0 <= j < k ==> (#[trigger] self.nodes@[j]).id != id,
            decreases self.nodes@.len() - k,
        {
            if self.nodes[k].id == id {
                return true;
            }
            k += 1;
        }
        false
    }

    /// The first node of the tree that has this node among its tiling
    /// children.
    pub fn get_parent<'a>(&self, tree: &'a Node) -> (r: Option<&'a Node>)
        ensures
            match r {
                Some(m) => exists|i: int|
                    #[trigger] found_parent_of(dfs(*tree), self.id, i) && *m == dfs(*tree)[i] && (
                    forall|j: int| 0 <= j < i ==> !found_parent_of(dfs(*tree), self.id, j)),
                None => forall|i: int| !(#[trigger] found_parent_of(dfs(*tree), self.id, i)),
            },
    {
        let ds = tree.descendants();
        let mut i: usize = 0;
        while i < ds.len()
            invariant
                deref_seq(ds@) == dfs(*tree),
                i <= ds@.len(),
                forall|j: int| 0 <= j < i ==> !(#[trigger] found_parent_of(
                    dfs(*tree),
                    self.id,
                    j,
                )),
            decreases ds@.len() - i,
        {
            let m: &Node = ds[i];
            proof {
                assert(*m == deref_seq(ds@)[i as int]);
            }
            if m.has_tiling_child_id(self.id) {
                proof {
                    assert(found_parent_of(dfs(*tree), self.id, i as int));
                }
                return Some(m);
            }
            i += 1;
        }
        None
    }

    /// Whether this node's parent lays its children out stacked.
    pub fn is_stacked(&self, tree: &Node) -> (r: Result<bool, TreeError>)
        ensures
            match r {
                Ok(b) => exists|i: int|
                    #[trigger] found_parent_of(dfs(*tree), self.id, i) && (forall|j: int|
                        0 <= j < i ==> !found_parent_of(dfs(*tree), self.id, j)) && b == (dfs(
                        *tree,
                    )[i].layout == ChildLayout::Stacked),
                Err(e) => e == TreeError::NoParent && (forall|i: int|
                    !(#[trigger] found_parent_of(dfs(*tree), self.id, i))),
            },
    {
        match self.get_parent(tree) {
            Some(p) => Ok(p.layout == ChildLayout::Stacked),
            None => Err(TreeError::NoParent),
        }
    }

    /// Whether this node's parent lays its children out tabbed.
    pub fn is_tabbed(&self, tree: &Node) -> (r: Result<bool, TreeError>)
        ensures
            match r {
                Ok(b) => exists|i: int|
                    #[trigger] found_parent_of(dfs(*tree), self.id, i) && (forall|j: int|
                        0 <= j < i ==> !found_parent_of(dfs(*tree), self.id, j)) && b == (dfs(
                        *tree,
                    )[i].layout == ChildLayout::Tabbed),
                Err(e) => e == TreeError::NoParent && (forall|i: int|
                    !(#[trigger] found_parent_of(dfs(*tree), self.id, i))),
            },
    {
        match self.get_parent(tree) {
            Some(p) => Ok(p.layout == ChildLayout::Tabbed),
            None => Err(TreeError::NoParent),
        }
    }

    /// The workspace the node belongs to: the first workspace node whose
    /// subtree holds the node's id, resolved against the workspace list.
    pub fn get_workspace<'a>(&self, tree: &Node, workspaces: &'a Vec<Workspace>) -> (r: Result<
        &'a Workspace,
        TreeError,
    >)
        ensures
            match r {
                Ok(w) => is_resolved_ws(*tree, workspaces@, self.id, *w),
                Err(TreeError::NoWorkspaceForNode) => forall|i: int|
                    !(#[trigger] found_ws_containing(dfs(*tree), self.id, i)),
                Err(TreeError::UnknownWorkspace) => exists|m: Node|
                    #[trigger] is_first_ws_containing(dfs(*tree), self.id, m) && (forall|k: int|
                        !(#[trigger] found_ws_id(workspaces@, m.id, k))),
                Err(_) => false,
            },
    {
        let ds = tree.descendants();
        let mut i: usize = 0;
        while i < ds.len()
            invariant
                deref_seq(ds@) == dfs(*tree),
                i <= ds@.len(),
                forall|j: int| 0 <= j < i ==> !(#[trigger] found_ws_containing(
                    dfs(*tree),
                    self.id,
                    j,
                )),
            decreases ds@.len() - i,
        {
            let m: &Node = ds[i];
            proof {
                assert(*m == deref_seq(ds@)[i as int]);
            }
            if m.is_workspace() && m.contains_id(self.id) {
                proof {
                    assert(found_ws_containing(dfs(*tree), self.id, i as int));
                    assert(is_first_ws_containing(dfs(*tree), self.id, *m));
                }
                return match find_workspace_by_id(workspaces, m.id) {
                    Some(w) => {
                        proof {
                            assert(is_first_ws_id(workspaces@, m.id, *w));
                            assert(is_resolved_ws(*tree, workspaces@, self.id, *w));
                        }
                        Ok(w)
                    },
                    None => Err(TreeError::UnknownWorkspace),
                };
            }
            i += 1;
        }
        Err(TreeError::NoWorkspaceForNode)
    }
}

/// The first workspace of the list with the given id.
pub fn find_workspace_by_id<'a>(workspaces: &'a Vec<Workspace>, id: i64) -> (r: Option<
    &'a Workspace,
>)
    ensures
        match r {
            Some(w) => exists|k: int|
                #[trigger] found_ws_id(workspaces@, id, k) && *w == workspaces@[k] && (forall|
                    l: int,
                | 0 <= l < k ==> !found_ws_id(workspaces@, id, l)),
            None => forall|k: int| !(#[trigger] found_ws_id(workspaces@, id, k)),
        },
{
    let mut k: usize = 0;
    while k < workspaces.len()
        invariant
            k <= workspaces@.len(),
            forall|l: int| 0 <= l < k ==> !(#[trigger] found_ws_id(workspaces@, id, l)),
        decreases workspaces@.len() - k,
    {
        if workspaces[k].id == id {
            proof {
                assert(found_ws_id(workspaces@, id, k as int));
            }
            return Some(&workspaces[k]);
        }
        k += 1;
    }
    None
}

/// The first focused workspace of the list.
pub fn get_focused_workspace<'a>(workspaces: &'a Vec<Workspace>) -> (r: Result<
    &'a Workspace,
    TreeError,
>)
    ensures
        match r {
            Ok(w) => exists|k: int|
                #[trigger] found_focused_ws(workspaces@, k) && *w == workspaces@[k] && (forall|
                    l: int,
                | 0 <= l < k ==> !found_focused_ws(workspaces@, l)),
            Err(e) => e == TreeError::NoFocusedWorkspace && (forall|k: int|
                !(#[trigger] found_focused_ws(workspaces@, k))),
        },
{
    let mut k: usize = 0;
    while k < workspaces.len()
        invariant
            k <= workspaces@.len(),
            forall|l: int| 0 <= l < k ==> !(#[trigger] found_focused_ws(workspaces@, l)),
        decreases workspaces@.len() - k,
    {
        if workspaces[k].focused {
            proof {
                assert(found_focused_ws(workspaces@, k as int));
            }
            return Ok(&workspaces[k]);
        }
        k += 1;
    }
    Err(TreeError::NoFocusedWorkspace)
}

impl Node {
    /// Whether this tree contains a workspace node with the given number.
    pub fn contains_ws_num(&self, num: i32) -> (r: bool)
        ensures
            r == has_workspace_num(*self, num),
    {
        let ds = self.descendants();
        let mut i: usize = 0;
        while i < ds.len()
            invariant
                deref_seq(ds@) == dfs(*self),
                i <= ds@.len(),
                forall|j: int| 0 <= j < i ==> !(#[trigger] found_ws_num(dfs(*self), num, j)),
            decreases ds@.len() - i,
        {
            let m: &Node = ds[i];
            proof {
                assert(*m == deref_seq(ds@)[i as int]);
            }
            let is_match = match m.num {
                Some(n) => m.is_workspace() && n == num,
                None => false,
            };
            if is_match {
                proof {
                    assert(found_ws_num(dfs(*self), num, i as int));
                }
                return true;
            }
            i += 1;
        }
        false
    }

    /// The first output node of this tree owning a workspace with the given
    /// number.
    pub fn find_output_with_ws_num<'a>(&'a self, num: i32) -> (r: Option<&'a Node>)
        ensures
            match r {
                Some(m) => exists|i: int|
                    #[trigger] found_output_with_ws(dfs(*self), num, i) && *m == dfs(*self)[i] && (
                    forall|j: int| 0 <= j < i ==> !found_output_with_ws(dfs(*self), num, j)),
                None => forall|i: int| !(#[trigger] found_output_with_ws(dfs(*self), num, i)),
            },
    {
        let ds = self.descendants();
        let mut i: usize = 0;
        while i < ds.len()
            invariant
                deref_seq(ds@) == dfs(*self),
                i <= ds@.len(),
                forall|j: int| 0 <= j < i ==> !(#[trigger] found_output_with_ws(
                    dfs(*self),
                    num,
                    j,
                )),
            decreases ds@.len() - i,
        {
            let m: &Node = ds[i];
            proof {
                assert(*m == deref_seq(ds@)[i as int]);
            }
            if m.is_output() && m.contains_ws_num(num) {
                proof {
                    assert(found_output_with_ws(dfs(*self), num, i as int));
                }
                return Some(m);
            }
            i += 1;
        }
        None
    }

    /// The first workspace node of this tree with the given number.
    pub fn find_ws_num_node<'a>(&'a self, num: i32) -> (r: Option<&'a Node>)
        ensures
            match r {
                Some(m) => exists|i: int|
                    #[trigger] found_ws_num(dfs(*self), num, i) && *m == dfs(*self)[i] && (forall|
                        j: int,
                    | 0 <= j < i ==> !found_ws_num(dfs(*self), num, j)),
                None => forall|i: int| !(#[trigger] found_ws_num(dfs(*self), num, i)),
            },
    {
        let ds = self.descendants();
        let mut i: usize = 0;
        while i < ds.len()
            invariant
                deref_seq(ds@) == dfs(*self),
                i <= ds@.len(),
                forall|j: int| 0 <= j < i ==> !(#[trigger] found_ws_num(dfs(*self), num, j)),
            decreases ds@.len() - i,
        {
            let m: &Node = ds[i];
            proof {
                assert(*m == deref_seq(ds@)[i as int]);
            }
            let is_match = match m.num {
                Some(n) => m.is_workspace() && n == num,
                None => false,
            };
            if is_match {
                proof {
                    assert(found_ws_num(dfs(*self), num, i as int));
                }
                return Some(m);
            }
            i += 1;
        }
        None
    }
}

} // verus!
