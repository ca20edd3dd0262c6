//! Tree view: a hierarchy of labelled nodes with expand/collapse, selection
//! and keyboard navigation over the visible rows.
use crate::cyclic::{lemma_least_in_congruent, lemma_least_in_is, lemma_least_in_none, least_in};
use crate::draw::{cmds, lemma_cmds_add, DrawCmd, DrawOp};
use crate::layout::{center, center_in_range, center_spec};
use crate::text::push_char;
use crate::theme::Theme;
use vstd::prelude::*;

verus! {

/// A node of the tree.
pub struct TreeNode {
    /// Display label.
    pub label: String,
    /// Child nodes, in order.
    pub children: Vec<TreeNode>,
    /// Whether the children are shown.
    pub expanded: bool,
    /// Whether the node is selected.
    pub selected: bool,
    /// Identifier, unique within its tree view.
    pub id: usize,
}

impl TreeNode {
    /// A collapsed, unselected leaf.
    fn new(label: &str, id: usize) -> (r: Self)
        ensures
            r.label@ == label@,
            r.children@.len() == 0,
            !r.expanded,
            !r.selected,
            r.id == id,
    {
        TreeNode { label: label.to_string(), children: Vec::new(), expanded: false, selected: false, id }
    }

    /// Whether the node has any children.
    pub fn has_children(&self) -> (r: bool)
        ensures
            r == (self.children@.len() > 0),
    {
        self.children.len() > 0
    }
}

/// A tree of nodes with one focused row.
pub struct TreeView {
    /// Top-level nodes.
    pub roots: Vec<TreeNode>,
    /// Identifier of the focused node.
    pub focused_id: Option<usize>,
    /// Indentation per depth level in pixels.
    pub indent_width: u16,
    /// Whether connecting lines are drawn.
    pub show_lines: bool,
    /// Whether the view ignores input.
    pub disabled: bool,
    /// Identifier the next added node receives.
    next_id: usize,
}

// ---------------------------------------------------------------------------
// The model: trees are searched in pre-order (a node, then its children,
// then its later siblings).
// ---------------------------------------------------------------------------
/// The mathematical value of a node.
pub struct NodeModel {
    /// Label text.
    pub label: Seq<char>,
    /// Children, in order.
    pub children: Seq<NodeModel>,
    /// Whether the children are shown.
    pub expanded: bool,
    /// Whether the node is selected.
    pub selected: bool,
    /// Identifier.
    pub id: usize,
}

/// The model of a node.
pub open spec fn node_view(n: TreeNode) -> NodeModel
    decreases n,
{
    NodeModel {
        label: n.label@,
        children: forest_view(n.children@),
        expanded: n.expanded,
        selected: n.selected,
        id: n.id,
    }
}

/// The model of a forest.
pub open spec fn forest_view(ns: Seq<TreeNode>) -> Seq<NodeModel>
    decreases ns,
{
    if ns.len() == 0 {
        Seq::empty()
    } else {
        seq![node_view(ns[0])] + forest_view(ns.drop_first())
    }
}

/// Whether some node of the forest (at any depth) has identifier `id`.
pub open spec fn contains_id(ns: Seq<NodeModel>, id: usize) -> bool
    decreases ns,
{
    if ns.len() == 0 {
        false
    } else {
        ns[0].id == id || contains_id(ns[0].children, id) || contains_id(ns.drop_first(), id)
    }
}

/// The first node in pre-order with identifier `id`.
pub open spec fn find_spec(ns: Seq<NodeModel>, id: usize) -> Option<NodeModel>
    decreases ns,
{
    if ns.len() == 0 {
        None
    } else if ns[0].id == id {
        Some(ns[0])
    } else if contains_id(ns[0].children, id) {
        find_spec(ns[0].children, id)
    } else {
        find_spec(ns.drop_first(), id)
    }
}

/// The identifier of the first node (in pre-order) that has a direct child
/// with identifier `id`.
pub open spec fn parent_spec(ns: Seq<NodeModel>, id: usize) -> Option<usize>
    decreases ns,
{
    if ns.len() == 0 {
        None
    } else if exists|k: int| 0 <= k < ns[0].children.len() && (#[trigger] ns[0].children[k]).id == id {
        Some(ns[0].id)
    } else {
        match parent_spec(ns[0].children, id) {
            Some(p) => Some(p),
            None => parent_spec(ns.drop_first(), id),
        }
    }
}

/// Whether some node of the forest (at any depth) with identifier `p` has a
/// direct child with identifier `c`.
pub open spec fn has_link(ns: Seq<NodeModel>, p: usize, c: usize) -> bool
    decreases ns,
{
    if ns.len() == 0 {
        false
    } else {
        ||| ns[0].id == p && exists|k: int|
            0 <= k < ns[0].children.len() && (#[trigger] ns[0].children[k]).id == c
        ||| has_link(ns[0].children, p, c)
        ||| has_link(ns.drop_first(), p, c)
    }
}

/// The parent found for `id` really is its parent: a node of the forest
/// with that identifier has `id` among its direct children; and a parent is
/// found whenever `id` has one.
pub proof fn lemma_parent_is_direct_parent(ns: Seq<NodeModel>, id: usize, q: usize)
    ensures
        parent_spec(ns, id) matches Some(p) ==> has_link(ns, p, id),
        has_link(ns, q, id) ==> parent_spec(ns, id) is Some,
    decreases ns,
{
    if ns.len() > 0 {
        lemma_parent_is_direct_parent(ns[0].children, id, q);
        lemma_parent_is_direct_parent(ns.drop_first(), id, q);
    }
}

/// The visible rows of a forest at depth `depth`: each node with its depth,
/// followed by the rows of its children when it is expanded.
pub open spec fn flat(ns: Seq<NodeModel>, depth: nat) -> Seq<(usize, NodeModel, nat)>
    decreases ns,
{
    if ns.len() == 0 {
        Seq::empty()
    } else {
        seq![(ns[0].id, ns[0], depth)] + (if ns[0].expanded {
            flat(ns[0].children, depth + 1)
        } else {
            Seq::empty()
        }) + flat(ns.drop_first(), depth)
    }
}

/// Identifiers of the visible rows, top to bottom.
pub open spec fn visible_ids(ns: Seq<NodeModel>) -> Seq<usize> {
    flat(ns, 0).map_values(|r: (usize, NodeModel, nat)| r.0)
}

/// Number of levels of the forest.
pub open spec fn height(ns: Seq<NodeModel>) -> nat
    decreases ns,
{
    if ns.len() == 0 {
        0
    } else {
        let a = 1 + height(ns[0].children);
        let b = height(ns.drop_first());
        if a > b {
            a
        } else {
            b
        }
    }
}

/// `b` is `a` with only its children possibly changed.
pub open spec fn same_shell(a: NodeModel, b: NodeModel) -> bool {
    a.label == b.label && a.id == b.id && a.expanded == b.expanded && a.selected == b.selected
}

/// `new` is `old` with the first node (in pre-order) with identifier `id`
/// replaced by a node related to it by `step`; every other node is
/// unchanged.
pub open spec fn changed_first(
    old: Seq<NodeModel>,
    new: Seq<NodeModel>,
    id: usize,
    step: spec_fn(NodeModel, NodeModel) -> bool,
) -> bool
    decreases old,
{
    &&& old.len() == new.len()
    &&& old.len() > 0 ==> if old[0].id == id {
        step(old[0], new[0]) && new.drop_first() == old.drop_first()
    } else if contains_id(old[0].children, id) {
        same_shell(old[0], new[0]) && changed_first(old[0].children, new[0].children, id, step)
            && new.drop_first() == old.drop_first()
    } else {
        new[0] == old[0] && changed_first(old.drop_first(), new.drop_first(), id, step)
    }
}

/// `new` is `old` with every node's flags rewritten by `flags` (from the
/// node, its old flags), labels, identifiers and shape unchanged.
pub open spec fn all_rewritten(
    old: Seq<NodeModel>,
    new: Seq<NodeModel>,
    flags: spec_fn(NodeModel) -> (bool, bool),
) -> bool
    decreases old,
{
    &&& old.len() == new.len()
    &&& old.len() > 0 ==> {
        &&& new[0].label == old[0].label
        &&& new[0].id == old[0].id
        &&& (new[0].expanded, new[0].selected) == flags(old[0])
        &&& all_rewritten(old[0].children, new[0].children, flags)
        &&& all_rewritten(old.drop_first(), new.drop_first(), flags)
    }
}

/// Step: set the expanded flag.
pub open spec fn set_expanded(v: bool) -> spec_fn(NodeModel, NodeModel) -> bool {
    |a: NodeModel, b: NodeModel| b == NodeModel { expanded: v, ..a }
}

/// Step: flip the expanded flag of a node with children (leaves unchanged).
pub open spec fn toggled() -> spec_fn(NodeModel, NodeModel) -> bool {
    |a: NodeModel, b: NodeModel| b == NodeModel {
        expanded: if a.children.len() > 0 {
            !a.expanded
        } else {
            a.expanded
        },
        ..a
    }
}

/// Step: mark the node selected.
pub open spec fn marked_selected() -> spec_fn(NodeModel, NodeModel) -> bool {
    |a: NodeModel, b: NodeModel| b == NodeModel { selected: true, ..a }
}

/// The model of a new collapsed leaf.
pub open spec fn leaf(label: Seq<char>, id: usize) -> NodeModel {
    NodeModel { label, children: Seq::empty(), expanded: false, selected: false, id }
}

/// Step: append a new leaf with `label` and `id` to the children.
pub open spec fn child_added(label: Seq<char>, id: usize) -> spec_fn(NodeModel, NodeModel) -> bool {
    |a: NodeModel, b: NodeModel| b == NodeModel { children: a.children.push(leaf(label, id)), ..a }
}

/// Flags: nodes with children take `v` as their expanded flag.
pub open spec fn expand_flags(v: bool) -> spec_fn(NodeModel) -> (bool, bool) {
    |a: NodeModel| (if a.children.len() > 0 { v } else { a.expanded }, a.selected)
}

/// Flags: every node is unselected.
pub open spec fn cleared_flags() -> spec_fn(NodeModel) -> (bool, bool) {
    |a: NodeModel| (a.expanded, false)
}

/// A visible row as the model sees it.
pub open spec fn row_view(r: (usize, &TreeNode, usize)) -> (usize, NodeModel, nat) {
    (r.0, node_view(*r.1), r.2 as nat)
}

/// Whether visible row `i` closes its group of siblings on screen: it is the
/// last row, or the next row is no deeper.
pub open spec fn closes_group(depths: Seq<usize>, i: int) -> bool {
    i + 1 >= depths.len() || depths[i + 1] <= depths[i]
}

/// For each visible row (identifier, node, depth), whether it closes its
/// group of siblings on screen, which decides how its connecting line ends.
pub fn last_at_depth(rows: &Vec<(usize, &TreeNode, usize)>) -> (r: Vec<bool>)
    ensures
        r@.len() == rows@.len(),
        forall|i: int|
            0 <= i < r@.len() ==> #[trigger] r@[i] == closes_group(
                rows@.map_values(|t: (usize, &TreeNode, usize)| t.2),
                i,
            ),
{
    let ghost ds = rows@.map_values(|t: (usize, &TreeNode, usize)| t.2);
    let n = rows.len();
    let mut out: Vec<bool> = Vec::new();
    let mut i: usize = 0;
    while i < n
        invariant
            n == rows@.len(),
            ds == rows@.map_values(|t: (usize, &TreeNode, usize)| t.2),
            0 <= i <= n,
            out@.len() == i,
            forall|k: int| 0 <= k < i ==> #[trigger] out@[k] == closes_group(ds, k),
        decreases n - i,
    {
        let last = if i + 1 >= n {
            true
        } else {
            rows[i + 1].2 <= rows[i].2
        };
        out.push(last);
        i = i + 1;
    }
    out
}

/// The focus after moving up one visible row.
pub open spec fn focus_up(ids: Seq<usize>, focused: Option<usize>) -> Option<usize> {
    if ids.len() == 0 {
        focused
    } else {
        match focused {
            Some(fid) => match least_in(|k: int| ids[k] == fid, 0, ids.len() - 1) {
                Some(p) => if p > 0 {
                    Some(ids[p - 1])
                } else {
                    focused
                },
                None => focused,
            },
            None => Some(ids[0]),
        }
    }
}

/// The focus after moving down one visible row.
pub open spec fn focus_down(ids: Seq<usize>, focused: Option<usize>) -> Option<usize> {
    if ids.len() == 0 {
        focused
    } else {
        match focused {
            Some(fid) => match least_in(|k: int| ids[k] == fid, 0, ids.len() - 1) {
                Some(p) => if p + 1 < ids.len() {
                    Some(ids[p + 1])
                } else {
                    focused
                },
                None => focused,
            },
            None => Some(ids[0]),
        }
    }
}

// ---------------------------------------------------------------------------
// Facts about the model.
// ---------------------------------------------------------------------------
/// The model of a forest has one model per node, in order.
proof fn lemma_view_index(ns: Seq<TreeNode>)
    ensures
        forest_view(ns).len() == ns.len(),
        forall|i: int| 0 <= i < ns.len() ==> #[trigger] forest_view(ns)[i] == node_view(ns[i]),
    decreases ns.len(),
{
    if ns.len() > 0 {
        lemma_view_index(ns.drop_first());
        assert forall|i: int| 0 <= i < ns.len() implies #[trigger] forest_view(ns)[i] == node_view(
            ns[i],
        ) by {
            if i > 0 {
                assert(forest_view(ns)[i] == forest_view(ns.drop_first())[i - 1]);
            }
        }
    }
}

/// Replacing one node replaces its model.
proof fn lemma_view_update(ns: Seq<TreeNode>, i: int, x: TreeNode)
    requires
        0 <= i < ns.len(),
    ensures
        forest_view(ns.update(i, x)) == forest_view(ns).update(i, node_view(x)),
{
    lemma_view_index(ns);
    lemma_view_index(ns.update(i, x));
    assert(forest_view(ns.update(i, x)) =~= forest_view(ns).update(i, node_view(x)));
}

/// Appending a node appends its model.
proof fn lemma_view_push(ns: Seq<TreeNode>, x: TreeNode)
    ensures
        forest_view(ns.push(x)) == forest_view(ns).push(node_view(x)),
{
    lemma_view_index(ns);
    lemma_view_index(ns.push(x));
    assert(forest_view(ns.push(x)) =~= forest_view(ns).push(node_view(x)));
}

/// Unfolding a sequence at position `i`.
proof fn lemma_skip_step<A>(ns: Seq<A>, i: int)
    requires
        0 <= i < ns.len(),
    ensures
        ns.skip(i)[0] == ns[i],
        ns.skip(i).drop_first() == ns.skip(i + 1),
        ns.skip(i).len() > 0,
{
    assert(ns.skip(i).drop_first() =~= ns.skip(i + 1));
}

/// `changed_first` on a forest whose prefix before `i` holds no `id` and is
/// unchanged reduces to `changed_first` on the suffixes.
proof fn lemma_changed_first_suffix(
    old: Seq<NodeModel>,
    new: Seq<NodeModel>,
    id: usize,
    step: spec_fn(NodeModel, NodeModel) -> bool,
    i: int,
)
    requires
        0 <= i <= old.len(),
        old.len() == new.len(),
        forall|j: int| 0 <= j < i ==> #[trigger] new[j] == old[j],
        forall|j: int| 0 <= j < i ==> (#[trigger] old[j]).id != id && !contains_id(old[j].children, id),
        changed_first(old.skip(i), new.skip(i), id, step),
    ensures
        changed_first(old, new, id, step),
    decreases i,
{
    if i > 0 {
        lemma_skip_step(old, i - 1);
        lemma_skip_step(new, i - 1);
        assert(old[i - 1] == new[i - 1]);
        assert(!contains_id(old[i - 1].children, id));
        assert(changed_first(old.skip(i - 1), new.skip(i - 1), id, step));
        lemma_changed_first_suffix(old, new, id, step, i - 1);
    } else {
        assert(old.skip(0) =~= old);
        assert(new.skip(0) =~= new);
    }
}

/// `all_rewritten` on a forest whose prefix before `i` is rewritten reduces
/// to `all_rewritten` on the suffixes.
proof fn lemma_all_rewritten_suffix(
    old: Seq<NodeModel>,
    new: Seq<NodeModel>,
    flags: spec_fn(NodeModel) -> (bool, bool),
    i: int,
)
    requires
        0 <= i <= old.len(),
        old.len() == new.len(),
        forall|j: int|
            0 <= j < i ==> {
                &&& (#[trigger] new[j]).label == old[j].label
                &&& new[j].id == old[j].id
                &&& (new[j].expanded, new[j].selected) == flags(old[j])
                &&& all_rewritten(old[j].children, new[j].children, flags)
            },
        all_rewritten(old.skip(i), new.skip(i), flags),
    ensures
        all_rewritten(old, new, flags),
    decreases i,
{
    if i > 0 {
        lemma_skip_step(old, i - 1);
        lemma_skip_step(new, i - 1);
        lemma_all_rewritten_suffix(old, new, flags, i - 1);
    } else {
        assert(old.skip(0) =~= old);
        assert(new.skip(0) =~= new);
    }
}

/// The height of a later suffix, or of a node's children, is bounded by the
/// forest's height.
proof fn lemma_height_parts(ns: Seq<NodeModel>, i: int)
    requires
        0 <= i < ns.len(),
    ensures
        1 + height(ns[i].children) <= height(ns.skip(i)),
        height(ns.skip(i + 1)) <= height(ns.skip(i)),
        height(ns.skip(i)) <= height(ns),
    decreases i,
{
    lemma_skip_step(ns, i);
    if i > 0 {
        lemma_height_parts(ns, i - 1);
    } else {
        assert(ns.skip(0) =~= ns);
    }
}

// ---------------------------------------------------------------------------
// Recursive operations on forests.
// ---------------------------------------------------------------------------
/// The first node with identifier `id`.
fn find_node(nodes: &Vec<TreeNode>, id: usize) -> (r: Option<&TreeNode>)
    ensures
        r.is_some() == contains_id(forest_view(nodes@), id),
        r matches Some(n) ==> find_spec(forest_view(nodes@), id) == Some(node_view(*n)),
        r is None ==> find_spec(forest_view(nodes@), id) is None,
    decreases nodes@,
{
    let ghost m = forest_view(nodes@);
    proof {
        lemma_view_index(nodes@);
        assert(m.skip(0) =~= m);
    }
    let mut i: usize = 0;
    while i < nodes.len()
        invariant
            0 <= i <= nodes@.len(),
            m == forest_view(nodes@),
            m.len() == nodes@.len(),
            forall|j: int| 0 <= j < nodes@.len() ==> #[trigger] m[j] == node_view(nodes@[j]),
            contains_id(m, id) == contains_id(m.skip(i as int), id),
            find_spec(m, id) == find_spec(m.skip(i as int), id),
        decreases nodes@.len() - i,
    {
        proof {
            lemma_skip_step(m, i as int);
            assert(m[i as int] == node_view(nodes@[i as int]));
        }
        if nodes[i].id == id {
            return Some(&nodes[i]);
        }
        match find_node(&nodes[i].children, id) {
            Some(found) => {
                return Some(found);
            },
            None => {},
        }
        i = i + 1;
    }
    assert(m.skip(i as int).len() == 0);
    None
}

/// The parent of the first node with a direct child `target_id`.
fn find_parent_id(nodes: &Vec<TreeNode>, target_id: usize) -> (r: Option<usize>)
    ensures
        r == parent_spec(forest_view(nodes@), target_id),
    decreases nodes@,
{
    let ghost m = forest_view(nodes@);
    proof {
        lemma_view_index(nodes@);
        assert(m.skip(0) =~= m);
    }
    let mut i: usize = 0;
    while i < nodes.len()
        invariant
            0 <= i <= nodes@.len(),
            m == forest_view(nodes@),
            m.len() == nodes@.len(),
            forall|j: int| 0 <= j < nodes@.len() ==> #[trigger] m[j] == node_view(nodes@[j]),
            parent_spec(m, target_id) == parent_spec(m.skip(i as int), target_id),
        decreases nodes@.len() - i,
    {
        proof {
            lemma_skip_step(m, i as int);
            assert(m[i as int] == node_view(nodes@[i as int]));
        }
        let node = &nodes[i];
        let ghost head = m.skip(i as int)[0];
        let ghost rest = m.skip(i as int);
        let ghost kids = m[i as int].children;
        assert(kids == forest_view(node.children@));
        proof {
            lemma_view_index(node.children@);
        }
        let mut k: usize = 0;
        while k < node.children.len()
            invariant
                0 <= k <= node.children@.len(),
                rest.len() > 0,
                m == forest_view(nodes@),
                head == rest[0],
                head.id == node.id,
                parent_spec(m, target_id) == parent_spec(rest, target_id),
                kids == forest_view(node.children@),
                kids == head.children,
                kids.len() == node.children@.len(),
                forall|j: int| 0 <= j < node.children@.len() ==> #[trigger] kids[j] == node_view(node.children@[j]),
                forall|j: int| 0 <= j < k ==> (#[trigger] kids[j]).id != target_id,
            decreases node.children@.len() - k,
        {
            assert(kids[k as int] == node_view(node.children@[k as int]));
            if node.children[k].id == target_id {
                proof {
                    assert(head.children[k as int].id == target_id);
                }
                return Some(node.id);
            }
            k = k + 1;
        }
        proof {
            assert(!exists|k: int| 0 <= k < m.skip(i as int)[0].children.len() && (
            #[trigger] m.skip(i as int)[0].children[k]).id == target_id);
        }
        match find_parent_id(&node.children, target_id) {
            Some(pid) => {
                return Some(pid);
            },
            None => {},
        }
        i = i + 1;
    }
    None
}

/// A placeholder node, swapped in while a node is being edited.
fn blank() -> (r: TreeNode)
    ensures
        r.children@.len() == 0,
{
    TreeNode { label: String::new(), children: Vec::new(), expanded: false, selected: false, id: 0 }
}

/// The step that `change_first` applies for `which`.
pub open spec fn step_of(which: u8, v: bool) -> spec_fn(NodeModel, NodeModel) -> bool {
    if which == 0 {
        set_expanded(v)
    } else if which == 1 {
        toggled()
    } else {
        marked_selected()
    }
}

/// Apply a step to the first node with identifier `id`: set the expanded
/// flag (`which == 0`, to `v`), toggle it (`which == 1`), or mark the node
/// selected (`which == 2`).
fn change_first(nodes_in: Vec<TreeNode>, id: usize, which: u8, v: bool) -> (r: (Vec<TreeNode>, bool))
    requires
        which <= 2,
    ensures
        r.1 == contains_id(forest_view(nodes_in@), id),
        changed_first(forest_view(nodes_in@), forest_view(r.0@), id, step_of(which, v)),
        !r.1 ==> forest_view(r.0@) == forest_view(nodes_in@),
    decreases nodes_in,
{
    let mut nodes = nodes_in;
    let ghost o = nodes@;
    let ghost om = forest_view(o);
    let ghost step = step_of(which, v);
    proof {
        lemma_view_index(o);
        assert(om.skip(0) =~= om);
    }
    let mut i: usize = 0;
    while i < nodes.len()
        invariant
            0 <= i <= o.len(),
            nodes_in@ == o,
            om == forest_view(o),
            om.len() == o.len(),
            forall|j: int| 0 <= j < o.len() ==> #[trigger] om[j] == node_view(o[j]),
            forest_view(nodes@) == om,
            nodes@.len() == o.len(),
            forall|j: int| i <= j < o.len() ==> #[trigger] nodes@[j] == o[j],
            which <= 2,
            step == step_of(which, v),
            contains_id(om, id) == contains_id(om.skip(i as int), id),
            forall|j: int| 0 <= j < i ==> (#[trigger] om[j]).id != id && !contains_id(om[j].children, id),
        decreases o.len() - i,
    {
        proof {
            lemma_skip_step(om, i as int);
        }
        let ghost before = nodes@;
        let mut node = blank();
        nodes.set_and_swap(i, &mut node);
        assert(node == o[i as int]);
        assert(node_view(node) == om[i as int]);
        let found = if node.id == id {
            if which == 0 {
                node.expanded = v;
            } else if which == 1 {
                if node.children.len() > 0 {
                    node.expanded = !node.expanded;
                }
            } else {
                node.selected = true;
            }
            proof {
                lemma_view_index(o[i as int].children@);
                assert(step(om[i as int], node_view(node)));
            }
            true
        } else {
            let mut kids: Vec<TreeNode> = Vec::new();
            std::mem::swap(&mut kids, &mut node.children);
            proof {
                assert(decreases_to!(nodes_in => nodes_in[i as int]));
            }
            let (kids2, f) = change_first(kids, id, which, v);
            node.children = kids2;
            proof {
                if f {
                    assert(same_shell(om[i as int], node_view(node)));
                } else {
                    assert(node_view(node) == om[i as int]);
                }
            }
            f
        };
        let ghost edited = node;
        nodes.set_and_swap(i, &mut node);
        proof {
            assert(nodes@ =~= before.update(i as int, edited));
            lemma_view_update(before, i as int, edited);
        }
        if found {
            proof {
                let nm = forest_view(nodes@);
                lemma_skip_step(nm, i as int);
                assert(nm.skip(i as int + 1) =~= om.skip(i as int + 1));
                lemma_changed_first_suffix(om, nm, id, step, i as int);
            }
            return (nodes, true);
        }
        proof {
            assert(forest_view(nodes@) =~= om);
        }
        i = i + 1;
    }
    proof {
        assert(om.skip(i as int).len() == 0);
        assert(changed_first(om, om, id, step)) by {
            lemma_changed_first_suffix(om, om, id, step, i as int);
        }
    }
    (nodes, false)
}

/// Append a new leaf with `label` and `id` to the first node with
/// identifier `parent_id`.
fn insert_child(nodes_in: Vec<TreeNode>, parent_id: usize, label: &str, id: usize) -> (r: (
    Vec<TreeNode>,
    bool,
))
    ensures
        r.1 == contains_id(forest_view(nodes_in@), parent_id),
        changed_first(forest_view(nodes_in@), forest_view(r.0@), parent_id, child_added(label@, id)),
        !r.1 ==> forest_view(r.0@) == forest_view(nodes_in@),
    decreases nodes_in,
{
    let mut nodes = nodes_in;
    let ghost o = nodes@;
    let ghost om = forest_view(o);
    let ghost step = child_added(label@, id);
    proof {
        lemma_view_index(o);
        assert(om.skip(0) =~= om);
    }
    let mut i: usize = 0;
    while i < nodes.len()
        invariant
            0 <= i <= o.len(),
            nodes_in@ == o,
            om == forest_view(o),
            om.len() == o.len(),
            forall|j: int| 0 <= j < o.len() ==> #[trigger] om[j] == node_view(o[j]),
            forest_view(nodes@) == om,
            nodes@.len() == o.len(),
            forall|j: int| i <= j < o.len() ==> #[trigger] nodes@[j] == o[j],
            step == child_added(label@, id),
            contains_id(om, parent_id) == contains_id(om.skip(i as int), parent_id),
            forall|j: int|
                0 <= j < i ==> (#[trigger] om[j]).id != parent_id && !contains_id(om[j].children, parent_id),
        decreases o.len() - i,
    {
        proof {
            lemma_skip_step(om, i as int);
        }
        let ghost before = nodes@;
        let mut node = blank();
        nodes.set_and_swap(i, &mut node);
        assert(node == o[i as int]);
        assert(node_view(node) == om[i as int]);
        let found = if node.id == parent_id {
            let ghost kids = node.children@;
            let leaf_node = TreeNode::new(label, id);
            proof {
                lemma_view_index(leaf_node.children@);
                assert(node_view(leaf_node) == leaf(label@, id));
            }
            node.children.push(leaf_node);
            proof {
                lemma_view_push(kids, leaf_node);
                assert(step(om[i as int], node_view(node)));
            }
            true
        } else {
            let mut kids: Vec<TreeNode> = Vec::new();
            std::mem::swap(&mut kids, &mut node.children);
            proof {
                assert(decreases_to!(nodes_in => nodes_in[i as int]));
            }
            let (kids2, f) = insert_child(kids, parent_id, label, id);
            node.children = kids2;
            proof {
                if f {
                    assert(same_shell(om[i as int], node_view(node)));
                } else {
                    assert(node_view(node) == om[i as int]);
                }
            }
            f
        };
        let ghost edited = node;
        nodes.set_and_swap(i, &mut node);
        proof {
            assert(nodes@ =~= before.update(i as int, edited));
            lemma_view_update(before, i as int, edited);
        }
        if found {
            proof {
                let nm = forest_view(nodes@);
                lemma_skip_step(nm, i as int);
                assert(nm.skip(i as int + 1) =~= om.skip(i as int + 1));
                lemma_changed_first_suffix(om, nm, parent_id, step, i as int);
            }
            return (nodes, true);
        }
        proof {
            assert(forest_view(nodes@) =~= om);
        }
        i = i + 1;
    }
    proof {
        assert(om.skip(i as int).len() == 0);
        assert(changed_first(om, om, parent_id, step)) by {
            lemma_changed_first_suffix(om, om, parent_id, step, i as int);
        }
    }
    (nodes, false)
}

/// Rewrite every node's flags: set the expanded flag of nodes with children
/// to `expanded` (`clear == false`), or clear every selected flag
/// (`clear == true`).
fn rewrite_all(nodes_in: Vec<TreeNode>, clear: bool, expanded: bool) -> (r: Vec<TreeNode>)
    ensures
        all_rewritten(
            forest_view(nodes_in@),
            forest_view(r@),
            if clear {
                cleared_flags()
            } else {
                expand_flags(expanded)
            },
        ),
    decreases nodes_in,
{
    let mut nodes = nodes_in;
    let ghost o = nodes@;
    let ghost om = forest_view(o);
    let ghost flags = if clear {
        cleared_flags()
    } else {
        expand_flags(expanded)
    };
    proof {
        lemma_view_index(o);
    }
    let mut i: usize = 0;
    while i < nodes.len()
        invariant
            0 <= i <= o.len(),
            nodes_in@ == o,
            om == forest_view(o),
            om.len() == o.len(),
            forall|j: int| 0 <= j < o.len() ==> #[trigger] om[j] == node_view(o[j]),
            nodes@.len() == o.len(),
            flags == (if clear {
                cleared_flags()
            } else {
                expand_flags(expanded)
            }),
            forall|j: int| i <= j < o.len() ==> #[trigger] nodes@[j] == o[j],
            forall|j: int|
                0 <= j < i ==> {
                    let a = om[j];
                    let b = node_view(#[trigger] nodes@[j]);
                    &&& b.label == a.label
                    &&& b.id == a.id
                    &&& (b.expanded, b.selected) == flags(a)
                    &&& all_rewritten(a.children, b.children, flags)
                },
        decreases o.len() - i,
    {
        let mut node = blank();
        nodes.set_and_swap(i, &mut node);
        assert(node == o[i as int]);
        assert(node_view(node) == om[i as int]);
        if clear {
            node.selected = false;
        } else if node.children.len() > 0 {
            node.expanded = expanded;
        }
        proof {
            lemma_view_index(o[i as int].children@);
        }
        let mut kids: Vec<TreeNode> = Vec::new();
        std::mem::swap(&mut kids, &mut node.children);
        proof {
            assert(decreases_to!(nodes_in => nodes_in[i as int]));
        }
        let kids2 = rewrite_all(kids, clear, expanded);
        node.children = kids2;
        nodes.set_and_swap(i, &mut node);
        i = i + 1;
    }
    proof {
        let nm = forest_view(nodes@);
        lemma_view_index(nodes@);
        assert(om.skip(i as int).len() == 0);
        assert(nm.skip(i as int).len() == 0);
        assert forall|j: int| 0 <= j < i implies {
            &&& (#[trigger] nm[j]).label == om[j].label
            &&& nm[j].id == om[j].id
            &&& (nm[j].expanded, nm[j].selected) == flags(om[j])
            &&& all_rewritten(om[j].children, nm[j].children, flags)
        } by {
            assert(nm[j] == node_view(nodes@[j]));
        }
        lemma_all_rewritten_suffix(om, nm, flags, i as int);
    }
    nodes
}

/// Append the visible rows of `nodes` at depth `depth` to `out`.
fn collect_visible<'a>(nodes: &'a Vec<TreeNode>, depth: usize, out: &mut Vec<(usize, &'a TreeNode, usize)>)
    requires
        depth + height(forest_view(nodes@)) <= usize::MAX,
    ensures
        final(out)@.map_values(|r: (usize, &TreeNode, usize)| row_view(r)) == old(out)@.map_values(
            |r: (usize, &TreeNode, usize)| row_view(r),
        ) + flat(forest_view(nodes@), depth as nat),
    decreases nodes@,
{
    let ghost m = forest_view(nodes@);
    let ghost start = old(out)@.map_values(|r: (usize, &TreeNode, usize)| row_view(r));
    proof {
        lemma_view_index(nodes@);
        assert(m.skip(0) =~= m);
        assert(start + flat(m, depth as nat) =~= start + flat(m.skip(0), depth as nat));
    }
    let mut i: usize = 0;
    while i < nodes.len()
        invariant
            0 <= i <= nodes@.len(),
            m == forest_view(nodes@),
            m.len() == nodes@.len(),
            forall|j: int| 0 <= j < nodes@.len() ==> #[trigger] m[j] == node_view(nodes@[j]),
            depth + height(m) <= usize::MAX,
            out@.map_values(|r: (usize, &TreeNode, usize)| row_view(r)) + flat(m.skip(i as int), depth as nat)
                == start + flat(m, depth as nat),
        decreases nodes@.len() - i,
    {
        let ghost before = out@.map_values(|r: (usize, &TreeNode, usize)| row_view(r));
        proof {
            lemma_skip_step(m, i as int);
            lemma_height_parts(m, i as int);
            assert(m[i as int] == node_view(nodes@[i as int]));
        }
        let node = &nodes[i];
        out.push((node.id, node, depth));
        let ghost mid = out@.map_values(|r: (usize, &TreeNode, usize)| row_view(r));
        assert(mid =~= before.push((m[i as int].id, m[i as int], depth as nat)));
        if node.expanded {
            collect_visible(&node.children, depth + 1, out);
        }
        proof {
            let after = out@.map_values(|r: (usize, &TreeNode, usize)| row_view(r));
            let kids = if m[i as int].expanded {
                flat(m[i as int].children, depth as nat + 1)
            } else {
                Seq::empty()
            };
            assert(after =~= mid + kids);
            assert(flat(m.skip(i as int), depth as nat) == seq![(m[i as int].id, m[i as int], depth as nat)]
                + kids + flat(m.skip(i as int + 1), depth as nat));
            assert(after + flat(m.skip(i as int + 1), depth as nat) =~= before + flat(
                m.skip(i as int),
                depth as nat,
            ));
        }
        i = i + 1;
    }
    proof {
        assert(m.skip(i as int).len() == 0);
        assert(flat(m.skip(i as int), depth as nat) =~= Seq::empty());
        assert(out@.map_values(|r: (usize, &TreeNode, usize)| row_view(r)) =~= out@.map_values(
            |r: (usize, &TreeNode, usize)| row_view(r),
        ) + Seq::<(usize, NodeModel, nat)>::empty());
    }
}

/// `changed_first` never changes identifiers, so it keeps which forests
/// hold `id`.
proof fn lemma_changed_first_keeps_ids(
    a: Seq<NodeModel>,
    b: Seq<NodeModel>,
    id: usize,
    step: spec_fn(NodeModel, NodeModel) -> bool,
    k: usize,
)
    requires
        changed_first(a, b, id, step),
        forall|x: NodeModel, y: NodeModel| #[trigger] step(x, y) ==> y.id == x.id && y.children == x.children,
    ensures
        contains_id(b, k) == contains_id(a, k),
    decreases a,
{
    if a.len() > 0 {
        if a[0].id == id {
            assert(step(a[0], b[0]));
            assert(b.drop_first() == a.drop_first());
        } else if contains_id(a[0].children, id) {
            lemma_changed_first_keeps_ids(a[0].children, b[0].children, id, step, k);
            assert(b.drop_first() == a.drop_first());
        } else {
            lemma_changed_first_keeps_ids(a.drop_first(), b.drop_first(), id, step, k);
        }
    }
}

/// Toggling the same node twice restores the tree.
pub proof fn lemma_toggle_twice(a: Seq<NodeModel>, b: Seq<NodeModel>, c: Seq<NodeModel>, id: usize)
    requires
        changed_first(a, b, id, toggled()),
        changed_first(b, c, id, toggled()),
    ensures
        c == a,
    decreases a,
{
    if a.len() > 0 {
        if a[0].id == id {
            assert(b[0].id == id);
            assert(c[0] =~= a[0]);
            assert(c =~= a) by {
                assert(c.drop_first() == a.drop_first());
                assert forall|k: int| 0 <= k < a.len() implies c[k] == a[k] by {
                    if k > 0 {
                        assert(c[k] == c.drop_first()[k - 1]);
                        assert(a[k] == a.drop_first()[k - 1]);
                    }
                }
            }
        } else if contains_id(a[0].children, id) {
            assert(b[0].id != id);
            lemma_changed_first_keeps_ids(a[0].children, b[0].children, id, toggled(), id);
            lemma_toggle_twice(a[0].children, b[0].children, c[0].children, id);
            assert(c[0] =~= a[0]);
            assert(c =~= a) by {
                assert(c.drop_first() == a.drop_first());
                assert forall|k: int| 0 <= k < a.len() implies c[k] == a[k] by {
                    if k > 0 {
                        assert(c[k] == c.drop_first()[k - 1]);
                        assert(a[k] == a.drop_first()[k - 1]);
                    }
                }
            }
        } else {
            assert(b[0] == a[0]);
            lemma_toggle_twice(a.drop_first(), b.drop_first(), c.drop_first(), id);
            assert(c =~= a) by {
                assert forall|k: int| 0 <= k < a.len() implies c[k] == a[k] by {
                    if k > 0 {
                        assert(c[k] == c.drop_first()[k - 1]);
                        assert(a[k] == a.drop_first()[k - 1]);
                    }
                }
            }
        }
    }
}

/// After collapsing every node, only the top-level nodes are visible.
pub proof fn lemma_collapsed_shows_roots(a: Seq<NodeModel>, b: Seq<NodeModel>, depth: nat)
    requires
        all_rewritten(a, b, expand_flags(false)),
    ensures
        flat(b, depth) == b.map_values(|n: NodeModel| (n.id, n, depth)),
    decreases a,
{
    if a.len() > 0 {
        lemma_collapsed_shows_roots(a.drop_first(), b.drop_first(), depth);
        assert(b[0].expanded ==> b[0].children.len() == 0) by {
            lemma_all_rewritten_len(a[0].children, b[0].children, expand_flags(false));
        }
        if b[0].expanded {
            assert(flat(b[0].children, depth + 1) =~= Seq::empty());
        }
        assert(flat(b, depth) =~= b.map_values(|n: NodeModel| (n.id, n, depth)));
    } else {
        assert(flat(b, depth) =~= b.map_values(|n: NodeModel| (n.id, n, depth)));
    }
}

/// `all_rewritten` keeps the number of nodes at each level.
proof fn lemma_all_rewritten_len(a: Seq<NodeModel>, b: Seq<NodeModel>, flags: spec_fn(NodeModel) -> (bool, bool))
    requires
        all_rewritten(a, b, flags),
    ensures
        a.len() == b.len(),
{
}

/// The identifiers of rows whose model is `flat(ms, 0)` are the visible
/// identifiers of `ms`.
proof fn lemma_row_ids(rows: Seq<(usize, &TreeNode, usize)>, ms: Seq<NodeModel>)
    requires
        rows.map_values(|t: (usize, &TreeNode, usize)| row_view(t)) == flat(ms, 0),
    ensures
        rows.map_values(|t: (usize, &TreeNode, usize)| t.0) == visible_ids(ms),
{
    let a = rows.map_values(|t: (usize, &TreeNode, usize)| row_view(t));
    let b = rows.map_values(|t: (usize, &TreeNode, usize)| t.0);
    let c = visible_ids(ms);
    assert forall|k: int| 0 <= k < rows.len() implies #[trigger] b[k] == c[k] by {
        assert(a[k].0 == rows[k].0);
    }
    assert(b =~= c);
}

/// Height of a row, unless the text is taller.
pub const TREE_ROW_HEIGHT: u32 = 16;

/// Width of the expand indicator's column.
pub const TREE_INDICATOR_WIDTH: u32 = 12;

/// Height of a row for text `text_h` tall.
pub open spec fn tree_row_height(text_h: u32) -> int {
    if text_h > TREE_ROW_HEIGHT {
        text_h as int
    } else {
        TREE_ROW_HEIGHT as int
    }
}

/// The connecting lines of a row at depth `depth > 0`: a branch from the
/// parent's vertical line to the node, and that vertical line, which stops
/// at the branch when the row closes its group.
pub open spec fn tree_lines_ops(theme: Theme, x: i32, row_y: int, depth: int, indent: int, row_h: int, last: bool) -> Seq<
    DrawCmd,
> {
    let ix = x + (depth - 1) * indent + indent / 2;
    let mid = row_y + row_h / 2;
    seq![
        DrawCmd::Line {
            x1: ix as i32,
            y1: mid as i32,
            x2: (ix + indent / 2) as i32,
            y2: mid as i32,
            width: 1,
            color: theme.border_subtle,
        },
        DrawCmd::Line {
            x1: ix as i32,
            y1: row_y as i32,
            x2: ix as i32,
            y2: (if last {
                mid
            } else {
                row_y + row_h
            }) as i32,
            width: 1,
            color: theme.border_subtle,
        },
    ]
}

/// What visible row `k` draws: the selection fill and the focus outline
/// (when enabled), its connecting lines (when shown), the `+`/`-`
/// indicator of a node with children (`minus_w`, `plus_w` wide), and its
/// label.
pub open spec fn tree_row_ops(
    tv: TreeView,
    theme: Theme,
    x: i32,
    y: i32,
    w: u32,
    text_h: u32,
    minus_w: u32,
    plus_w: u32,
    k: int,
) -> Seq<DrawCmd> {
    let rows = flat(tv.roots_spec(), 0);
    let (id, node, depth) = rows[k];
    let row_h = tree_row_height(text_h);
    let row_y = y + k * row_h;
    let indent = depth * tv.settings_spec().0;
    let ty = row_y + center_spec(row_h as u32, text_h);
    let depths = rows.map_values(|r: (usize, NodeModel, nat)| r.2 as usize);
    (if node.selected && !tv.settings_spec().2 {
        seq![DrawCmd::FillRect { x, y: row_y as i32, w, h: row_h as u32, color: theme.accent_subtle }]
    } else {
        Seq::empty()
    }) + (if tv.focused_spec() == Some(id) && !tv.settings_spec().2 {
        seq![DrawCmd::StrokeRect { x, y: row_y as i32, w, h: row_h as u32, width: 1, color: theme.border_subtle }]
    } else {
        Seq::empty()
    }) + (if tv.settings_spec().1 && depth > 0 {
        tree_lines_ops(theme, x, row_y, depth as int, tv.settings_spec().0 as int, row_h, closes_group(depths, k))
    } else {
        Seq::empty()
    }) + (if node.children.len() > 0 {
        seq![
            DrawCmd::Text {
                text: if node.expanded {
                    seq!['-']
                } else {
                    seq!['+']
                },
                x: (x + indent + center_spec(
                    TREE_INDICATOR_WIDTH,
                    if node.expanded {
                        minus_w
                    } else {
                        plus_w
                    },
                )) as i32,
                y: ty as i32,
                font_size: theme.font_size_md,
                color: if tv.settings_spec().2 {
                    theme.text_disabled
                } else {
                    theme.text_secondary
                },
            },
        ]
    } else {
        Seq::empty()
    }) + seq![
        DrawCmd::Text {
            text: node.label,
            x: (x + indent + TREE_INDICATOR_WIDTH + 6) as i32,
            y: ty as i32,
            font_size: theme.font_size_md,
            color: if tv.settings_spec().2 {
                theme.text_disabled
            } else {
                theme.text_primary
            },
        },
    ]
}

/// The operations of the first `k` visible rows.
pub open spec fn tree_rows_ops(
    tv: TreeView,
    theme: Theme,
    x: i32,
    y: i32,
    w: u32,
    text_h: u32,
    minus_w: u32,
    plus_w: u32,
    k: nat,
) -> Seq<DrawCmd>
    decreases k,
{
    if k == 0 {
        Seq::empty()
    } else {
        tree_rows_ops(tv, theme, x, y, w, text_h, minus_w, plus_w, (k - 1) as nat) + tree_row_ops(
            tv,
            theme,
            x,
            y,
            w,
            text_h,
            minus_w,
            plus_w,
            k - 1,
        )
    }
}

/// Everything a tree view draws at `(x, y)` with width `w`: its visible
/// rows, top to bottom.
pub open spec fn tree_ops(tv: TreeView, theme: Theme, x: i32, y: i32, w: u32, text_h: u32, minus_w: u32, plus_w: u32) -> Seq<
    DrawCmd,
> {
    tree_rows_ops(tv, theme, x, y, w, text_h, minus_w, plus_w, flat(tv.roots_spec(), 0).len())
}

/// Whether drawing the tree at `(x, y)` stays inside `i32` arithmetic.
pub open spec fn tree_draw_fits(tv: TreeView, x: i32, y: i32, text_h: u32, minus_w: u32, plus_w: u32) -> bool {
    let rows = flat(tv.roots_spec(), 0);
    &&& height(tv.roots_spec()) <= usize::MAX
    &&& text_h < i32::MAX
    &&& minus_w <= i32::MAX
    &&& plus_w <= i32::MAX
    &&& rows.len() * tree_row_height(text_h) <= i32::MAX
    &&& y + rows.len() * tree_row_height(text_h) <= i32::MAX
    &&& forall|k: int| 0 <= k < rows.len() ==> #[trigger] indent_fits(tv, x, rows[k].2)
}

/// Whether a row at depth `d` keeps its indentation and label position
/// inside `i32`.
pub open spec fn indent_fits(tv: TreeView, x: i32, d: nat) -> bool {
    &&& d <= i32::MAX
    &&& d * tv.settings_spec().0 <= i32::MAX
    &&& x + d * tv.settings_spec().0 + TREE_INDICATOR_WIDTH + 6 <= i32::MAX
}

/// Row `k` of `n` rows `row_h` tall lies within the first `n * row_h`
/// pixels.
proof fn lemma_tree_row(n: int, row_h: int, k: int)
    requires
        0 <= k < n,
        row_h >= 1,
    ensures
        0 <= k * row_h,
        k * row_h + row_h <= n * row_h,
        k <= k * row_h,
{
    assert(0 <= k * row_h && k <= k * row_h) by (nonlinear_arith)
        requires
            0 <= k,
            row_h >= 1,
    ;
    assert(k * row_h + row_h <= n * row_h) by (nonlinear_arith)
        requires
            0 <= k < n,
            row_h >= 1,
    ;
}

/// `d * i` stays between 0 and `d * i` bounds used by the indentation.
proof fn lemma_indent(d: int, i: int)
    requires
        d >= 1,
        i >= 0,
    ensures
        (d - 1) * i + i == d * i,
        0 <= (d - 1) * i,
{
    assert((d - 1) * i + i == d * i) by (nonlinear_arith);
    assert(0 <= (d - 1) * i) by (nonlinear_arith)
        requires
            d >= 1,
            i >= 0,
    ;
}

impl TreeView {
    /// The top-level nodes.
    pub closed spec fn roots_spec(&self) -> Seq<NodeModel> {
        forest_view(self.roots@)
    }

    /// The focused node's identifier.
    pub closed spec fn focused_spec(&self) -> Option<usize> {
        self.focused_id
    }

    /// The identifier the next added node receives.
    pub closed spec fn next_id_spec(&self) -> usize {
        self.next_id
    }

    /// The fields other than the nodes and the focus.
    pub closed spec fn settings_spec(&self) -> (u16, bool, bool) {
        (self.indent_width, self.show_lines, self.disabled)
    }

    /// Apply a step to the first root-forest node with identifier `id`.
    fn apply_first(&mut self, id: usize, which: u8, v: bool)
        requires
            which <= 2,
        ensures
            changed_first(old(self).roots_spec(), final(self).roots_spec(), id, step_of(which, v)),
            final(self).focused_spec() == old(self).focused_spec(),
            final(self).next_id_spec() == old(self).next_id_spec(),
            final(self).settings_spec() == old(self).settings_spec(),
    {
        let mut roots: Vec<TreeNode> = Vec::new();
        std::mem::swap(&mut roots, &mut self.roots);
        let (roots2, _found) = change_first(roots, id, which, v);
        self.roots = roots2;
    }

    /// Rewrite the flags of every node (see `rewrite_all`).
    fn rewrite_roots(&mut self, clear: bool, expanded: bool)
        ensures
            all_rewritten(
                old(self).roots_spec(),
                final(self).roots_spec(),
                if clear {
                    cleared_flags()
                } else {
                    expand_flags(expanded)
                },
            ),
            final(self).focused_spec() == old(self).focused_spec(),
            final(self).next_id_spec() == old(self).next_id_spec(),
            final(self).settings_spec() == old(self).settings_spec(),
    {
        let mut roots: Vec<TreeNode> = Vec::new();
        std::mem::swap(&mut roots, &mut self.roots);
        let roots2 = rewrite_all(roots, clear, expanded);
        self.roots = roots2;
    }

    /// Create an empty tree view.
    pub fn new() -> (r: Self)
        ensures
            r.roots_spec().len() == 0,
            r.focused_spec().is_none(),
            r.next_id_spec() == 0,
            r.settings_spec() == (16u16, false, false),
    {
        TreeView {
            roots: Vec::new(),
            focused_id: None,
            indent_width: 16,
            show_lines: false,
            disabled: false,
            next_id: 0,
        }
    }

    /// Add a top-level node; returns its identifier.
    pub fn add_root(&mut self, label: &str) -> (id: usize)
        requires
            old(self).next_id_spec() < usize::MAX,
        ensures
            id == old(self).next_id_spec(),
            final(self).next_id_spec() == id + 1,
            final(self).roots_spec() == old(self).roots_spec().push(leaf(label@, id)),
            final(self).focused_spec() == old(self).focused_spec(),
            final(self).settings_spec() == old(self).settings_spec(),
    {
        let id = self.next_id;
        self.next_id = self.next_id + 1;
        let node = TreeNode::new(label, id);
        proof {
            lemma_view_index(node.children@);
            assert(node_view(node) == leaf(label@, id));
            lemma_view_push(self.roots@, node);
        }
        self.roots.push(node);
        id
    }

    /// Add a leaf under the first node with identifier `parent_id`; returns
    /// its identifier, or `None` (changing nothing) when there is no such
    /// node.
    pub fn add_child(&mut self, parent_id: usize, label: &str) -> (r: Option<usize>)
        requires
            old(self).next_id_spec() < usize::MAX,
        ensures
            contains_id(old(self).roots_spec(), parent_id) ==> r == Some(old(self).next_id_spec())
                && final(self).next_id_spec() == old(self).next_id_spec() + 1,
            !contains_id(old(self).roots_spec(), parent_id) ==> r is None && final(self).next_id_spec()
                == old(self).next_id_spec(),
            changed_first(
                old(self).roots_spec(),
                final(self).roots_spec(),
                parent_id,
                child_added(label@, old(self).next_id_spec()),
            ),
            final(self).focused_spec() == old(self).focused_spec(),
            final(self).settings_spec() == old(self).settings_spec(),
    {
        let id = self.next_id;
        let mut roots: Vec<TreeNode> = Vec::new();
        std::mem::swap(&mut roots, &mut self.roots);
        let (roots2, found) = insert_child(roots, parent_id, label, id);
        self.roots = roots2;
        if found {
            self.next_id = self.next_id + 1;
            Some(id)
        } else {
            None
        }
    }

    /// Flip the first node with identifier `id` between expanded and
    /// collapsed, if it has children.
    pub fn toggle(&mut self, id: usize)
        ensures
            changed_first(old(self).roots_spec(), final(self).roots_spec(), id, toggled()),
            final(self).focused_spec() == old(self).focused_spec(),
            final(self).next_id_spec() == old(self).next_id_spec(),
            final(self).settings_spec() == old(self).settings_spec(),
    {
        self.apply_first(id, 1, false);
    }

    /// Expand the first node with identifier `id`.
    pub fn expand(&mut self, id: usize)
        ensures
            changed_first(old(self).roots_spec(), final(self).roots_spec(), id, set_expanded(true)),
            final(self).focused_spec() == old(self).focused_spec(),
            final(self).next_id_spec() == old(self).next_id_spec(),
            final(self).settings_spec() == old(self).settings_spec(),
    {
        self.apply_first(id, 0, true);
    }

    /// Collapse the first node with identifier `id`.
    pub fn collapse(&mut self, id: usize)
        ensures
            changed_first(old(self).roots_spec(), final(self).roots_spec(), id, set_expanded(false)),
            final(self).focused_spec() == old(self).focused_spec(),
            final(self).next_id_spec() == old(self).next_id_spec(),
            final(self).settings_spec() == old(self).settings_spec(),
    {
        self.apply_first(id, 0, false);
    }

    /// Expand every node that has children.
    pub fn expand_all(&mut self)
        ensures
            all_rewritten(old(self).roots_spec(), final(self).roots_spec(), expand_flags(true)),
            final(self).focused_spec() == old(self).focused_spec(),
            final(self).next_id_spec() == old(self).next_id_spec(),
            final(self).settings_spec() == old(self).settings_spec(),
    {
        self.rewrite_roots(false, true);
    }

    /// Collapse every node that has children.
    pub fn collapse_all(&mut self)
        ensures
            all_rewritten(old(self).roots_spec(), final(self).roots_spec(), expand_flags(false)),
            final(self).focused_spec() == old(self).focused_spec(),
            final(self).next_id_spec() == old(self).next_id_spec(),
            final(self).settings_spec() == old(self).settings_spec(),
    {
        self.rewrite_roots(false, false);
    }

    /// Select the first node with identifier `id` (deselecting every other
    /// node) and focus `id`.
    pub fn select(&mut self, id: usize)
        ensures
            exists|mid: Seq<NodeModel>|
                all_rewritten(old(self).roots_spec(), mid, cleared_flags()) && changed_first(
                    mid,
                    final(self).roots_spec(),
                    id,
                    marked_selected(),
                ),
            final(self).focused_spec() == Some(id),
            final(self).next_id_spec() == old(self).next_id_spec(),
            final(self).settings_spec() == old(self).settings_spec(),
    {
        self.rewrite_roots(true, false);
        let ghost mid = forest_view(self.roots@);
        self.apply_first(id, 2, false);
        self.focused_id = Some(id);
        assert(all_rewritten(forest_view(old(self).roots@), mid, cleared_flags()) && changed_first(
            mid,
            forest_view(self.roots@),
            id,
            marked_selected(),
        ));
    }

    /// The focused node's identifier.
    pub fn focused(&self) -> (r: Option<usize>)
        ensures
            r == self.focused_spec(),
    {
        self.focused_id
    }

    /// What drawing the tree at `(x, y)` with width `w` asks the renderer
    /// to draw, given the text height and the measured widths of `-` and
    /// `+`.
    #[verifier::rlimit(80)]
    pub fn draw(&self, theme: &Theme, x: i32, y: i32, w: u32, text_h: u32, minus_w: u32, plus_w: u32) -> (r: Vec<
        DrawOp,
    >)
        requires
            tree_draw_fits(*self, x, y, text_h, minus_w, plus_w),
        ensures
            cmds(r@) == tree_ops(*self, *theme, x, y, w, text_h, minus_w, plus_w),
    {
        let rows = self.visible_nodes();
        let lasts = last_at_depth(&rows);
        let ghost fr = flat(self.roots_spec(), 0);
        let ghost depths = fr.map_values(|r: (usize, NodeModel, nat)| r.2 as usize);
        let ghost rd = rows@.map_values(|t: (usize, &TreeNode, usize)| t.2);
        assert(rd =~= depths) by {
            assert forall|k: int| 0 <= k < rows@.len() implies #[trigger] rd[k] == depths[k] by {
                assert(row_view(rows@[k]) == fr[k]);
            }
        }
        let fs = theme.font_size_md;
        let row_h: u32 = if text_h > TREE_ROW_HEIGHT {
            text_h
        } else {
            TREE_ROW_HEIGHT
        };
        assert(center_in_range(row_h, text_h));
        let toff = center(row_h, text_h);
        assert(0 <= toff <= row_h);
        let text_color = if self.disabled {
            theme.text_disabled
        } else {
            theme.text_primary
        };
        let n = rows.len();
        let mut out: Vec<DrawOp> = Vec::new();
        let mut k: usize = 0;
        while k < n
            invariant
                n == rows@.len(),
                n == fr.len(),
                fr == flat(self.roots_spec(), 0),
                rows@.map_values(|t: (usize, &TreeNode, usize)| row_view(t)) == fr,
                depths == fr.map_values(|r: (usize, NodeModel, nat)| r.2 as usize),
                lasts@.len() == n,
                forall|j: int| 0 <= j < n ==> #[trigger] lasts@[j] == closes_group(depths, j),
                k <= n,
                tree_draw_fits(*self, x, y, text_h, minus_w, plus_w),
                fs == theme.font_size_md,
                row_h == tree_row_height(text_h),
                toff == center_spec(row_h, text_h),
                0 <= toff <= row_h,
                text_color == (if self.disabled {
                    theme.text_disabled
                } else {
                    theme.text_primary
                }),
                cmds(out@) == tree_rows_ops(*self, *theme, x, y, w, text_h, minus_w, plus_w, k as nat),
            decreases n - k,
        {
            proof {
                lemma_tree_row(n as int, row_h as int, k as int);
                assert(row_view(rows@[k as int]) == fr[k as int]);
            }
            let (id, node, depth) = rows[k];
            proof {
                lemma_view_index(node.children@);
            }
            let row_y = y + (k as i32) * (row_h as i32);
            let indent_w = self.indent_width as i32;
            assert(indent_fits(*self, x, fr[k as int].2));
            assert(fr[k as int].2 == depth);
            proof {
                if depth > 0 {
                    lemma_indent(depth as int, self.indent_width as int);
                }
                assert(0 <= depth as int * self.indent_width) by (nonlinear_arith)
                    requires
                        depth >= 0,
                        self.indent_width >= 0,
                ;
            }
            let indent = (depth as i32) * indent_w;
            let ty = row_y + toff;
            let mut ops: Vec<DrawOp> = Vec::new();
            if node.selected && !self.disabled {
                ops.push(DrawOp::FillRect { x, y: row_y, w, h: row_h, color: theme.accent_subtle });
            }
            let focused = match self.focused_id {
                Some(f) => f == id,
                None => false,
            };
            if focused && !self.disabled {
                ops.push(DrawOp::StrokeRect { x, y: row_y, w, h: row_h, width: 1, color: theme.border_subtle });
            }
            if self.show_lines && depth > 0 {
                let ix = x + (depth as i32 - 1) * indent_w + indent_w / 2;
                let mid = row_y + (row_h / 2) as i32;
                ops.push(
                    DrawOp::Line {
                        x1: ix,
                        y1: mid,
                        x2: ix + indent_w / 2,
                        y2: mid,
                        width: 1,
                        color: theme.border_subtle,
                    },
                );
                let vert_end = if lasts[k] {
                    mid
                } else {
                    row_y + row_h as i32
                };
                ops.push(
                    DrawOp::Line { x1: ix, y1: row_y, x2: ix, y2: vert_end, width: 1, color: theme.border_subtle },
                );
            }
            if node.has_children() {
                let mut ind = String::new();
                let ind_w = if node.expanded {
                    push_char(&mut ind, '-');
                    minus_w
                } else {
                    push_char(&mut ind, '+');
                    plus_w
                };
                assert(center_in_range(TREE_INDICATOR_WIDTH, ind_w));
                ops.push(
                    DrawOp::Text {
                        text: ind,
                        x: x + indent + center(TREE_INDICATOR_WIDTH, ind_w),
                        y: ty,
                        font_size: fs,
                        color: if self.disabled {
                            theme.text_disabled
                        } else {
                            theme.text_secondary
                        },
                    },
                );
            }
            ops.push(
                DrawOp::Text {
                    text: node.label.clone(),
                    x: x + indent + TREE_INDICATOR_WIDTH as i32 + 6,
                    y: ty,
                    font_size: fs,
                    color: text_color,
                },
            );
            assert(cmds(ops@) =~= tree_row_ops(*self, *theme, x, y, w, text_h, minus_w, plus_w, k as int));
            proof {
                lemma_cmds_add(out@, ops@);
            }
            out.append(&mut ops);
            k = k + 1;
        }
        out
    }

    /// The visible rows, top to bottom: each node's identifier, the node and
    /// its depth.
    pub fn visible_nodes(&self) -> (r: Vec<(usize, &TreeNode, usize)>)
        requires
            height(self.roots_spec()) <= usize::MAX,
        ensures
            r@.map_values(|t: (usize, &TreeNode, usize)| row_view(t)) == flat(self.roots_spec(), 0),
    {
        let mut out: Vec<(usize, &TreeNode, usize)> = Vec::new();
        collect_visible(&self.roots, 0, &mut out);
        proof {
            assert(Seq::<(usize, &TreeNode, usize)>::empty().map_values(
                |t: (usize, &TreeNode, usize)| row_view(t),
            ) + flat(forest_view(self.roots@), 0) =~= flat(forest_view(self.roots@), 0));
        }
        out
    }

    /// Position of `fid` among the visible rows.
    fn position_of(visible: &Vec<(usize, &TreeNode, usize)>, fid: usize) -> (r: Option<usize>)
        ensures
            match r {
                Some(pos) => pos < visible@.len() && least_in(
                    |k: int| visible@.map_values(|t: (usize, &TreeNode, usize)| t.0)[k] == fid,
                    0,
                    visible@.len() - 1,
                ) == Some(pos as int),
                None => least_in(
                    |k: int| visible@.map_values(|t: (usize, &TreeNode, usize)| t.0)[k] == fid,
                    0,
                    visible@.len() - 1,
                ) is None,
            },
    {
        let ghost ids = visible@.map_values(|t: (usize, &TreeNode, usize)| t.0);
        let ghost p = |k: int| ids[k] == fid;
        let mut k: usize = 0;
        while k < visible.len()
            invariant
                0 <= k <= visible@.len(),
                ids == visible@.map_values(|t: (usize, &TreeNode, usize)| t.0),
                p == (|k: int| ids[k] == fid),
                forall|j: int| 0 <= j < k ==> !#[trigger] p(j),
            decreases visible@.len() - k,
        {
            if visible[k].0 == fid {
                proof {
                    lemma_least_in_is(p, 0, visible@.len() - 1, k as int);
                }
                return Some(k);
            }
            k = k + 1;
        }
        proof {
            lemma_least_in_none(p, 0, visible@.len() - 1);
        }
        None
    }

    /// The focus after moving one visible row up (`up`) or down.
    #[verifier::spinoff_prover]
    #[verifier::rlimit(30)]
    fn moved_focus(visible: &Vec<(usize, &TreeNode, usize)>, focused: Option<usize>, up: bool) -> (r:
        Option<usize>)
        ensures
            r == (if up {
                focus_up(visible@.map_values(|t: (usize, &TreeNode, usize)| t.0), focused)
            } else {
                focus_down(visible@.map_values(|t: (usize, &TreeNode, usize)| t.0), focused)
            }),
    {
        if visible.len() == 0 {
            return focused;
        }
        match focused {
            Some(fid) => {
                match Self::position_of(visible, fid) {
                    Some(pos) => if up {
                        if pos > 0 {
                            Some(visible[pos - 1].0)
                        } else {
                            focused
                        }
                    } else {
                        if pos + 1 < visible.len() {
                            Some(visible[pos + 1].0)
                        } else {
                            focused
                        }
                    },
                    None => focused,
                }
            },
            None => Some(visible[0].0),
        }
    }

    /// Move the focus to the previous visible row (to the first row when
    /// nothing is focused).
    pub fn navigate_up(&mut self)
        requires
            height(old(self).roots_spec()) <= usize::MAX,
        ensures
            final(self).roots_spec() == old(self).roots_spec(),
            final(self).focused_spec() == focus_up(
                visible_ids(old(self).roots_spec()),
                old(self).focused_spec(),
            ),
            final(self).next_id_spec() == old(self).next_id_spec(),
            final(self).settings_spec() == old(self).settings_spec(),
    {
        let new_focus = {
            let visible = self.visible_nodes();
            proof {
                lemma_row_ids(visible@, forest_view(self.roots@));
            }
            Self::moved_focus(&visible, self.focused_id, true)
        };
        self.focused_id = new_focus;
    }

    /// Move the focus to the next visible row (to the first row when nothing
    /// is focused).
    pub fn navigate_down(&mut self)
        requires
            height(old(self).roots_spec()) <= usize::MAX,
        ensures
            final(self).roots_spec() == old(self).roots_spec(),
            final(self).focused_spec() == focus_down(
                visible_ids(old(self).roots_spec()),
                old(self).focused_spec(),
            ),
            final(self).next_id_spec() == old(self).next_id_spec(),
            final(self).settings_spec() == old(self).settings_spec(),
    {
        let new_focus = {
            let visible = self.visible_nodes();
            proof {
                lemma_row_ids(visible@, forest_view(self.roots@));
            }
            Self::moved_focus(&visible, self.focused_id, false)
        };
        self.focused_id = new_focus;
    }

    /// On the focused node: expand it when collapsed, or move the focus to
    /// its first child when already expanded (leaves are unchanged).
    pub fn navigate_into(&mut self)
        ensures
            final(self).next_id_spec() == old(self).next_id_spec(),
            final(self).settings_spec() == old(self).settings_spec(),
            match old(self).focused_spec() {
                Some(fid) => match find_spec(old(self).roots_spec(), fid) {
                    Some(n) => if n.children.len() > 0 && n.expanded {
                        final(self).roots_spec() == old(self).roots_spec() && final(self).focused_spec()
                            == Some(n.children[0].id)
                    } else if n.children.len() > 0 {
                        changed_first(
                            old(self).roots_spec(),
                            final(self).roots_spec(),
                            fid,
                            set_expanded(true),
                        ) && final(self).focused_spec() == old(self).focused_spec()
                    } else {
                        changed_first(old(self).roots_spec(), final(self).roots_spec(), fid, toggled())
                            && final(self).focused_spec() == old(self).focused_spec()
                    },
                    None => final(self).roots_spec() == old(self).roots_spec()
                        && final(self).focused_spec() == old(self).focused_spec(),
                },
                None => final(self).roots_spec() == old(self).roots_spec()
                    && final(self).focused_spec() == old(self).focused_spec(),
            },
    {
        let fid = match self.focused_id {
            Some(f) => f,
            None => {
                return;
            },
        };
        let mut first: usize = 0;
        let action: u8 = match find_node(&self.roots, fid) {
            Some(node) => {
                proof {
                    lemma_view_index(node.children@);
                }
                if node.children.len() > 0 {
                    if node.expanded {
                        first = node.children[0].id;
                        0
                    } else {
                        1
                    }
                } else {
                    2
                }
            },
            None => 3,
        };
        if action == 0 {
            self.focused_id = Some(first);
        } else if action == 1 {
            self.apply_first(fid, 0, true);
        } else if action == 2 {
            self.toggle(fid);
        }
    }

    /// On the focused node: collapse it when expanded, or move the focus to
    /// its parent.
    pub fn navigate_out(&mut self)
        ensures
            final(self).next_id_spec() == old(self).next_id_spec(),
            final(self).settings_spec() == old(self).settings_spec(),
            match old(self).focused_spec() {
                Some(fid) => match find_spec(old(self).roots_spec(), fid) {
                    Some(n) => if n.expanded && n.children.len() > 0 {
                        changed_first(
                            old(self).roots_spec(),
                            final(self).roots_spec(),
                            fid,
                            set_expanded(false),
                        ) && final(self).focused_spec() == old(self).focused_spec()
                    } else {
                        final(self).roots_spec() == old(self).roots_spec() && final(self).focused_spec()
                            == match parent_spec(old(self).roots_spec(), fid) {
                            Some(p) => Some(p),
                            None => old(self).focused_spec(),
                        }
                    },
                    None => final(self).roots_spec() == old(self).roots_spec()
                        && final(self).focused_spec() == old(self).focused_spec(),
                },
                None => final(self).roots_spec() == old(self).roots_spec()
                    && final(self).focused_spec() == old(self).focused_spec(),
            },
    {
        let fid = match self.focused_id {
            Some(f) => f,
            None => {
                return;
            },
        };
        let collapse_it: u8 = match find_node(&self.roots, fid) {
            Some(node) => {
                proof {
                    lemma_view_index(node.children@);
                }
                if node.expanded && node.children.len() > 0 {
                    1
                } else {
                    0
                }
            },
            None => 2,
        };
        if collapse_it == 1 {
            self.apply_first(fid, 0, false);
        } else if collapse_it == 0 {
            match find_parent_id(&self.roots, fid) {
                Some(pid) => {
                    self.focused_id = Some(pid);
                },
                None => {},
            }
        }
    }
}

impl Default for TreeView {
    fn default() -> (r: Self)
        ensures
            r.roots_spec().len() == 0,
            r.focused_spec().is_none(),
            r.next_id_spec() == 0,
            r.settings_spec() == (16u16, false, false),
    {
        TreeView::new()
    }
}

} // verus!
