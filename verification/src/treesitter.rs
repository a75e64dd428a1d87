//! The syntax tree model and cursor-to-node resolution.
//!
//! A tree is an arena of nodes; each node carries its grammar tag, its byte
//! span into the source text, its (row, column) span, and the ids of its
//! children. The resolver descends from the root, at each level taking the
//! first child whose span contains the point, and stops at the deepest node
//! that still contains it.

use vstd::prelude::*;
use vstd::slice::{slice_subrange, slice_to_vec};
use vstd::string::StringSliceAdditionalSpecFns;

verus! {

/// A zero-based (row, column) position, the editor protocol's convention.
#[derive(Clone, Copy, PartialEq, Eq)]
pub struct Point {
    pub row: u32,
    pub column: u32,
}

pub open spec fn point_le(a: Point, b: Point) -> bool {
    a.row < b.row || (a.row == b.row && a.column <= b.column)
}

pub open spec fn point_lt(a: Point, b: Point) -> bool {
    a.row < b.row || (a.row == b.row && a.column < b.column)
}

/// One syntax node: grammar tag, half-open byte span, half-open point span,
/// and the ids of its children in document order.
#[derive(Clone)]
pub struct NodeData {
    pub kind: String,
    pub start_byte: usize,
    pub end_byte: usize,
    pub start_point: Point,
    pub end_point: Point,
    pub children: Vec<usize>,
}

/// A whole tree. The node at id 0 is the root; every child id is strictly
/// greater than its parent's id, so descent always terminates.
#[derive(Clone)]
pub struct SyntaxTree {
    pub nodes: Vec<NodeData>,
}

impl NodeData {
    /// The node's span contains the point: start inclusive, end exclusive.
    pub open spec fn spec_contains(self, p: Point) -> bool {
        point_le(self.start_point, p) && point_lt(p, self.end_point)
    }
}

impl SyntaxTree {
    /// Every child id of node `i` points past `i` and into the arena.
    pub open spec fn wf_node(self, i: int) -> bool {
        forall|j: int|
            0 <= j < self.nodes@[i].children@.len() ==> i < #[trigger] self.nodes@[i].children@[j]
                < self.nodes@.len()
    }

    /// The arena is non-empty and every node's children are well-formed.
    pub open spec fn wf(self) -> bool {
        &&& self.nodes@.len() >= 1
        &&& forall|i: int| 0 <= i < self.nodes@.len() ==> #[trigger] self.wf_node(i)
    }

    /// Every node's byte span is ordered and ends within `limit` bytes.
    pub open spec fn byte_spans_bounded(self, limit: nat) -> bool {
        forall|i: int|
            0 <= i < self.nodes@.len() ==> (#[trigger] self.nodes@[i].start_byte)
                <= self.nodes@[i].end_byte && self.nodes@[i].end_byte <= limit
    }

    pub open spec fn root(self) -> NodeData {
        self.nodes@[0]
    }
}

/// The first id among `cs` whose node contains `p`, scanning in order.
pub open spec fn first_containing(tree: SyntaxTree, cs: Seq<usize>, p: Point) -> Option<usize>
    decreases cs.len(),
{
    if cs.len() == 0 {
        None
    } else if tree.nodes@[cs[0] as int].spec_contains(p) {
        Some(cs[0])
    } else {
        first_containing(tree, cs.drop_first(), p)
    }
}

proof fn lemma_first_containing_some(tree: SyntaxTree, cs: Seq<usize>, p: Point, c: usize)
    requires
        first_containing(tree, cs, p) == Some(c),
    ensures
        cs.contains(c),
        tree.nodes@[c as int].spec_contains(p),
    decreases cs.len(),
{
    if cs.len() > 0 {
        if tree.nodes@[cs[0] as int].spec_contains(p) {
            assert(cs[0] == c);
        } else {
            lemma_first_containing_some(tree, cs.drop_first(), p, c);
            assert(cs.drop_first().contains(c));
            let j = choose|j: int| 0 <= j < cs.drop_first().len() && cs.drop_first()[j] == c;
            assert(cs[j + 1] == c);
        }
    }
}

proof fn lemma_first_containing_none(tree: SyntaxTree, cs: Seq<usize>, p: Point)
    requires
        first_containing(tree, cs, p) == None::<usize>,
    ensures
        forall|j: int| 0 <= j < cs.len() ==> !tree.nodes@[#[trigger] cs[j] as int].spec_contains(p),
    decreases cs.len(),
{
    if cs.len() > 0 {
        lemma_first_containing_none(tree, cs.drop_first(), p);
        assert forall|j: int| 0 <= j < cs.len() implies !tree.nodes@[#[trigger] cs[j] as int]
            .spec_contains(p) by {
            if j > 0 {
                assert(cs.drop_first()[j - 1] == cs[j]);
            }
        }
    }
}

/// The id of the deepest node reached by descending from node `i`, taking at
/// each level the first child whose span contains `p`.
pub open spec fn resolve_from(tree: SyntaxTree, i: int, p: Point) -> int
    decreases tree.nodes@.len() - i,
    when tree.wf() && 0 <= i < tree.nodes@.len()
    via resolve_from_decreases
{
    match first_containing(tree, tree.nodes@[i].children@, p) {
        None => i,
        Some(c) => resolve_from(tree, c as int, p),
    }
}

#[via_fn]
proof fn resolve_from_decreases(tree: SyntaxTree, i: int, p: Point) {
    match first_containing(tree, tree.nodes@[i].children@, p) {
        None => {},
        Some(c) => {
            lemma_first_containing_some(tree, tree.nodes@[i].children@, p, c);
            assert(tree.wf_node(i));
        },
    }
}

/// What resolution yields for a point: the deepest first-match node id when
/// the root's span contains the point, and nothing at all otherwise.
pub open spec fn spec_resolve(tree: SyntaxTree, p: Point) -> Option<int> {
    if tree.root().spec_contains(p) {
        Some(resolve_from(tree, 0, p))
    } else {
        None
    }
}

/// A position outside the document root's span resolves to no node: callers
/// treat this as "no completion context available", never as an error.
pub proof fn lemma_outside_root_resolves_nothing(tree: SyntaxTree, p: Point)
    requires
        !tree.root().spec_contains(p),
    ensures
        spec_resolve(tree, p) is None,
{
}

/// Resolution reads the finished tree alone: two equal trees — however they
/// were produced, by an incremental re-parse or by a parse from scratch —
/// resolve every position to the same node.
pub proof fn lemma_resolution_reads_tree_only(t1: SyntaxTree, t2: SyntaxTree, p: Point)
    requires
        t1 == t2,
    ensures
        spec_resolve(t1, p) == spec_resolve(t2, p),
{
}

/// Whether the node's span contains the point.
pub fn node_contains(n: &NodeData, p: Point) -> (b: bool)
    ensures
        b == n.spec_contains(p),
{
    let after_start = n.start_point.row < p.row || (n.start_point.row == p.row
        && n.start_point.column <= p.column);
    let before_end = p.row < n.end_point.row || (p.row == n.end_point.row && p.column
        < n.end_point.column);
    after_start && before_end
}

/// Resolves a cursor position to the id of the smallest node covering it:
/// the resolver descends from the root, taking at each level the first child
/// whose span contains the point. A position outside the root's span yields
/// `None` — no completion context, not an error.
pub fn get_node_from_cursor_position(ast: &SyntaxTree, line: u32, character: u32) -> (r: Option<
    usize,
>)
    requires
        ast.wf(),
    ensures
        ({
            let p = Point { row: line, column: character };
            match r {
                None => spec_resolve(*ast, p) is None,
                Some(id) => {
                    &&& spec_resolve(*ast, p) == Some(id as int)
                    &&& ast.root().spec_contains(p)
                    &&& id < ast.nodes@.len()
                    &&& id as int == resolve_from(*ast, 0, p)
                    &&& ast.nodes@[id as int].spec_contains(p)
                    &&& forall|j: int|
                        0 <= j < ast.nodes@[id as int].children@.len()
                            ==> !ast.nodes@[#[trigger] ast.nodes@[id as int].children@[j] as int]
                            .spec_contains(p)
                },
            }
        }),
{
    let p = Point { row: line, column: character };
    if !node_contains(&ast.nodes[0], p) {
        return None;
    }
    let mut cur: usize = 0;
    loop
        invariant
            ast.wf(),
            p == (Point { row: line, column: character }),
            cur < ast.nodes@.len(),
            ast.nodes@[cur as int].spec_contains(p),
            resolve_from(*ast, 0, p) == resolve_from(*ast, cur as int, p),
            ast.root().spec_contains(p),
        decreases ast.nodes@.len() - cur,
    {
        match first_child_containing(ast, cur, p) {
            None => {
                proof {
                    lemma_first_containing_none(*ast, ast.nodes@[cur as int].children@, p);
                    assert(resolve_from(*ast, cur as int, p) == cur as int);
                    assert(ast.nodes@[cur as int].spec_contains(p));
                    assert(forall|j: int|
                        0 <= j < ast.nodes@[cur as int].children@.len() ==> !ast.nodes@[#[trigger] ast.nodes@[cur as int].children@[j] as int].spec_contains(p));
                }
                return Some(cur);
            },
            Some(c) => {
                proof {
                    lemma_first_containing_some(*ast, ast.nodes@[cur as int].children@, p, c);
                    assert(ast.wf_node(cur as int));
                    let cs = ast.nodes@[cur as int].children@;
                    let j = choose|j: int| 0 <= j < cs.len() && cs[j] == c;
                    assert(cur < cs[j] < ast.nodes@.len());
                }
                cur = c;
            },
        }
    }
}

/// The first child of node `cur` whose span contains `p`, in document order.
fn first_child_containing(ast: &SyntaxTree, cur: usize, p: Point) -> (r: Option<usize>)
    requires
        ast.wf(),
        cur < ast.nodes@.len(),
    ensures
        r == first_containing(*ast, ast.nodes@[cur as int].children@, p),
{
    let node = &ast.nodes[cur];
    let n_children = node.children.len();
    let mut j: usize = 0;
    proof {
        assert(node.children@.skip(0) =~= node.children@);
    }
    while j < n_children
        invariant
            ast.wf(),
            cur < ast.nodes@.len(),
            node == ast.nodes@[cur as int],
            n_children == node.children@.len(),
            j <= n_children,
            first_containing(*ast, node.children@, p) == first_containing(
                *ast,
                node.children@.skip(j as int),
                p,
            ),
        decreases n_children - j,
    {
        let c = node.children[j];
        proof {
            assert(ast.wf_node(cur as int));
            assert(cur < node.children@[j as int] < ast.nodes@.len());
            assert(node.children@.skip(j as int)[0] == node.children@[j as int]);
        }
        if node_contains(&ast.nodes[c], p) {
            return Some(c);
        }
        proof {
            assert(node.children@.skip(j as int).drop_first() =~= node.children@.skip(
                j as int + 1,
            ));
        }
        j = j + 1;
    }
    proof {
        assert(node.children@.skip(j as int) =~= Seq::<usize>::empty());
    }
    None
}

/// Checks that a tree is well-formed and that every node's byte span lies
/// within a source text of `limit` bytes. Trees arrive from the grammar
/// engine unchecked; every tree passes this test before entering the store.
pub fn check_tree(tree: &SyntaxTree, limit: usize) -> (b: bool)
    ensures
        b == (tree.wf() && tree.byte_spans_bounded(limit as nat)),
{
    let n = tree.nodes.len();
    if n == 0 {
        return false;
    }
    let mut i: usize = 0;
    while i < n
        invariant
            n == tree.nodes@.len(),
            1 <= n,
            i <= n,
            forall|k: int| 0 <= k < i ==> #[trigger] tree.wf_node(k),
            forall|k: int|
                0 <= k < i ==> (#[trigger] tree.nodes@[k].start_byte) <= tree.nodes@[k].end_byte
                    && tree.nodes@[k].end_byte <= limit,
        decreases n - i,
    {
        let node = &tree.nodes[i];
        if !(node.start_byte <= node.end_byte && node.end_byte <= limit) {
            proof {
                assert(!tree.byte_spans_bounded(limit as nat));
            }
            return false;
        }
        let m = node.children.len();
        let mut j: usize = 0;
        while j < m
            invariant
                n == tree.nodes@.len(),
                i < n,
                node == tree.nodes@[i as int],
                m == node.children@.len(),
                j <= m,
                forall|l: int|
                    0 <= l < j ==> i < #[trigger] node.children@[l] < n,
            decreases m - j,
        {
            let c = node.children[j];
            if !(i < c && c < n) {
                proof {
                    assert(node.children@[j as int] == c);
                    assert(!tree.wf_node(i as int));
                }
                return false;
            }
            j = j + 1;
        }
        proof {
            assert(tree.wf_node(i as int));
        }
        i = i + 1;
    }
    true
}

/// The exact source bytes spanned by a node.
pub fn node_text(source: &str, node: &NodeData) -> (r: Vec<u8>)
    requires
        node.start_byte <= node.end_byte,
        node.end_byte <= source.spec_bytes().len(),
    ensures
        r@ == source.spec_bytes().subrange(node.start_byte as int, node.end_byte as int),
{
    let bytes = source.as_bytes();
    let sub = slice_subrange(bytes, node.start_byte, node.end_byte);
    slice_to_vec(sub)
}

} // verus!
