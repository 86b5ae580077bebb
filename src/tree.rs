//! Read-only view over a parsed syntax tree, and the enter/leave traversal
//! that drives validation rules over it.
use vstd::prelude::*;
use crate::visitor::texts;
use vstd::string::StringSliceAdditionalSpecFns;

verus! {

#[verifier::external_type_specification]
#[verifier::external_body]
pub struct ExNode<'a>(tree_sitter::Node<'a>);

/// One node of a syntax tree, as plain values.
pub struct SyntaxNode {
    /// The grammar's label for the node; `ERROR` marks input the parser
    /// could not recognise.
    pub kind: String,
    /// Byte range in the parsed text.
    pub start: usize,
    pub end: usize,
    pub child_count: usize,
    /// Kinds of the direct children, in order.
    pub child_kinds: Vec<String>,
    /// Field name of each direct child, in the same order, where it has one.
    pub child_fields: Vec<Option<String>>,
    /// Text of the child under the field `function`, where there is one.
    pub callee: Option<String>,
    /// Index of the parent in the node list; the root has none.
    pub parent: Option<usize>,
}

/// A node as the rules see it: its kind, byte range, child count, the kinds
/// of its children and the text of its `function` child.
pub struct NodeData {
    pub kind: Seq<char>,
    pub start: usize,
    pub end: usize,
    pub child_count: usize,
    pub child_kinds: Seq<Seq<char>>,
    pub child_fields: Seq<Option<Seq<char>>>,
    pub callee: Option<Seq<char>>,
}

/// The text of each field name that is there.
pub open spec fn field_texts(v: Seq<Option<String>>) -> Seq<Option<Seq<char>>> {
    v.map_values(
        |f: Option<String>|
            match f {
                Some(c) => Some(c@),
                None => None,
            },
    )
}

impl View for SyntaxNode {
    type V = NodeData;

    open spec fn view(&self) -> NodeData {
        NodeData {
            kind: self.kind@,
            start: self.start,
            end: self.end,
            child_count: self.child_count,
            child_kinds: texts(self.child_kinds@),
            child_fields: field_texts(self.child_fields@),
            callee: match self.callee {
                Some(c) => Some(c@),
                None => None,
            },
        }
    }
}

/// The node is a parse error, or a token the parser had to invent (its text
/// is empty).
pub open spec fn corrupt(node: NodeData) -> bool {
    node.kind == error_kind() || node.start == node.end
}

/// What the rules see of each node of a list.
pub open spec fn views(nodes: Seq<SyntaxNode>) -> Seq<NodeData> {
    nodes.map_values(|n: SyntaxNode| n@)
}

impl SyntaxNode {
    pub open spec fn spec_corrupt(&self) -> bool {
        corrupt(self@)
    }

    pub fn is_corrupt(&self) -> (r: bool)
        ensures
            r == self.spec_corrupt(),
    {
        proof {
            reveal_strlit("ERROR");
        }
        let error = String::from_str("ERROR");
        assert(error@ == error_kind());
        self.kind == error || self.start == self.end
    }
}

pub open spec fn error_kind() -> Seq<char> {
    seq!['E', 'R', 'R', 'O', 'R']
}

/// A validation rule: called on entering each node, before its descendants,
/// and on leaving it, after all of them. Its view is the state that the
/// traversal's outcome is stated over.
pub trait Rule: View + Sized {
    /// What the rule keeps true of its own state.
    spec fn inv(&self) -> bool;

    /// The view after entering a node, and whether to visit its descendants.
    spec fn entered(state: Self::V, node: NodeData) -> (Self::V, bool);

    /// The view after leaving a node.
    spec fn left(state: Self::V, node: NodeData) -> Self::V;

    fn enter(&mut self, node: &SyntaxNode) -> (r: bool)
        requires
            old(self).inv(),
            node.start <= node.end,
        ensures
            final(self).inv(),
            (final(self)@, r) == Self::entered(old(self)@, node@),
    ;

    fn leave(&mut self, node: &SyntaxNode)
        requires
            old(self).inv(),
            node.start <= node.end,
        ensures
            final(self).inv(),
            final(self)@ == Self::left(old(self)@, node@),
    ;
}

/// An open node during the walk: its index, how many of its children are
/// not finished yet, and whether nodes were being visited above it.
pub type Frame = (usize, usize, bool);

/// Closes every open node whose children are all finished, innermost first:
/// each is left if visiting is on, and its parent has one child fewer to wait for.
pub open spec fn close<R: Rule>(nodes: Seq<NodeData>, state: R::V, stack: Seq<Frame>, visiting: bool) -> (
    R::V,
    Seq<Frame>,
    bool,
)
    decreases stack.len(),
{
    if stack.len() > 0 && stack.last().1 == 0 {
        let top = stack.last();
        let state2 = if visiting {
            R::left(state, nodes[top.0 as int])
        } else {
            state
        };
        let rest = stack.drop_last();
        let rest2 = if rest.len() > 0 {
            rest.update(rest.len() - 1, (rest.last().0, (rest.last().1 - 1) as usize, rest.last().2))
        } else {
            rest
        };
        close::<R>(nodes, state2, rest2, top.2)
    } else {
        (state, stack, visiting)
    }
}

/// The walk from node `i` on: open the node, enter it if visiting is on
/// (visiting stays on below it only if `enter` says so), then close what is done.
pub open spec fn walk<R: Rule>(nodes: Seq<NodeData>, i: int, state: R::V, stack: Seq<Frame>, visiting: bool) -> R::V
    decreases nodes.len() - i,
{
    if i < 0 || i >= nodes.len() {
        state
    } else {
        let stack1 = stack.push((i as usize, nodes[i].child_count, visiting));
        let (state1, visiting1) = if visiting {
            R::entered(state, nodes[i])
        } else {
            (state, false)
        };
        let (state2, stack2, visiting2) = close::<R>(nodes, state1, stack1, visiting1);
        walk::<R>(nodes, i + 1, state2, stack2, visiting2)
    }
}

/// The view of a rule after a walk over the whole node list.
pub open spec fn walked<R: Rule>(nodes: Seq<NodeData>, state: R::V) -> R::V {
    walk::<R>(nodes, 0, state, Seq::empty(), true)
}

/// Walks the nodes, given in pre-order with their child counts: `enter` on
/// each node reached, `leave` once all its children are done. A subtree whose
/// root's `enter` returned false is neither entered nor left below the root,
/// and the root itself is not left.
pub fn apply<R: Rule>(nodes: &Vec<SyntaxNode>, rule: &mut R)
    requires
        old(rule).inv(),
        forall|j: int| 0 <= j < nodes@.len() ==> #[trigger] nodes@[j].start <= nodes@[j].end,
    ensures
        final(rule).inv(),
        final(rule)@ == walked::<R>(views(nodes@), old(rule)@),
{
    let mut visiting = true;
    // open nodes: index, children still to finish, whether visiting was on above it
    let mut stack: Vec<Frame> = Vec::new();
    let mut i: usize = 0;
    while i < nodes.len()
        invariant
            rule.inv(),
            i <= nodes.len(),
            forall|j: int| 0 <= j < nodes@.len() ==> #[trigger] nodes@[j].start <= nodes@[j].end,
            forall|j: int| 0 <= j < stack@.len() ==> stack@[j].0 < nodes.len() && stack@[j].1 >= 1,
            walk::<R>(views(nodes@), i as int, rule@, stack@, visiting) == walked::<R>(
                views(nodes@),
                old(rule)@,
            ),
        decreases nodes.len() - i,
    {
        let node = &nodes[i];
        let ghost target = walk::<R>(views(nodes@), i as int, rule@, stack@, visiting);
        stack.push((i, node.child_count, visiting));
        if visiting {
            visiting = rule.enter(node);
        }
        let ghost goal = close::<R>(views(nodes@), rule@, stack@, visiting);
        assert(views(nodes@)[i as int] == nodes@[i as int]@);
        assert(walk::<R>(views(nodes@), i as int + 1, goal.0, goal.1, goal.2) == target);
        // close every node whose children are all done
        while stack.len() > 0 && stack[stack.len() - 1].1 == 0
            invariant
                rule.inv(),
                forall|j: int| 0 <= j < nodes@.len() ==> #[trigger] nodes@[j].start <= nodes@[j].end,
                forall|j: int|
                    0 <= j < stack@.len() ==> stack@[j].0 < nodes.len() && (j < stack@.len() - 1
                        ==> stack@[j].1 >= 1),
                close::<R>(views(nodes@), rule@, stack@, visiting) == goal,
            decreases stack.len(),
        {
            let ghost before = stack@;
            let (idx, _, above) = stack.pop().unwrap();
            assert(views(nodes@)[idx as int] == nodes@[idx as int]@);
            if visiting {
                rule.leave(&nodes[idx]);
            }
            visiting = above;
            let top = stack.len();
            if top > 0 {
                let (pidx, remaining, pabove) = stack[top - 1];
                stack.set(top - 1, (pidx, remaining - 1, pabove));
            }
            assert(stack@ =~= if before.drop_last().len() > 0 {
                before.drop_last().update(
                    before.drop_last().len() - 1,
                    (before.drop_last().last().0, (before.drop_last().last().1 - 1) as usize, before.drop_last().last().2),
                )
            } else {
                before.drop_last()
            });
        }
        i = i + 1;
    }
}

/// Relies on tree_sitter::Node::kind.
#[verifier::external_body]
fn node_kind(node: &tree_sitter::Node) -> String {
    node.kind().to_string()
}

/// Relies on tree_sitter::Node::start_byte.
#[verifier::external_body]
fn node_start(node: &tree_sitter::Node) -> usize {
    node.start_byte()
}

/// Relies on tree_sitter::Node::end_byte.
#[verifier::external_body]
fn node_end(node: &tree_sitter::Node) -> usize {
    node.end_byte()
}

/// Relies on tree_sitter::Node::child_count.
#[verifier::external_body]
fn node_child_count(node: &tree_sitter::Node) -> usize {
    node.child_count()
}

/// Relies on tree_sitter::Node::child: the child at an index, if any.
#[verifier::external_body]
fn node_child<'a>(node: &tree_sitter::Node<'a>, i: usize) -> Option<tree_sitter::Node<'a>> {
    node.child(i)
}

/// Relies on tree_sitter::Node::field_name_for_child: the field name of the
/// child at an index, if it has one.
#[verifier::external_body]
fn node_child_field(node: &tree_sitter::Node, i: usize) -> Option<String> {
    node.field_name_for_child(i as u32).map(String::from)
}

/// Relies on tree_sitter::Node::child_by_field_name: the first child under
/// the field, if any.
#[verifier::external_body]
fn node_field_child<'a>(node: &tree_sitter::Node<'a>, field: &str) -> Option<
    tree_sitter::Node<'a>,
> {
    node.child_by_field_name(field)
}

fn syntax_node(node: &tree_sitter::Node, text: &str) -> (r: SyntaxNode)
    ensures
        r.start <= r.end,
{
    let count = node_child_count(node);
    let mut child_kinds: Vec<String> = Vec::new();
    let mut child_fields: Vec<Option<String>> = Vec::new();
    let mut i: usize = 0;
    while i < count
        invariant
            child_kinds@.len() <= i <= count,
        decreases count - i,
    {
        if let Some(child) = node_child(node, i) {
            child_kinds.push(node_kind(&child));
            child_fields.push(node_child_field(node, i));
        }
        i = i + 1;
    }
    let callee = match node_field_child(node, "function") {
        Some(f) => slice_text(text, node_start(&f), node_end(&f)),
        None => None,
    };
    let start = node_start(node);
    let end = node_end(node);
    SyntaxNode {
        kind: node_kind(node),
        start,
        // a node never ends before it starts
        end: if end < start {
            start
        } else {
            end
        },
        child_count: count,
        child_kinds,
        child_fields,
        callee,
        parent: None,
    }
}

/// Each node's parent comes before it in the list.
pub open spec fn parents_precede(nodes: Seq<SyntaxNode>) -> bool {
    forall|j: int| 0 <= j < nodes.len() ==> (#[trigger] nodes[j].parent matches Some(p) ==> p < j)
}

/// The nodes still waiting for children just before node `i` of a pre-order
/// list, innermost last: each with its index and how many children it still
/// waits for.
pub open spec fn open_before(nodes: Seq<NodeData>, i: int) -> Seq<(usize, usize)>
    decreases i,
{
    if i <= 0 {
        Seq::empty()
    } else {
        let prev = open_before(nodes, i - 1);
        let taken = if prev.len() == 0 {
            prev
        } else if prev.last().1 <= 1 {
            prev.drop_last()
        } else {
            prev.update(prev.len() - 1, (prev.last().0, (prev.last().1 - 1) as usize))
        };
        if nodes[i - 1].child_count > 0 {
            taken.push(((i - 1) as usize, nodes[i - 1].child_count))
        } else {
            taken
        }
    }
}

/// The parent of node `i` in a pre-order list: the nearest earlier node
/// still waiting for children.
pub open spec fn preorder_parent(nodes: Seq<NodeData>, i: int) -> Option<usize> {
    let open = open_before(nodes, i);
    if open.len() > 0 {
        Some(open.last().0)
    } else {
        None
    }
}

/// Sets each node's parent from the pre-order and the child counts.
pub fn link_parents(nodes: &mut Vec<SyntaxNode>)
    ensures
        views(final(nodes)@) == views(old(nodes)@),
        forall|j: int|
            0 <= j < final(nodes)@.len() ==> #[trigger] final(nodes)@[j].parent == preorder_parent(
                views(old(nodes)@),
                j,
            ),
        parents_precede(final(nodes)@),
{
    let ghost data = views(nodes@);
    let mut open: Vec<(usize, usize)> = Vec::new();
    let mut i: usize = 0;
    while i < nodes.len()
        invariant
            i <= nodes@.len() == data.len(),
            data == views(old(nodes)@),
            views(nodes@) == data,
            open@ == open_before(data, i as int),
            forall|k: int| 0 <= k < open@.len() ==> open@[k].0 < i && open@[k].1 >= 1,
            forall|j: int|
                0 <= j < i ==> #[trigger] nodes@[j].parent == preorder_parent(data, j),
            forall|j: int|
                0 <= j < i ==> (#[trigger] nodes@[j].parent matches Some(p) ==> p < j),
        decreases nodes.len() - i,
    {
        let top = open.len();
        let parent = if top > 0 {
            let (p, waiting) = open[top - 1];
            if waiting == 1 {
                open.pop();
            } else {
                open.set(top - 1, (p, waiting - 1));
            }
            Some(p)
        } else {
            None
        };
        let count = nodes[i].child_count;
        let ghost before = nodes@;
        nodes[i].parent = parent;
        proof {
            assert(views(nodes@) =~= views(before)) by {
                assert forall|j: int| 0 <= j < nodes@.len() implies #[trigger] views(nodes@)[j]
                    == views(before)[j] by {
                    assert(nodes@[j]@ == before[j]@);
                }
            }
            assert(data[i as int].child_count == count);
        }
        if count > 0 {
            open.push((i, count));
        }
        proof {
            assert(open@ =~= open_before(data, i as int + 1));
        }
        i = i + 1;
    }
}

/// The nearest ancestor, from the parent `from` upwards, whose kind is listed.
pub open spec fn nearest_listed(nodes: Seq<SyntaxNode>, from: Option<usize>, kinds: Seq<Seq<char>>) -> Option<usize>
    decreases (match from {
        Some(p) => p + 1,
        None => 0,
    }),
{
    match from {
        None => None,
        Some(p) => if p >= nodes.len() {
            None
        } else if exists|k: int| 0 <= k < kinds.len() && kinds[k] == nodes[p as int].kind@ {
            Some(p)
        } else if nodes[p as int].parent matches Some(q) && q < p {
            nearest_listed(nodes, nodes[p as int].parent, kinds)
        } else {
            None
        },
    }
}

/// The nearest ancestor of node `i` whose kind is one of `kinds`.
pub fn get_parent_of_types(nodes: &Vec<SyntaxNode>, i: usize, kinds: &Vec<String>) -> (r: Option<usize>)
    requires
        i < nodes@.len(),
        parents_precede(nodes@),
    ensures
        r == nearest_listed(nodes@, nodes@[i as int].parent, texts(kinds@)),
{
    let ghost table = texts(kinds@);
    let mut current = nodes[i].parent;
    loop
        invariant
            i < nodes@.len(),
            parents_precede(nodes@),
            nearest_listed(nodes@, current, table) == nearest_listed(nodes@, nodes@[i as int].parent, table),
            table == texts(kinds@),
        decreases (match current {
            Some(p) => p + 1,
            None => 0,
        }),
    {
        match current {
            None => return None,
            Some(p) => {
                if p >= nodes.len() {
                    return None;
                }
                let mut k: usize = 0;
                while k < kinds.len()
                    invariant
                        k <= kinds@.len(),
                        p < nodes@.len(),
                        i < nodes@.len(),
                        current == Some(p),
                        nearest_listed(nodes@, current, table) == nearest_listed(
                            nodes@,
                            nodes@[i as int].parent,
                            table,
                        ),
                        table == texts(kinds@),
                        forall|m: int| 0 <= m < k ==> table[m] != nodes@[p as int].kind@,
                    decreases kinds.len() - k,
                {
                    if kinds[k] == nodes[p].kind {
                        assert(table[k as int] == nodes@[p as int].kind@);
                        return Some(p);
                    }
                    k = k + 1;
                }
                current = nodes[p].parent;
            },
        }
    }
}

/// The grammars the library parses with.
#[derive(Clone, Copy, Debug, PartialEq, Eq, Structural)]
pub enum Grammar {
    Bash,
    Php,
    Python,
    Sql,
}

/// The nodes, in pre-order, of the syntax tree that the grammar gives the
/// text; `None` when the grammar is refused or no tree comes out.
pub uninterp spec fn parsed(grammar: Grammar, text: Seq<char>) -> Option<Seq<NodeData>>;

/// What a parse hands back, as the rules see it.
pub open spec fn parse_view(r: Option<Vec<SyntaxNode>>) -> Option<Seq<NodeData>> {
    match r {
        Some(v) => Some(views(v@)),
        None => None,
    }
}

/// Relies on tree_sitter::Parser (new, set_language, parse), the grammar
/// crates' LANGUAGE constants and tree_sitter_traversal2::traverse_tree: for
/// a grammar, the tree depends on the text alone, and the traversal lists its
/// nodes in pre-order. Each node is converted by `syntax_node`, which keeps
/// every range ordered.
#[verifier::external_body]
fn parse_tree(grammar: Grammar, text: &str) -> (r: Option<Vec<SyntaxNode>>)
    ensures
        parse_view(r) == parsed(grammar, text@),
        r matches Some(v) ==> forall|j: int| 0 <= j < v@.len() ==> #[trigger] v@[j].start <= v@[j].end,
{
    let language: tree_sitter::Language = match grammar {
        Grammar::Bash => tree_sitter_bash::LANGUAGE.into(),
        Grammar::Php => tree_sitter_php::LANGUAGE_PHP.into(),
        Grammar::Python => tree_sitter_python::LANGUAGE.into(),
        Grammar::Sql => tree_sitter_sequel::LANGUAGE.into(),
    };
    let mut parser = tree_sitter::Parser::new();
    parser.set_language(&language).ok()?;
    let tree = parser.parse(text, None)?;
    let order = tree_sitter_traversal2::Order::Pre;
    Some(tree_sitter_traversal2::traverse_tree(&tree, order).map(|n| syntax_node(&n, text)).collect())
}

/// Parses the text with the grammar and lists the nodes of the tree in
/// pre-order, each linked to its parent.
pub fn parse_nodes(grammar: Grammar, text: &str) -> (r: Option<Vec<SyntaxNode>>)
    ensures
        parse_view(r) == parsed(grammar, text@),
        r matches Some(nodes) ==> forall|j: int|
            0 <= j < nodes@.len() ==> #[trigger] nodes@[j].start <= nodes@[j].end,
        r matches Some(nodes) ==> parents_precede(nodes@),
{
    match parse_tree(grammar, text) {
        Some(mut nodes) => {
            let ghost unlinked = nodes@;
            link_parents(&mut nodes);
            proof {
                assert(views(nodes@).len() == nodes@.len());
                assert(views(unlinked).len() == unlinked.len());
                assert forall|j: int| 0 <= j < nodes@.len() implies #[trigger] nodes@[j].start
                    <= nodes@[j].end by {
                    assert(views(nodes@)[j] == nodes@[j]@);
                    assert(views(unlinked)[j] == unlinked[j]@);
                    assert(unlinked[j].start <= unlinked[j].end);
                }
            }
            Some(nodes)
        },
        None => None,
    }
}

/// Relies on str::get: the text between two byte offsets, `None` out of
/// bounds or off a character boundary. In ASCII text every offset up to the
/// length is a boundary and bytes are characters.
#[verifier::external_body]
pub(crate) fn slice_text(text: &str, start: usize, end: usize) -> (r: Option<String>)
    ensures
        vstd::string::is_ascii(text) && start <= end <= text@.len() ==> r is Some,
        r is Some ==> start <= end <= text.spec_bytes().len(),
        r matches Some(s) ==> (vstd::string::is_ascii(text) && start <= end <= text@.len() ==> s@
            == text@.subrange(start as int, end as int)),
{
    text.get(start..end).map(String::from)
}

/// The text of a node: the bytes of its range in the parsed text.
pub fn node_text(text: &str, node: &SyntaxNode) -> (r: Option<String>)
    ensures
        vstd::string::is_ascii(text) && node.start <= node.end <= text@.len() ==> (r matches Some(
            s,
        ) && s@ == text@.subrange(node.start as int, node.end as int)),
        r is Some ==> node.start <= node.end <= text.spec_bytes().len(),
{
    slice_text(text, node.start, node.end)
}

/// How many of the nodes before index `j` are children of node `i`.
pub open spec fn child_rank(nodes: Seq<SyntaxNode>, i: int, j: int) -> nat
    decreases j,
{
    if j <= 0 {
        0
    } else {
        child_rank(nodes, i, j - 1) + if nodes[j - 1].parent == Some(i as usize) {
            1nat
        } else {
            0nat
        }
    }
}

/// The child of node `i` at position `k` (from zero), as an index into the list.
pub fn child(nodes: &Vec<SyntaxNode>, i: usize, k: usize) -> (r: Option<usize>)
    ensures
        r matches Some(j) ==> j < nodes@.len() && nodes@[j as int].parent == Some(i) && child_rank(
            nodes@,
            i as int,
            j as int,
        ) == k,
        r is None ==> forall|j: int|
            0 <= j < nodes@.len() && #[trigger] nodes@[j].parent == Some(i) ==> child_rank(
                nodes@,
                i as int,
                j,
            ) != k,
{
    let mut seen: usize = 0;
    let mut j: usize = 0;
    while j < nodes.len()
        invariant
            j <= nodes@.len(),
            seen == child_rank(nodes@, i as int, j as int),
            seen <= k,
            forall|m: int|
                0 <= m < j && #[trigger] nodes@[m].parent == Some(i) ==> child_rank(
                    nodes@,
                    i as int,
                    m,
                ) < seen,
        decreases nodes.len() - j,
    {
        if nodes[j].parent == Some(i) {
            if seen == k {
                return Some(j);
            }
            seen = seen + 1;
        }
        j = j + 1;
    }
    None
}

/// The first child of node `i` under the field, as an index into the list.
pub fn field_child(nodes: &Vec<SyntaxNode>, i: usize, field: &String) -> (r: Option<usize>)
    requires
        i < nodes@.len(),
    ensures
        r matches Some(j) ==> j < nodes@.len() && nodes@[j as int].parent == Some(i) && exists|k: int|
            0 <= k < nodes@[i as int]@.child_fields.len() && #[trigger] nodes@[i as int]@.child_fields[k]
                == Some(field@) && child_rank(nodes@, i as int, j as int) == k,
{
    let fields = &nodes[i].child_fields;
    let mut k: usize = 0;
    while k < fields.len()
        invariant
            i < nodes@.len(),
            k <= fields@.len(),
            fields == &nodes@[i as int].child_fields,
        decreases fields.len() - k,
    {
        let hit = match &fields[k] {
            Some(name) => *name == *field,
            None => false,
        };
        if hit {
            let r = child(nodes, i, k);
            assert(field_texts(fields@)[k as int] == Some(field@));
            assert(nodes@[i as int]@.child_fields[k as int] == Some(field@));
            return r;
        }
        k = k + 1;
    }
    None
}

/// The offset of a node's range from its parent's start: `None` for a node
/// without a parent in the list, or one that starts before its parent.
pub open spec fn spec_rel(nodes: Seq<SyntaxNode>, i: int, x: usize) -> Option<usize> {
    match nodes[i].parent {
        Some(p) => if p < nodes.len() && nodes[p as int].start <= x {
            Some((x - nodes[p as int].start) as usize)
        } else {
            None
        },
        None => None,
    }
}

/// A node's start, counted from its parent's start.
pub fn start_rel(nodes: &Vec<SyntaxNode>, i: usize) -> (r: Option<usize>)
    requires
        i < nodes@.len(),
    ensures
        r == spec_rel(nodes@, i as int, nodes@[i as int].start),
{
    rel(nodes, i, nodes[i].start)
}

/// A node's end, counted from its parent's start.
pub fn end_rel(nodes: &Vec<SyntaxNode>, i: usize) -> (r: Option<usize>)
    requires
        i < nodes@.len(),
    ensures
        r == spec_rel(nodes@, i as int, nodes@[i as int].end),
{
    rel(nodes, i, nodes[i].end)
}

fn rel(nodes: &Vec<SyntaxNode>, i: usize, x: usize) -> (r: Option<usize>)
    requires
        i < nodes@.len(),
    ensures
        r == spec_rel(nodes@, i as int, x),
{
    match nodes[i].parent {
        Some(p) => if p < nodes.len() && nodes[p].start <= x {
            Some(x - nodes[p].start)
        } else {
            None
        },
        None => None,
    }
}

} // verus!
