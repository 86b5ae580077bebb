//! The structural rule shared by every language: a match scope opens on each
//! interesting node, corruption anywhere below an open scope vetoes it, and
//! clean scopes widen the reported span.
use crate::tree::{corrupt, NodeData, Rule, SyntaxNode};
use vstd::prelude::*;

verus! {

/// Whether the kind is one of the listed ones.
pub open spec fn listed(kinds: Seq<Seq<char>>, kind: Seq<char>) -> bool {
    exists|i: int| 0 <= i < kinds.len() && #[trigger] kinds[i] == kind
}

/// The text of each string.
pub open spec fn texts(v: Seq<String>) -> Seq<Seq<char>> {
    v.map_values(|k: String| k@)
}

pub fn kind_in(kinds: &Vec<String>, kind: &String) -> (r: bool)
    ensures
        r == listed(texts(kinds@), kind@),
{
    let mut i: usize = 0;
    while i < kinds.len()
        invariant
            i <= kinds.len(),
            forall|j: int| 0 <= j < i ==> kinds@[j]@ != kind@,
        decreases kinds.len() - i,
    {
        if kinds[i] == *kind {
            assert(texts(kinds@)[i as int] == kind@);
            return true;
        }
        i = i + 1;
    }
    false
}

/// Every flag of the stack set to false.
pub open spec fn invalidated(stack: Seq<bool>) -> Seq<bool> {
    Seq::new(stack.len(), |i: int| false)
}

/// The span with a node's byte range added: the least start, the greatest end.
pub open spec fn widened(span: Option<(usize, usize)>, node: NodeData) -> Option<(usize, usize)> {
    match span {
        None => Some((node.start, node.end)),
        Some((s, e)) => Some(
            (if node.start < s {
                node.start
            } else {
                s
            }, if node.end > e {
                node.end
            } else {
                e
            }),
        ),
    }
}

/// The union of two spans: the least start, the greatest end.
pub open spec fn spec_union(a: Option<(usize, usize)>, b: Option<(usize, usize)>) -> Option<
    (usize, usize),
> {
    match (a, b) {
        (None, _) => b,
        (_, None) => a,
        (Some((s1, e1)), Some((s2, e2))) => Some(
            (if s1 < s2 {
                s1
            } else {
                s2
            }, if e1 > e2 {
                e1
            } else {
                e2
            }),
        ),
    }
}

/// The union of two spans starts at the lesser start and ends at the greater
/// end, so it covers both; it is absent only when both are.
pub proof fn lemma_union_covers(a: Option<(usize, usize)>, b: Option<(usize, usize)>)
    ensures
        spec_union(a, b) is None <==> (a is None && b is None),
        a matches Some((s, e)) ==> (spec_union(a, b) matches Some((us, ue)) && us <= s && e <= ue),
        b matches Some((s, e)) ==> (spec_union(a, b) matches Some((us, ue)) && us <= s && e <= ue),
        a matches Some((s1, e1)) ==> (b matches Some((s2, e2)) ==> (spec_union(a, b) matches Some(
            (us, ue),
        ) && (us == s1 || us == s2) && (ue == e1 || ue == e2))),
{
}

pub fn union(a: Option<(usize, usize)>, b: Option<(usize, usize)>) -> (r: Option<(usize, usize)>)
    ensures
        r == spec_union(a, b),
{
    match (a, b) {
        (None, _) => b,
        (_, None) => a,
        (Some((s1, e1)), Some((s2, e2))) => Some(
            (if s1 < s2 {
                s1
            } else {
                s2
            }, if e1 > e2 {
                e1
            } else {
                e2
            }),
        ),
    }
}

pub fn widen(span: Option<(usize, usize)>, node: &SyntaxNode) -> (r: Option<(usize, usize)>)
    ensures
        r == widened(span, node@),
{
    match span {
        None => Some((node.start, node.end)),
        Some((s, e)) => Some(
            (if node.start < s {
                node.start
            } else {
                s
            }, if node.end > e {
                node.end
            } else {
                e
            }),
        ),
    }
}

pub open spec fn ordered(span: Option<(usize, usize)>) -> bool {
    span matches Some((s, e)) ==> s <= e
}

/// The flags of a later stack never hold where the earlier ones did not:
/// a vetoed scope is never valid again.
pub open spec fn never_revalidated(later: Seq<bool>, earlier: Seq<bool>) -> bool {
    &&& later.len() <= earlier.len()
    &&& forall|i: int| 0 <= i < later.len() && #[trigger] later[i] ==> earlier[i]
}

/// The generic structural rule, over a table of interesting node kinds.
pub struct LanguageVisitor {
    pub is_matched: bool,
    stack: Vec<bool>,
    /// The matched byte range, once there is one.
    pub span: Option<(usize, usize)>,
    kinds: Vec<String>,
}

/// The state of a structural rule.
pub struct VisitorState {
    pub matched: bool,
    pub span: Option<(usize, usize)>,
    /// The validity flags of the open match scopes, the whole tree first.
    pub stack: Seq<bool>,
    pub kinds: Seq<Seq<char>>,
}

/// The state of a structural rule over the kinds, before any node.
pub open spec fn fresh(kinds: Seq<Seq<char>>) -> VisitorState {
    VisitorState { matched: false, span: None, stack: seq![true], kinds }
}

/// The node opens a match scope: it has more than one child and an
/// interesting kind.
pub open spec fn opens_scope_in(kinds: Seq<Seq<char>>, node: NodeData) -> bool {
    node.child_count > 1 && listed(kinds, node.kind)
}

impl View for LanguageVisitor {
    type V = VisitorState;

    closed spec fn view(&self) -> VisitorState {
        VisitorState {
            matched: self.is_matched,
            span: self.span,
            stack: self.stack@,
            kinds: texts(self.kinds@),
        }
    }
}

impl LanguageVisitor {
    pub open spec fn validity(&self) -> Seq<bool> {
        self@.stack
    }

    pub open spec fn matched(&self) -> bool {
        self@.matched
    }

    pub open spec fn matched_span(&self) -> Option<(usize, usize)> {
        self@.span
    }

    pub open spec fn interesting(&self) -> Seq<Seq<char>> {
        self@.kinds
    }

    pub open spec fn opens(&self, node: &SyntaxNode) -> bool {
        opens_scope_in(self.interesting(), node@)
    }

    pub fn new(kinds: Vec<String>) -> (r: Self)
        ensures
            !r.matched(),
            r.matched_span() is None,
            r.validity() == seq![true],
            r.interesting() == texts(kinds@),
            r.inv(),
    {
        LanguageVisitor { is_matched: false, stack: vec![true], span: None, kinds }
    }

    pub fn get_matched(&self) -> (r: bool)
        ensures
            r == self.matched(),
    {
        self.is_matched
    }

    pub fn get_span(&self) -> (r: Option<(usize, usize)>)
        ensures
            r == self.matched_span(),
    {
        self.span
    }

    fn opens_scope(&self, node: &SyntaxNode) -> (r: bool)
        ensures
            r == self.opens(node),
    {
        node.child_count > 1 && kind_in(&self.kinds, &node.kind)
    }

    fn invalidate(&mut self)
        ensures
            final(self).stack@ == invalidated(old(self).stack@),
            final(self).kinds == old(self).kinds,
            final(self).matched_span() == old(self).matched_span(),
            final(self).matched() == old(self).matched(),
    {
        let n = self.stack.len();
        let mut i: usize = 0;
        while i < n
            invariant
                n == self.stack@.len() == old(self).stack@.len(),
                i <= n,
                forall|j: int| 0 <= j < i ==> !self.stack@[j],
                self.kinds == old(self).kinds,
                self.span == old(self).matched_span(),
                self.is_matched == old(self).matched(),
            decreases n - i,
        {
            self.stack.set(i, false);
            i = i + 1;
        }
        assert(self.stack@ =~= invalidated(old(self).stack@));
    }
}

/// The stack after leaving a node: invalidated if the node is corrupt, then
/// popped if the node closes a scope.
pub open spec fn stack_after_leave(stack: Seq<bool>, corrupt: bool, closes: bool) -> Seq<bool> {
    let s1 = if corrupt {
        invalidated(stack)
    } else {
        stack
    };
    let s2 = if closes && s1.len() > 0 {
        s1.drop_last()
    } else {
        s1
    };
    if corrupt {
        invalidated(s2)
    } else {
        s2
    }
}

/// Whether leaving the node closes a scope that is still valid.
pub open spec fn closes_valid(stack: Seq<bool>, corrupt: bool, closes: bool) -> bool {
    closes && stack.len() > 0 && !corrupt && stack.last()
}

/// The state after leaving a node: corruption vetoes every open scope; a
/// closing scope still valid records a match and widens the span; while the
/// innermost open scope is valid after a match, the span takes in the node too.
pub open spec fn leave_state(v: VisitorState, node: NodeData) -> VisitorState {
    let bad = corrupt(node);
    let closes = opens_scope_in(v.kinds, node);
    let valid = closes_valid(v.stack, bad, closes);
    let matched = v.matched || valid;
    let s1 = if valid {
        widened(v.span, node)
    } else {
        v.span
    };
    let st = stack_after_leave(v.stack, bad, closes);
    VisitorState {
        matched,
        span: if matched && st.len() > 0 && st.last() {
            widened(s1, node)
        } else {
            s1
        },
        stack: st,
        kinds: v.kinds,
    }
}

impl Rule for LanguageVisitor {
    closed spec fn inv(&self) -> bool {
        &&& ordered(self.span)
        &&& self.is_matched ==> self.span is Some
    }

    open spec fn entered(v: VisitorState, node: NodeData) -> (VisitorState, bool) {
        (
            VisitorState {
                stack: if opens_scope_in(v.kinds, node) {
                    v.stack.push(true)
                } else {
                    v.stack
                },
                ..v
            },
            true,
        )
    }

    open spec fn left(v: VisitorState, node: NodeData) -> VisitorState {
        leave_state(v, node)
    }

    fn enter(&mut self, node: &SyntaxNode) -> (r: bool)
        ensures
            r,
            final(self).validity() == if old(self).opens(node) {
                old(self).validity().push(true)
            } else {
                old(self).validity()
            },
            final(self).interesting() == old(self).interesting(),
            final(self).matched_span() == old(self).matched_span(),
            final(self).matched() == old(self).matched(),
    {
        if self.opens_scope(node) {
            self.stack.push(true);
        }
        true
    }

    fn leave(&mut self, node: &SyntaxNode)
        ensures
            final(self).validity() == stack_after_leave(
                old(self).validity(),
                node.spec_corrupt(),
                old(self).opens(node),
            ),
            never_revalidated(final(self).validity(), old(self).validity()),
            node.spec_corrupt() ==> forall|i: int|
                0 <= i < final(self).validity().len() ==> !final(self).validity()[i],
            final(self).matched() == (old(self).matched() || closes_valid(
                old(self).validity(),
                node.spec_corrupt(),
                old(self).opens(node),
            )),
            final(self).matched_span() == ({
                let s1 = if closes_valid(
                    old(self).validity(),
                    node.spec_corrupt(),
                    old(self).opens(node),
                ) {
                    widened(old(self).matched_span(), node@)
                } else {
                    old(self).matched_span()
                };
                let st = final(self).validity();
                if final(self).matched() && st.len() > 0 && st.last() {
                    widened(s1, node@)
                } else {
                    s1
                }
            }),
            final(self).interesting() == old(self).interesting(),
    {
        let corrupt = node.is_corrupt();
        if corrupt {
            self.invalidate();
        }
        if self.opens_scope(node) {
            let valid = match self.stack.pop() {
                Some(v) => v,
                None => false,
            };
            if valid {
                self.span = widen(self.span, node);
                self.is_matched = true;
            }
        }
        // a node with empty text is a token the parser had to invent
        if node.start == node.end {
            self.invalidate();
        }
        let n = self.stack.len();
        if self.is_matched && n > 0 && self.stack[n - 1] {
            self.span = widen(self.span, node);
        }
        proof {
            let s0 = old(self).validity();
            let fin = self.stack@;
            let want = leave_state(old(self)@, node@);
            assert(self@.stack == want.stack);
            assert(self@.matched == want.matched);
            assert(self@.span == want.span);
            assert(self@.kinds == want.kinds);
            assert(never_revalidated(fin, s0)) by {
                assert forall|i: int| 0 <= i < fin.len() && #[trigger] fin[i] implies s0[i] by {
                    assert(!corrupt);
                }
            }
        }
    }
}

/// A vetoed scope stays vetoed: entering a node only opens a fresh scope on
/// top, leaving a node never turns a flag from false to true, and leaving a
/// corrupt node (an error, or an empty token) vetoes every open scope.
pub proof fn lemma_veto_is_permanent(v: VisitorState, node: NodeData)
    ensures
        LanguageVisitor::entered(v, node).0.stack == v.stack || LanguageVisitor::entered(
            v,
            node,
        ).0.stack == v.stack.push(true),
        never_revalidated(LanguageVisitor::left(v, node).stack, v.stack),
        corrupt(node) ==> forall|i: int|
            0 <= i < LanguageVisitor::left(v, node).stack.len()
                ==> !LanguageVisitor::left(v, node).stack[i],
{
    let bad = corrupt(node);
    let closes = opens_scope_in(v.kinds, node);
    let fin = stack_after_leave(v.stack, bad, closes);
    assert forall|i: int| 0 <= i < fin.len() && #[trigger] fin[i] implies v.stack[i] by {
        assert(!bad);
    }
}

} // verus!
