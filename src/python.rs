//! Python detector: the structural rule, plus slicing expressions and calls
//! of sensitive functions.
use crate::error::Error;
use crate::parser::{excerpt, report, reports, string_table, Detector};
use crate::tree::{
    apply, corrupt, parse_nodes, parsed, views, walked, Grammar, NodeData, Rule, SyntaxNode,
};
use crate::visitor::{
    invalidated, ordered, spec_union, union, widen, widened, texts, LanguageVisitor, VisitorState,
};
use vstd::prelude::*;

verus! {

/// Node kinds that count as Python code.
pub open spec fn python_table() -> Seq<Seq<char>> {
    seq![
        "if_statement"@,
        "for_statement"@,
        "while_statement"@,
        "try_statement"@,
        "with_statement"@,
        "function_definition"@,
        "class_definition"@,
        "decorated_definition"@,
        "match_statement"@,
        "future_import_statement"@,
        "import_from_statement"@,
        "assert_statement"@,
        "raise_statement"@,
        "pass_statement"@,
        "exec_statement"@,
        "import_statement"@,
    ]
}

pub fn python_kinds() -> (r: Vec<String>)
    ensures
        texts(r@) == python_table(),
{
    string_table(
        &[
            "if_statement",
            "for_statement",
            "while_statement",
            "try_statement",
            "with_statement",
            "function_definition",
            "class_definition",
            "decorated_definition",
            "match_statement",
            "future_import_statement",
            "import_from_statement",
            "assert_statement",
            "raise_statement",
            "pass_statement",
            "exec_statement",
            "import_statement",
        ],
    )
}

/// A slicing expression `x[a:b]`: a subscript of four children, `[` second,
/// a slice third and `]` fourth.
pub open spec fn is_slicing(node: NodeData) -> bool {
    &&& node.kind == "subscript"@
    &&& node.child_count == 4
    &&& node.child_kinds.len() == 4
    &&& node.child_kinds[1] == "["@
    &&& node.child_kinds[2] == "slice"@
    &&& node.child_kinds[3] == "]"@
}

/// Functions whose call is reported on its own: network fetch, process
/// execution, decoding.
pub open spec fn sensitive(callee: Seq<char>) -> bool {
    ||| callee == "requests.get"@
    ||| callee == "requests.post"@
    ||| callee == "os.system"@
    ||| callee == "base64.b64decode"@
    ||| callee == "b64decode"@
}

fn is_sensitive(callee: &String) -> (r: bool)
    ensures
        r == sensitive(callee@),
{
    *callee == String::from_str("requests.get") || *callee == String::from_str("requests.post")
        || *callee == String::from_str("os.system") || *callee == String::from_str(
        "base64.b64decode",
    ) || *callee == String::from_str("b64decode")
}

/// Matches slicing expressions, with the same veto on corruption as the
/// structural rule.
pub struct IsPythonSubscript {
    is_subscript: bool,
    span: Option<(usize, usize)>,
    stack: Vec<bool>,
}

/// The state of the slicing rule.
pub struct SubscriptState {
    pub matched: bool,
    pub span: Option<(usize, usize)>,
    pub stack: Seq<bool>,
}

impl View for IsPythonSubscript {
    type V = SubscriptState;

    closed spec fn view(&self) -> SubscriptState {
        SubscriptState { matched: self.is_subscript, span: self.span, stack: self.stack@ }
    }
}

impl IsPythonSubscript {
    pub fn new() -> (r: Self)
        ensures
            r@ == (SubscriptState { matched: false, span: None, stack: seq![true] }),
            r.inv(),
    {
        let r = IsPythonSubscript { is_subscript: false, span: None, stack: vec![true] };
        assert(r.stack@ =~= seq![true]);
        r
    }

    pub fn verify(node: &SyntaxNode) -> (r: bool)
        ensures
            r == is_slicing(node@),
    {
        node.kind == String::from_str("subscript") && node.child_count == 4
            && node.child_kinds.len() == 4 && node.child_kinds[1] == String::from_str("[")
            && node.child_kinds[2] == String::from_str("slice") && node.child_kinds[3]
            == String::from_str("]")
    }

    fn invalidate(&mut self)
        ensures
            final(self).stack@ == invalidated(old(self).stack@),
            final(self).span == old(self).span,
            final(self).is_subscript == old(self).is_subscript,
    {
        let n = self.stack.len();
        let mut i: usize = 0;
        while i < n
            invariant
                n == self.stack@.len() == old(self).stack@.len(),
                i <= n,
                forall|j: int| 0 <= j < i ==> !self.stack@[j],
                self.span == old(self).span,
                self.is_subscript == old(self).is_subscript,
            decreases n - i,
        {
            self.stack.set(i, false);
            i = i + 1;
        }
        assert(self.stack@ =~= invalidated(old(self).stack@));
    }
}

/// The slicing rule's state after leaving a node: corruption vetoes every
/// open scope; a closing slicing scope still valid records a match and widens
/// the span; while the innermost scope is valid after a match, the span takes
/// in the node too.
pub open spec fn subscript_left(v: SubscriptState, node: NodeData) -> SubscriptState {
    let s1 = if corrupt(node) {
        invalidated(v.stack)
    } else {
        v.stack
    };
    let closes = node.child_count > 1 && is_slicing(node) && s1.len() > 0;
    let valid = closes && s1.last();
    let s2 = if closes {
        s1.drop_last()
    } else {
        s1
    };
    let matched = v.matched || valid;
    let span1 = if valid {
        widened(v.span, node)
    } else {
        v.span
    };
    SubscriptState {
        matched,
        span: if matched && s2.len() > 0 && s2.last() {
            widened(span1, node)
        } else {
            span1
        },
        stack: s2,
    }
}

impl Rule for IsPythonSubscript {
    closed spec fn inv(&self) -> bool {
        &&& ordered(self.span)
        &&& self.is_subscript ==> self.span is Some
    }

    open spec fn entered(v: SubscriptState, node: NodeData) -> (SubscriptState, bool) {
        if is_slicing(node) {
            (SubscriptState { stack: v.stack.push(true), ..v }, true)
        } else {
            (v, true)
        }
    }

    open spec fn left(v: SubscriptState, node: NodeData) -> SubscriptState {
        subscript_left(v, node)
    }

    fn enter(&mut self, node: &SyntaxNode) -> (r: bool) {
        // the match is recorded on leaving, if nothing below was corrupt
        if IsPythonSubscript::verify(node) {
            self.stack.push(true);
        }
        true
    }

    fn leave(&mut self, node: &SyntaxNode) {
        if node.is_corrupt() {
            self.invalidate();
        }
        if node.child_count > 1 && IsPythonSubscript::verify(node) {
            let valid = match self.stack.pop() {
                Some(v) => v,
                None => false,
            };
            if valid {
                self.span = widen(self.span, node);
                self.is_subscript = true;
            }
        }
        let n = self.stack.len();
        if self.is_subscript && n > 0 && self.stack[n - 1] {
            self.span = widen(self.span, node);
        }
    }
}

/// Matches calls of sensitive functions, with no veto: such a call is the
/// signal even standing alone.
pub struct IsPythonFunction {
    is_function: bool,
    span: Option<(usize, usize)>,
}

/// The state of the call rule.
pub struct FunctionState {
    pub matched: bool,
    pub span: Option<(usize, usize)>,
}

/// A call whose callee is sensitive.
pub open spec fn is_sensitive_call(node: NodeData) -> bool {
    &&& node.kind == "call"@
    &&& node.callee is Some
    &&& sensitive(node.callee->0)
}

impl View for IsPythonFunction {
    type V = FunctionState;

    closed spec fn view(&self) -> FunctionState {
        FunctionState { matched: self.is_function, span: self.span }
    }
}

impl IsPythonFunction {
    pub fn new() -> (r: Self)
        ensures
            r@ == (FunctionState { matched: false, span: None }),
            r.inv(),
    {
        IsPythonFunction { is_function: false, span: None }
    }
}

impl Rule for IsPythonFunction {
    closed spec fn inv(&self) -> bool {
        &&& ordered(self.span)
        &&& self.is_function ==> self.span is Some
    }

    open spec fn entered(v: FunctionState, node: NodeData) -> (FunctionState, bool) {
        if is_sensitive_call(node) {
            (FunctionState { matched: true, span: widened(v.span, node) }, true)
        } else {
            (v, true)
        }
    }

    open spec fn left(v: FunctionState, node: NodeData) -> FunctionState {
        v
    }

    fn enter(&mut self, node: &SyntaxNode) -> (r: bool) {
        if node.kind == String::from_str("call") {
            if let Some(callee) = &node.callee {
                if is_sensitive(callee) {
                    self.is_function = true;
                    self.span = widen(self.span, node);
                }
            }
        }
        true
    }

    fn leave(&mut self, node: &SyntaxNode) {
    }
}

/// The three Python rules, run in one traversal.
pub struct PythonRules {
    pub visitor: LanguageVisitor,
    pub subscript: IsPythonSubscript,
    pub function: IsPythonFunction,
}

impl View for PythonRules {
    type V = (VisitorState, SubscriptState, FunctionState);

    open spec fn view(&self) -> (VisitorState, SubscriptState, FunctionState) {
        (self.visitor@, self.subscript@, self.function@)
    }
}

/// The view of the structural rule over the Python kinds, before any node.
pub open spec fn python_start() -> (VisitorState, SubscriptState, FunctionState) {
    (
        VisitorState { matched: false, span: None, stack: seq![true], kinds: python_table() },
        SubscriptState { matched: false, span: None, stack: seq![true] },
        FunctionState { matched: false, span: None },
    )
}

/// Whether any rule matched.
pub open spec fn python_matched(v: (VisitorState, SubscriptState, FunctionState)) -> bool {
    v.0.matched || v.1.matched || v.2.matched
}

/// The union of the rules' spans.
pub open spec fn python_span(v: (VisitorState, SubscriptState, FunctionState)) -> Option<
    (usize, usize),
> {
    spec_union(spec_union(v.0.span, v.1.span), v.2.span)
}

impl PythonRules {
    pub fn new() -> (r: Self)
        ensures
            r.inv(),
            r@ == python_start(),
    {
        PythonRules {
            visitor: LanguageVisitor::new(python_kinds()),
            subscript: IsPythonSubscript::new(),
            function: IsPythonFunction::new(),
        }
    }

    pub fn verdict(&self) -> (r: (bool, Option<(usize, usize)>))
        ensures
            r == (python_matched(self@), python_span(self@)),
    {
        let matched = self.visitor.get_matched() || self.subscript.is_subscript
            || self.function.is_function;
        let span = union(
            union(self.visitor.get_span(), self.subscript.span),
            self.function.span,
        );
        (matched, span)
    }
}

impl Rule for PythonRules {
    open spec fn inv(&self) -> bool {
        &&& self.visitor.inv()
        &&& self.subscript.inv()
        &&& self.function.inv()
    }

    open spec fn entered(v: (VisitorState, SubscriptState, FunctionState), node: NodeData) -> (
        (VisitorState, SubscriptState, FunctionState),
        bool,
    ) {
        let (a, da) = LanguageVisitor::entered(v.0, node);
        let (b, db) = IsPythonSubscript::entered(v.1, node);
        let (c, dc) = IsPythonFunction::entered(v.2, node);
        ((a, b, c), da && db && dc)
    }

    open spec fn left(v: (VisitorState, SubscriptState, FunctionState), node: NodeData) -> (
        VisitorState,
        SubscriptState,
        FunctionState,
    ) {
        (
            LanguageVisitor::left(v.0, node),
            IsPythonSubscript::left(v.1, node),
            IsPythonFunction::left(v.2, node),
        )
    }

    fn enter(&mut self, node: &SyntaxNode) -> (r: bool) {
        let a = self.visitor.enter(node);
        let b = self.subscript.enter(node);
        let c = self.function.enter(node);
        a && b && c
    }

    fn leave(&mut self, node: &SyntaxNode) {
        self.visitor.leave(node);
        self.subscript.leave(node);
        self.function.leave(node);
    }
}

#[derive(Default)]
pub struct Python;

impl Python {
    /// What the detector reports for the parsed node list of `src`: the
    /// verdict and the span union of the three rules after the walk.
    pub fn detect_nodes(nodes: &Vec<SyntaxNode>, src: &str) -> (r: Result<Option<(u64, String)>, Error>)
        requires
            forall|j: int| 0 <= j < nodes@.len() ==> #[trigger] nodes@[j].start <= nodes@[j].end,
        ensures
            vstd::string::is_ascii(src) ==> reports(
                src@,
                python_matched(walked::<PythonRules>(views(nodes@), python_start())),
                python_span(walked::<PythonRules>(views(nodes@), python_start())),
                r,
            ),
            r matches Ok(Some((off, t))) ==> vstd::string::is_ascii(src) ==> excerpt(
                src@,
                off as int,
                t@,
            ),
    {
        let mut rules = PythonRules::new();
        apply(nodes, &mut rules);
        let (matched, span) = rules.verdict();
        report(src, matched, span)
    }
}

impl Detector for Python {
    open spec fn verdict(text: Seq<char>) -> Option<(bool, Option<(usize, usize)>)> {
        match parsed(Grammar::Python, text) {
            Some(nodes) => Some(
                (
                    python_matched(walked::<PythonRules>(nodes, python_start())),
                    python_span(walked::<PythonRules>(nodes, python_start())),
                ),
            ),
            None => None,
        }
    }

    /// `Grammar` when the text cannot be parsed; else what `detect_nodes`
    /// reports for the parsed nodes.
    fn parse(&mut self, src: &str) -> (r: Result<Option<(u64, String)>, Error>) {
        match parse_nodes(Grammar::Python, src) {
            Some(nodes) => Python::detect_nodes(&nodes, src),
            None => Err(Error::Grammar),
        }
    }
}

} // verus!
