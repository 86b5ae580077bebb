//! PHP detector.
use crate::error::Error;
use crate::parser::{detect_with_kinds, excerpt, reports, string_table, Detector};
use crate::tree::{parse_nodes, parsed, views, walked, Grammar, SyntaxNode};
use crate::visitor::{fresh, texts, LanguageVisitor};
use vstd::prelude::*;

verus! {

/// Node kinds that count as PHP code.
pub open spec fn php_table() -> Seq<Seq<char>> {
    seq![
        "if_statement"@,
        "switch_statement"@,
        "while_statement"@,
        "do_statement"@,
        "for_statement"@,
        "try_statement"@,
        "declare_statement"@,
        "echo_statement"@,
        "unset_statement"@,
        "const_declaration"@,
        "function_definition"@,
        "class_declaration"@,
        "interface_declaration"@,
        "trait_declaration"@,
        "enum_declaration"@,
        "namespace_definition"@,
        "namespace_use_declaration"@,
        "global_declaration"@,
        "function_static_declaration"@,
        "assignment_expression"@,
        "require_expression"@,
        "require_once_expression"@,
        "match_expression"@,
    ]
}

pub fn php_kinds() -> (r: Vec<String>)
    ensures
        texts(r@) == php_table(),
{
    string_table(
        &[
            "if_statement",
            "switch_statement",
            "while_statement",
            "do_statement",
            "for_statement",
            "try_statement",
            "declare_statement",
            "echo_statement",
            "unset_statement",
            "const_declaration",
            "function_definition",
            "class_declaration",
            "interface_declaration",
            "trait_declaration",
            "enum_declaration",
            "namespace_definition",
            "namespace_use_declaration",
            "global_declaration",
            "function_static_declaration",
            "assignment_expression",
            "require_expression",
            "require_once_expression",
            "match_expression",
        ],
    )
}

#[derive(Default)]
pub struct Php;

impl Php {
    /// What the detector reports for the parsed node list of `src`.
    pub fn detect_nodes(nodes: &Vec<SyntaxNode>, src: &str) -> (r: Result<Option<(u64, String)>, Error>)
        requires
            forall|j: int| 0 <= j < nodes@.len() ==> #[trigger] nodes@[j].start <= nodes@[j].end,
        ensures
            vstd::string::is_ascii(src) ==> reports(
                src@,
                walked::<LanguageVisitor>(views(nodes@), fresh(php_table())).matched,
                walked::<LanguageVisitor>(views(nodes@), fresh(php_table())).span,
                r,
            ),
            r matches Ok(Some((off, t))) ==> vstd::string::is_ascii(src) ==> excerpt(
                src@,
                off as int,
                t@,
            ),
    {
        detect_with_kinds(nodes, src, php_kinds())
    }
}

impl Detector for Php {
    open spec fn verdict(text: Seq<char>) -> Option<(bool, Option<(usize, usize)>)> {
        match parsed(Grammar::Php, text) {
            Some(nodes) => Some(
                (
                    walked::<LanguageVisitor>(nodes, fresh(php_table())).matched,
                    walked::<LanguageVisitor>(nodes, fresh(php_table())).span,
                ),
            ),
            None => None,
        }
    }

    /// `Grammar` when the text cannot be parsed; else what `detect_nodes`
    /// reports for the parsed nodes.
    fn parse(&mut self, src: &str) -> (r: Result<Option<(u64, String)>, Error>) {
        match parse_nodes(Grammar::Php, src) {
            Some(nodes) => Php::detect_nodes(&nodes, src),
            None => Err(Error::Grammar),
        }
    }
}

} // verus!
