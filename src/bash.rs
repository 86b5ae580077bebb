//! Bash detector.
use crate::error::Error;
use crate::parser::{detect_with_kinds, excerpt, reports, string_table, Detector};
use crate::tree::{parse_nodes, parsed, views, walked, Grammar, SyntaxNode};
use crate::visitor::{fresh, texts, LanguageVisitor};
use vstd::prelude::*;

verus! {

/// Node kinds that count as Bash code.
pub open spec fn bash_table() -> Seq<Seq<char>> {
    seq![
        "for_statement"@,
        "if_statement"@,
        "case_statement"@,
        "unset_command"@,
        "declaration_command"@,
        "function_definition"@,
        "compound_statement"@,
    ]
}

pub fn bash_kinds() -> (r: Vec<String>)
    ensures
        texts(r@) == bash_table(),
{
    string_table(
        &[
            "for_statement",
            "if_statement",
            "case_statement",
            "unset_command",
            "declaration_command",
            "function_definition",
            "compound_statement",
        ],
    )
}

#[derive(Default)]
pub struct Bash;

impl Bash {
    /// What the detector reports for the parsed node list of `src`.
    pub fn detect_nodes(nodes: &Vec<SyntaxNode>, src: &str) -> (r: Result<Option<(u64, String)>, Error>)
        requires
            forall|j: int| 0 <= j < nodes@.len() ==> #[trigger] nodes@[j].start <= nodes@[j].end,
        ensures
            vstd::string::is_ascii(src) ==> reports(
                src@,
                walked::<LanguageVisitor>(views(nodes@), fresh(bash_table())).matched,
                walked::<LanguageVisitor>(views(nodes@), fresh(bash_table())).span,
                r,
            ),
            r matches Ok(Some((off, t))) ==> vstd::string::is_ascii(src) ==> excerpt(
                src@,
                off as int,
                t@,
            ),
    {
        detect_with_kinds(nodes, src, bash_kinds())
    }
}

impl Detector for Bash {
    open spec fn verdict(text: Seq<char>) -> Option<(bool, Option<(usize, usize)>)> {
        match parsed(Grammar::Bash, text) {
            Some(nodes) => Some(
                (
                    walked::<LanguageVisitor>(nodes, fresh(bash_table())).matched,
                    walked::<LanguageVisitor>(nodes, fresh(bash_table())).span,
                ),
            ),
            None => None,
        }
    }

    /// `Grammar` when the text cannot be parsed; else what `detect_nodes`
    /// reports for the parsed nodes.
    fn parse(&mut self, src: &str) -> (r: Result<Option<(u64, String)>, Error>) {
        match parse_nodes(Grammar::Bash, src) {
            Some(nodes) => Bash::detect_nodes(&nodes, src),
            None => Err(Error::Grammar),
        }
    }
}

} // verus!
