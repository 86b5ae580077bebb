//! SQL detector.
use crate::error::Error;
use crate::parser::{detect_with_kinds, excerpt, reports, string_table, Detector};
use crate::tree::{parse_nodes, parsed, views, walked, Grammar, SyntaxNode};
use crate::visitor::{fresh, texts, LanguageVisitor};
use vstd::prelude::*;

verus! {

/// Node kinds that count as SQL code.
pub open spec fn sql_table() -> Seq<Seq<char>> {
    seq![
        "statement"@,
        "transaction"@,
    ]
}

pub fn sql_kinds() -> (r: Vec<String>)
    ensures
        texts(r@) == sql_table(),
{
    string_table(
        &[
            "statement",
            "transaction",
        ],
    )
}

#[derive(Default)]
pub struct Sql;

impl Sql {
    /// What the detector reports for the parsed node list of `src`.
    pub fn detect_nodes(nodes: &Vec<SyntaxNode>, src: &str) -> (r: Result<Option<(u64, String)>, Error>)
        requires
            forall|j: int| 0 <= j < nodes@.len() ==> #[trigger] nodes@[j].start <= nodes@[j].end,
        ensures
            vstd::string::is_ascii(src) ==> reports(
                src@,
                walked::<LanguageVisitor>(views(nodes@), fresh(sql_table())).matched,
                walked::<LanguageVisitor>(views(nodes@), fresh(sql_table())).span,
                r,
            ),
            r matches Ok(Some((off, t))) ==> vstd::string::is_ascii(src) ==> excerpt(
                src@,
                off as int,
                t@,
            ),
    {
        detect_with_kinds(nodes, src, sql_kinds())
    }
}

impl Detector for Sql {
    open spec fn verdict(text: Seq<char>) -> Option<(bool, Option<(usize, usize)>)> {
        match parsed(Grammar::Sql, text) {
            Some(nodes) => Some(
                (
                    walked::<LanguageVisitor>(nodes, fresh(sql_table())).matched,
                    walked::<LanguageVisitor>(nodes, fresh(sql_table())).span,
                ),
            ),
            None => None,
        }
    }

    /// `Grammar` when the text cannot be parsed; else what `detect_nodes`
    /// reports for the parsed nodes.
    fn parse(&mut self, src: &str) -> (r: Result<Option<(u64, String)>, Error>) {
        match parse_nodes(Grammar::Sql, src) {
            Some(nodes) => Sql::detect_nodes(&nodes, src),
            None => Err(Error::Grammar),
        }
    }
}

} // verus!
