//! SQL formatting through the `sqlformat` crate.

use vstd::prelude::*;
use crate::error::Result;
use crate::format::{FormatOptions, Formatter, Language};
use crate::format::json::indent_or;

verus! {

/// The text `sqlformat::format` produces for a query with no parameters,
/// the given indent width, upper-cased keywords and one line between
/// queries.
pub uninterp spec fn sqlformat_text(query: Seq<char>, indent: u8) -> Seq<char>;

/// Wraps `sqlformat::format` with `Indent::Spaces(indent)`,
/// `uppercase: true` and `lines_between_queries: 1`; the result is named
/// [`sqlformat_text`].
#[verifier::external_body]
fn sql_format(query: &str, indent: u8) -> (r: String)
    ensures
        r@ == sqlformat_text(query@, indent),
{
    sqlformat::format(
        query,
        &sqlformat::QueryParams::None,
        sqlformat::FormatOptions {
            indent: sqlformat::Indent::Spaces(indent),
            uppercase: true,
            lines_between_queries: 1,
        },
    )
}

pub open spec fn sql_format_spec(input: Seq<char>, opts: FormatOptions) -> Seq<char> {
    sqlformat_text(input, indent_or(opts, 2))
}

pub struct SqlFormatter;

impl Formatter for SqlFormatter {
    open spec fn handled(&self) -> Seq<Language> {
        seq![Language::Sql]
    }

    open spec fn formatted(&self, input: Seq<char>, opts: FormatOptions) -> Option<Seq<char>> {
        Some(sql_format_spec(input, opts))
    }

    open spec fn failure(&self, input: Seq<char>, opts: FormatOptions) -> Seq<char> {
        Seq::empty()
    }

    open spec fn id_text(&self) -> Seq<char> {
        "sql"@
    }

    fn id(&self) -> (r: &str) {
        "sql"
    }

    fn languages(&self) -> (r: Vec<Language>) {
        let mut v: Vec<Language> = Vec::new();
        v.push(Language::Sql);
        assert(v@ =~= seq![Language::Sql]);
        v
    }

    fn format(&self, input: &str, opts: &FormatOptions) -> (r: Result<String>) {
        let width: u8 = match opts.indent {
            Some(w) => w,
            None => 2,
        };
        Ok(sql_format(input, width))
    }
}

} // verus!
