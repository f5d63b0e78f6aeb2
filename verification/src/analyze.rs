//! The statement behind the `analyze` command.

use vstd::prelude::*;
use vstd::string::StringExecFns;

verus! {

/// The statement to run for `inner_query`: the query itself where it asks
/// for an analysis already, and else the query behind the word `analyze`.
pub open spec fn statement(inner_query: Seq<char>, is_analyze: bool) -> Seq<char> {
    if is_analyze {
        inner_query
    } else {
        "analyze "@ + inner_query
    }
}

/// Builds the statement to run for `inner_query`, so that the user need
/// not write `analyze` twice and may still give options in the query.
pub fn analyze_statement(inner_query: &str, is_analyze: bool) -> (query: String)
    ensures
        query@ == statement(inner_query@, is_analyze),
{
    if is_analyze {
        String::from_str(inner_query)
    } else {
        String::from_str("analyze ").concat(inner_query)
    }
}

} // verus!
