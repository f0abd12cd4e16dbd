//! The display adapter: resolve a comma-separated list of property names
//! against a document and print one line per name, in input order.
//!
//! An absent specification means no names and no output. A failed lookup is
//! reported on its own line and never aborts the remaining names; the
//! adapter as a whole always succeeds.

use vstd::prelude::*;

use std::io::Write;

use crate::document::{Document, LookupBehavior};
use crate::render::{doc_outcome, line_for, render_line, query};
use crate::split::{count_sep, lemma_split_on_count, split_names, split_on};

verus! {

/// The adapter's own error channel. No condition in the current contract
/// produces one — an absent or empty specification is valid input — but the
/// result type keeps the channel open.
pub struct ShowError {}

/// The names a raw specification denotes: none when it is absent, its
/// comma-separated segments otherwise.
pub open spec fn spec_names(raw: Option<Seq<char>>) -> Seq<Seq<char>> {
    match raw {
        Option::None => Seq::empty(),
        Option::Some(s) => split_on(s, ','),
    }
}

/// The view of an optional raw specification.
pub open spec fn raw_view(raw: Option<String>) -> Option<Seq<char>> {
    match raw {
        Option::None => Option::None,
        Option::Some(s) => Option::Some(s@),
    }
}

/// The whole report: one line per requested name, in input order, each
/// rendering that name's lookup outcome on the document.
pub open spec fn report(
    entries: Seq<(String, LookupBehavior)>,
    raw: Option<Seq<char>>,
) -> Seq<Seq<char>> {
    spec_names(raw).map_values(|n: Seq<char>| line_for(n, doc_outcome(entries, n)))
}

/// Computes the report lines for `raw` against `doc`: one line per
/// comma-separated name, in input order.
pub fn show_lines(doc: &Document, raw: &Option<String>) -> (lines: Vec<String>)
    ensures
        lines@.map_values(|l: String| l@) == report(doc@, raw_view(*raw)),
{
    let ghost rv = raw_view(*raw);
    let names = match raw {
        Option::Some(s) => split_names(s.as_str()),
        Option::None => Vec::new(),
    };
    proof {
        assert(names@.map_values(|t: String| t@) =~= spec_names(rv));
    }
    let mut lines: Vec<String> = Vec::new();
    let mut i: usize = 0;
    proof {
        assert(lines@.map_values(|l: String| l@) =~= report(doc@, rv).subrange(0, 0));
    }
    while i < names.len()
        invariant
            i <= names@.len(),
            names@.map_values(|t: String| t@) == spec_names(rv),
            lines@.map_values(|l: String| l@) == report(doc@, rv).subrange(0, i as int),
        decreases names@.len() - i,
    {
        let outcome = query(doc, &names[i]);
        let line = render_line(&names[i], &outcome);
        let ghost pre = lines@.map_values(|l: String| l@);
        lines.push(line);
        proof {
            assert(names@[i as int]@ == spec_names(rv)[i as int]);
            assert(report(doc@, rv)[i as int] == line_for(
                spec_names(rv)[i as int],
                doc_outcome(doc@, spec_names(rv)[i as int]),
            ));
            assert(lines@.map_values(|l: String| l@) =~= pre.push(line@));
            assert(report(doc@, rv).subrange(0, i + 1) =~= report(doc@, rv).subrange(
                0,
                i as int,
            ).push(report(doc@, rv)[i as int]));
        }
        i = i + 1;
    }
    proof {
        assert(report(doc@, rv).subrange(0, names@.len() as int) =~= report(doc@, rv));
    }
    lines
}

/// Relies on std::io::Stdout's write implementation, through the `writeln`
/// macro: prints the line followed by a newline to standard output.
#[verifier::external_body]
fn emit_line(line: &String) {
    let _ = writeln!(std::io::stdout(), "{}", line);
}

/// Prints the report for `raw` against `doc` to standard output, one line
/// per requested name, in input order, and always succeeds: a failed lookup
/// shows up only as its `not found!` line.
pub fn show(doc: &Document, raw: &Option<String>) -> (r: Result<(), ShowError>)
    ensures
        r is Ok,
{
    let lines = show_lines(doc, raw);
    let mut i: usize = 0;
    while i < lines.len()
        decreases lines@.len() - i,
    {
        emit_line(&lines[i]);
        i = i + 1;
    }
    Ok(())
}

/// Law: for every raw specification, the report has exactly one line per
/// comma-separated segment — one more line than there are commas, empty
/// segments included.
pub proof fn lemma_report_segment_count(entries: Seq<(String, LookupBehavior)>, s: Seq<char>)
    ensures
        report(entries, Option::Some(s)).len() == count_sep(s, ',') + 1,
{
    lemma_split_on_count(s, ',');
}

/// Law: an absent specification produces no lines.
pub proof fn lemma_report_absent(entries: Seq<(String, LookupBehavior)>)
    ensures
        report(entries, Option::None).len() == 0,
{
}

/// Law: order preservation — the line at position `i` reports the name at
/// position `i` of the specification, so no reordering can occur.
pub proof fn lemma_report_in_order(entries: Seq<(String, LookupBehavior)>, s: Seq<char>, i: int)
    requires
        0 <= i < split_on(s, ',').len(),
    ensures
        report(entries, Option::Some(s))[i] == line_for(
            split_on(s, ',')[i],
            doc_outcome(entries, split_on(s, ',')[i]),
        ),
{
}

/// Law: duplicate names are queried independently, and against one
/// immutable document two occurrences of the same name produce the same
/// line.
pub proof fn lemma_duplicate_names_agree(
    entries: Seq<(String, LookupBehavior)>,
    raw: Option<Seq<char>>,
    i: int,
    j: int,
)
    requires
        0 <= i < spec_names(raw).len(),
        0 <= j < spec_names(raw).len(),
        spec_names(raw)[i] == spec_names(raw)[j],
    ensures
        report(entries, raw)[i] == report(entries, raw)[j],
{
}

/// Law: idempotence — the report is a function of the document and the
/// specification alone, so repeated calls with the same immutable document
/// and the same specification produce identical output.
pub proof fn lemma_report_deterministic(
    entries: Seq<(String, LookupBehavior)>,
    raw: Option<Seq<char>>,
    first: Seq<Seq<char>>,
    second: Seq<Seq<char>>,
)
    requires
        first == report(entries, raw),
        second == report(entries, raw),
    ensures
        first == second,
{
}

} // verus!
