//! Classifying lookup results and rendering one report line per name.
//!
//! Every lookup collapses to one of three outcomes — a property value was
//! found, the name is undefined, or the lookup failed — and each outcome is
//! rendered as a single line. A found value is shown in a structural form:
//! wrapped in double quotes, with embedded quotes and backslashes escaped by
//! a backslash.

use vstd::prelude::*;

use crate::document::{find_entry, Document, LookupBehavior, LookupError, ResultKind};

verus! {

/// The outcome of looking one name up, with the found value as a plain
/// character sequence: the mathematical shadow of [`LookupOutcome`].
pub enum Outcome {
    Found(Seq<char>),
    Undefined,
    Failed,
}

/// The outcome of looking one name up: a property value carrying its
/// displayable text was found, the name is undefined (no value, or a result
/// kind that is no property value), or the lookup itself failed.
pub enum LookupOutcome {
    Found(String),
    Undefined,
    LookupFailed,
}

impl View for LookupOutcome {
    type V = Outcome;

    open spec fn view(&self) -> Outcome {
        match *self {
            LookupOutcome::Found(v) => Outcome::Found(v@),
            LookupOutcome::Undefined => Outcome::Undefined,
            LookupOutcome::LookupFailed => Outcome::Failed,
        }
    }
}

/// The outcome a recorded lookup behavior produces.
pub open spec fn behavior_outcome(b: LookupBehavior) -> Outcome {
    match b {
        LookupBehavior::Found(ResultKind::Property(v)) => Outcome::Found(v@),
        LookupBehavior::Found(ResultKind::Other) => Outcome::Undefined,
        LookupBehavior::Fails => Outcome::Failed,
    }
}

/// The outcome a document gives for a name: decided by the first recorded
/// entry, and undefined for a name without one.
pub open spec fn doc_outcome(entries: Seq<(String, LookupBehavior)>, name: Seq<char>) -> Outcome {
    match find_entry(entries, name) {
        Option::Some(b) => behavior_outcome(b),
        Option::None => Outcome::Undefined,
    }
}

/// The outcome a raw lookup result collapses to.
pub open spec fn result_outcome(r: Result<Option<&ResultKind>, LookupError>) -> Outcome {
    match r {
        Result::Ok(Option::Some(k)) => match *k {
            ResultKind::Property(v) => Outcome::Found(v@),
            ResultKind::Other => Outcome::Undefined,
        },
        Result::Ok(Option::None) => Outcome::Undefined,
        Result::Err(_) => Outcome::Failed,
    }
}

/// Collapses a raw lookup result into its outcome; the error, if any, is
/// swallowed here, never propagated.
pub fn classify(looked: Result<Option<&ResultKind>, LookupError>) -> (o: LookupOutcome)
    ensures
        o@ == result_outcome(looked),
{
    match looked {
        Result::Ok(Option::Some(k)) => match k {
            ResultKind::Property(v) => LookupOutcome::Found(v.clone()),
            ResultKind::Other => LookupOutcome::Undefined,
        },
        Result::Ok(Option::None) => LookupOutcome::Undefined,
        Result::Err(_) => LookupOutcome::LookupFailed,
    }
}

/// Queries the document once for `name` and classifies what came back.
pub fn query(doc: &Document, name: &String) -> (o: LookupOutcome)
    ensures
        o@ == doc_outcome(doc@, name@),
{
    let looked = doc.lookup(name);
    classify(looked)
}

/// Whether the structural rendering of a value escapes this character.
pub open spec fn needs_escape(c: char) -> bool {
    c == '"' || c == '\\'
}

/// A value's text with every double quote and backslash preceded by a
/// backslash.
pub open spec fn escaped(v: Seq<char>) -> Seq<char>
    decreases v.len(),
{
    if v.len() == 0 {
        Seq::empty()
    } else if needs_escape(v[0]) {
        seq!['\\', v[0]] + escaped(v.drop_first())
    } else {
        seq![v[0]] + escaped(v.drop_first())
    }
}

/// The structural rendering of a found value: its escaped text in double
/// quotes.
pub open spec fn quoted(v: Seq<char>) -> Seq<char> {
    seq!['"'] + escaped(v) + seq!['"']
}

/// Escaping works one character at a time from either end.
proof fn lemma_escaped_push(p: Seq<char>, c: char)
    ensures
        escaped(p.push(c)) == escaped(p) + (if needs_escape(c) {
            seq!['\\', c]
        } else {
            seq![c]
        }),
    decreases p.len(),
{
    let tail = if needs_escape(c) {
        seq!['\\', c]
    } else {
        seq![c]
    };
    if p.len() == 0 {
        assert(p.push(c)[0] == c);
        assert(p.push(c).drop_first() =~= Seq::<char>::empty());
        assert(escaped(Seq::<char>::empty()) == Seq::<char>::empty());
        assert(escaped(p) == Seq::<char>::empty());
        assert(escaped(p.push(c)) == tail + escaped(Seq::<char>::empty()));
        assert(escaped(p.push(c)) =~= escaped(p) + tail);
    } else {
        assert(p.push(c)[0] == p[0]);
        assert(p.push(c).drop_first() =~= p.drop_first().push(c));
        lemma_escaped_push(p.drop_first(), c);
        assert(escaped(p.push(c)) =~= escaped(p) + tail);
    }
}

/// Renders a value's text with quotes and backslashes escaped.
pub fn escape_value(v: &str) -> (r: String)
    ensures
        r@ == escaped(v@),
{
    let n = v.unicode_len();
    let mut r = String::new();
    let mut i: usize = 0;
    proof {
        assert(v@.subrange(0, 0) =~= Seq::<char>::empty());
    }
    while i < n
        invariant
            i <= n,
            n == v@.len(),
            r@ == escaped(v@.subrange(0, i as int)),
        decreases n - i,
    {
        let c = v.get_char(i);
        if c == '"' {
            r.append("\\\"");
        } else if c == '\\' {
            r.append("\\\\");
        } else {
            let piece = v.substring_char(i, i + 1);
            r.append(piece);
        }
        proof {
            let p = v@.subrange(0, i as int);
            lemma_escaped_push(p, v@[i as int]);
            assert(v@.subrange(0, i + 1) =~= p.push(v@[i as int]));
            reveal_strlit("\\\"");
            reveal_strlit("\\\\");
            if v@[i as int] == '"' {
                assert("\\\""@ =~= seq!['\\', '"']);
            } else if v@[i as int] == '\\' {
                assert("\\\\"@ =~= seq!['\\', '\\']);
            } else {
                assert(v@.subrange(i as int, i + 1) =~= seq![v@[i as int]]);
            }
        }
        i = i + 1;
    }
    proof {
        assert(v@.subrange(0, n as int) =~= v@);
    }
    r
}

/// The one report line for `name` under outcome `o`: the name, then the
/// quoted value, `undefined`, or `not found!`.
pub open spec fn line_for(name: Seq<char>, o: Outcome) -> Seq<char> {
    "- "@ + name + ": "@ + (match o {
        Outcome::Found(v) => quoted(v),
        Outcome::Undefined => "undefined"@,
        Outcome::Failed => "not found!"@,
    })
}

/// Renders the one report line for `name` under `outcome`.
pub fn render_line(name: &String, outcome: &LookupOutcome) -> (line: String)
    ensures
        line@ == line_for(name@, outcome@),
{
    let mut line = String::from_str("- ");
    line.append(name.as_str());
    line.append(": ");
    match outcome {
        LookupOutcome::Found(v) => {
            line.append("\"");
            let esc = escape_value(v.as_str());
            line.append(esc.as_str());
            line.append("\"");
            proof {
                reveal_strlit("\"");
                assert("\""@ =~= seq!['"']);
                assert(line@ =~= line_for(name@, outcome@));
            }
        },
        LookupOutcome::Undefined => {
            line.append("undefined");
            proof {
                assert(line@ =~= line_for(name@, outcome@));
            }
        },
        LookupOutcome::LookupFailed => {
            line.append("not found!");
            proof {
                assert(line@ =~= line_for(name@, outcome@));
            }
        },
    }
    line
}

} // verus!
