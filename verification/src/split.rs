//! Splitting a raw property specification into its comma-separated segments.
//!
//! Splitting keeps every segment verbatim: no trimming, no deduplication, and
//! empty segments (from leading, trailing or doubled separators) survive as
//! empty names.

use vstd::prelude::*;

verus! {

/// Index of the first occurrence of `sep` in `s`, or `s.len()` when `sep`
/// does not occur at all.
pub open spec fn first_sep(s: Seq<char>, sep: char) -> nat
    decreases s.len(),
{
    if s.len() == 0 {
        0
    } else if s[0] == sep {
        0
    } else {
        1 + first_sep(s.drop_first(), sep)
    }
}

/// The segments of `s` between occurrences of `sep`, in order.
///
/// A sequence with no separator is one segment; every separator ends one
/// segment and starts the next, so the empty sequence yields one empty
/// segment and `n` separators yield `n + 1` segments.
pub open spec fn split_on(s: Seq<char>, sep: char) -> Seq<Seq<char>>
    decreases s.len(),
{
    let i = first_sep(s, sep) as int;
    if i >= s.len() {
        seq![s]
    } else {
        seq![s.subrange(0, i)] + split_on(s.subrange(i + 1, s.len() as int), sep)
    }
}

/// How often `sep` occurs in `s`.
pub open spec fn count_sep(s: Seq<char>, sep: char) -> nat
    decreases s.len(),
{
    if s.len() == 0 {
        0
    } else {
        (if s[0] == sep {
            1nat
        } else {
            0nat
        }) + count_sep(s.drop_first(), sep)
    }
}

/// `first_sep` really is the first occurrence: everything before it differs
/// from `sep`, and it is either `s.len()` or an occurrence of `sep`.
pub proof fn lemma_first_sep_props(s: Seq<char>, sep: char)
    ensures
        first_sep(s, sep) <= s.len(),
        first_sep(s, sep) < s.len() ==> s[first_sep(s, sep) as int] == sep,
        forall|k: int| 0 <= k < first_sep(s, sep) ==> s[k] != sep,
    decreases s.len(),
{
    if s.len() == 0 {
    } else if s[0] == sep {
    } else {
        let t = s.drop_first();
        lemma_first_sep_props(t, sep);
        assert forall|k: int| 0 <= k < first_sep(s, sep) implies s[k] != sep by {
            if k > 0 {
                assert(s[k] == t[k - 1]);
            }
        }
    }
}

/// A position `i` with no `sep` before it, holding `sep` unless it is the
/// end, is the first occurrence.
pub proof fn lemma_first_sep_at(s: Seq<char>, sep: char, i: int)
    requires
        0 <= i <= s.len(),
        forall|k: int| 0 <= k < i ==> s[k] != sep,
        i < s.len() ==> s[i] == sep,
    ensures
        first_sep(s, sep) == i,
    decreases i,
{
    if i == 0 {
    } else {
        assert(s[0] != sep);
        let t = s.drop_first();
        assert(forall|k: int| 0 <= k < i - 1 ==> t[k] == s[k + 1] && t[k] != sep);
        lemma_first_sep_at(t, sep, i - 1);
    }
}

/// Unfolding step of `split_on` at a known first separator position `j`:
/// the first segment is everything before `j`, the rest is the split of
/// everything after `j`.
pub proof fn lemma_split_on_step(s: Seq<char>, sep: char, j: int)
    requires
        0 <= j < s.len(),
        forall|k: int| 0 <= k < j ==> s[k] != sep,
        s[j] == sep,
    ensures
        split_on(s, sep) == seq![s.subrange(0, j)] + split_on(
            s.subrange(j + 1, s.len() as int),
            sep,
        ),
{
    lemma_first_sep_at(s, sep, j);
}

/// A sequence without any separator is a single segment.
pub proof fn lemma_split_on_whole(s: Seq<char>, sep: char)
    requires
        forall|k: int| 0 <= k < s.len() ==> s[k] != sep,
    ensures
        split_on(s, sep) == seq![s],
{
    lemma_first_sep_at(s, sep, s.len() as int);
}

/// Counting step that mirrors `lemma_split_on_step`: one separator at `i`
/// plus the separators of the remainder.
proof fn lemma_count_sep_at(s: Seq<char>, sep: char, i: int)
    requires
        0 <= i <= s.len(),
        forall|k: int| 0 <= k < i ==> s[k] != sep,
        i < s.len() ==> s[i] == sep,
    ensures
        i == s.len() ==> count_sep(s, sep) == 0,
        i < s.len() ==> count_sep(s, sep) == 1 + count_sep(
            s.subrange(i + 1, s.len() as int),
            sep,
        ),
    decreases i,
{
    if i == 0 {
        if s.len() == 0 {
        } else {
            assert(s.subrange(1, s.len() as int) =~= s.drop_first());
        }
    } else {
        assert(s[0] != sep);
        let t = s.drop_first();
        assert(forall|k: int| 0 <= k < i - 1 ==> t[k] == s[k + 1] && t[k] != sep);
        lemma_count_sep_at(t, sep, i - 1);
        if i < s.len() {
            assert(t.subrange(i, t.len() as int) =~= s.subrange(i + 1, s.len() as int));
        }
    }
}

/// Law: splitting yields exactly one segment more than there are
/// separators, so every separator occurrence contributes a segment, empty
/// segments included.
pub proof fn lemma_split_on_count(s: Seq<char>, sep: char)
    ensures
        split_on(s, sep).len() == count_sep(s, sep) + 1,
    decreases s.len(),
{
    lemma_first_sep_props(s, sep);
    let i = first_sep(s, sep) as int;
    lemma_count_sep_at(s, sep, i);
    if i < s.len() {
        lemma_split_on_count(s.subrange(i + 1, s.len() as int), sep);
    }
}

/// The segments put back together, with `sep` between neighbours.
pub open spec fn join_with(parts: Seq<Seq<char>>, sep: char) -> Seq<char>
    decreases parts.len(),
{
    if parts.len() == 0 {
        Seq::empty()
    } else if parts.len() == 1 {
        parts[0]
    } else {
        parts[0] + seq![sep] + join_with(parts.drop_first(), sep)
    }
}

/// Law: splitting loses nothing and invents nothing — no segment contains
/// the separator, and joining the segments with it restores the input
/// verbatim.
pub proof fn lemma_split_on_join(s: Seq<char>, sep: char)
    ensures
        join_with(split_on(s, sep), sep) == s,
        forall|i: int| 0 <= i < split_on(s, sep).len() ==> count_sep(
            #[trigger] split_on(s, sep)[i],
            sep,
        ) == 0,
    decreases s.len(),
{
    lemma_first_sep_props(s, sep);
    let i = first_sep(s, sep) as int;
    let parts = split_on(s, sep);
    if i >= s.len() {
        lemma_count_sep_at(s, sep, s.len() as int);
    } else {
        let head = s.subrange(0, i);
        let rest = s.subrange(i + 1, s.len() as int);
        lemma_split_on_join(rest, sep);
        lemma_split_on_count(rest, sep);
        assert(parts.drop_first() =~= split_on(rest, sep));
        assert(head + seq![sep] + join_with(split_on(rest, sep), sep) =~= s);
        lemma_count_sep_at(head, sep, head.len() as int);
        assert forall|k: int| 0 <= k < parts.len() implies count_sep(
            #[trigger] parts[k],
            sep,
        ) == 0 by {
            if k > 0 {
                assert(parts[k] == split_on(rest, sep)[k - 1]);
            }
        }
    }
}

/// Splits `raw` on commas, keeping every segment verbatim.
pub fn split_names(raw: &str) -> (names: Vec<String>)
    ensures
        names@.map_values(|n: String| n@) == split_on(raw@, ','),
{
    let n = raw.unicode_len();
    let mut names: Vec<String> = Vec::new();
    let mut start: usize = 0;
    proof {
        assert(raw@.subrange(0, n as int) =~= raw@);
        assert(names@.map_values(|t: String| t@) + split_on(raw@, ',') =~= split_on(
            raw@,
            ',',
        ));
    }
    loop
        invariant_except_break
            start <= n,
            n == raw@.len(),
            split_on(raw@, ',') == names@.map_values(|t: String| t@) + split_on(
                raw@.subrange(start as int, n as int),
                ',',
            ),
        ensures
            names@.map_values(|t: String| t@) == split_on(raw@, ','),
        decreases n - start,
    {
        let mut j = start;
        while j < n && raw.get_char(j) != ','
            invariant
                start <= j <= n,
                n == raw@.len(),
                forall|k: int| start <= k < j ==> raw@[k] != ',',
            decreases n - j,
        {
            j = j + 1;
        }
        let ghost rem = raw@.subrange(start as int, n as int);
        let ghost pre = names@.map_values(|t: String| t@);
        let seg = raw.substring_char(start, j);
        names.push(String::from_str(seg));
        proof {
            assert(forall|k: int| 0 <= k < j - start ==> rem[k] == raw@[k + start]);
            assert(names@.map_values(|t: String| t@) =~= pre.push(seg@));
        }
        if j == n {
            proof {
                assert(seg@ =~= rem);
                lemma_split_on_whole(rem, ',');
                assert(pre.push(seg@) =~= pre + seq![rem]);
            }
            break;
        }
        proof {
            assert(rem[j - start] == raw@[j as int]);
            lemma_split_on_step(rem, ',', j - start);
            assert(rem.subrange(0, j - start) =~= raw@.subrange(start as int, j as int));
            assert(rem.subrange(j - start + 1, rem.len() as int) =~= raw@.subrange(
                j + 1,
                n as int,
            ));
            assert(pre + (seq![seg@] + split_on(raw@.subrange(j + 1, n as int), ','))
                =~= pre.push(seg@) + split_on(raw@.subrange(j + 1, n as int), ','));
        }
        start = j + 1;
    }
    names
}

} // verus!
