//! The document abstraction that property lookups run against.
//!
//! A [`Document`] is the keyed view a display adapter needs from a parsed
//! document: for each known property name it records what a lookup returns —
//! a result kind (a property value, or some other kind of result), or a
//! lookup failure. Names that no entry covers look up as "no value".

use vstd::prelude::*;

verus! {

/// What a successful lookup can hand back: a property value carrying its
/// displayable text, or some other result kind that carries no property
/// value.
pub enum ResultKind {
    Property(String),
    Other,
}

/// The single error kind a lookup can fail with: the document could not
/// resolve the name, for whatever document-internal reason.
pub struct LookupError {}

/// How the document answers a lookup for one recorded name.
pub enum LookupBehavior {
    /// The lookup succeeds and returns this result kind.
    Found(ResultKind),
    /// The lookup fails with a [`LookupError`].
    Fails,
}

/// A document, seen as an ordered list of `(name, behavior)` entries; the
/// first entry for a name decides its lookup.
pub struct Document {
    entries: Vec<(String, LookupBehavior)>,
}

/// The first entry recorded for `name`, if any.
pub open spec fn find_entry(
    entries: Seq<(String, LookupBehavior)>,
    name: Seq<char>,
) -> Option<LookupBehavior>
    decreases entries.len(),
{
    if entries.len() == 0 {
        None
    } else if entries[0].0@ == name {
        Some(entries[0].1)
    } else {
        find_entry(entries.drop_first(), name)
    }
}

impl View for Document {
    type V = Seq<(String, LookupBehavior)>;

    closed spec fn view(&self) -> Seq<(String, LookupBehavior)> {
        self.entries@
    }
}

impl Document {
    /// A document with no recorded properties: every lookup returns
    /// "no value".
    pub fn new() -> (d: Document)
        ensures
            d@ == Seq::<(String, LookupBehavior)>::empty(),
    {
        Document { entries: Vec::new() }
    }

    /// Records one more entry; it only takes effect for names that no
    /// earlier entry covers.
    pub fn push_entry(&mut self, name: String, behavior: LookupBehavior)
        ensures
            final (self)@ == old(self)@.push((name, behavior)),
    {
        self.entries.push((name, behavior));
    }

    /// Looks `name` up: the first recorded entry for it decides the result,
    /// and a name without an entry resolves to no value.
    pub fn lookup(&self, name: &String) -> (r: Result<Option<&ResultKind>, LookupError>)
        ensures
            match find_entry(self@, name@) {
                Option::None => r matches Ok(None),
                Option::Some(b) => match b {
                    LookupBehavior::Found(k) => r matches Ok(Some(found)) && *found == k,
                    LookupBehavior::Fails => r matches Err(_),
                },
            },
    {
        let mut i: usize = 0;
        proof {
            assert(self@.subrange(0, self@.len() as int) =~= self@);
        }
        while i < self.entries.len()
            invariant
                i <= self.entries@.len(),
                find_entry(self@, name@) == find_entry(
                    self@.subrange(i as int, self@.len() as int),
                    name@,
                ),
            decreases self.entries@.len() - i,
        {
            proof {
                assert(self@.subrange(i as int, self@.len() as int)[0] == self@[i as int]);
            }
            if self.entries[i].0.eq(name) {
                return match &self.entries[i].1 {
                    LookupBehavior::Found(k) => Ok(Some(k)),
                    LookupBehavior::Fails => Err(LookupError {}),
                };
            }
            proof {
                assert(self@.subrange(i as int, self@.len() as int).drop_first()
                    =~= self@.subrange(i + 1, self@.len() as int));
            }
            i = i + 1;
        }
        Ok(None)
    }
}

} // verus!
