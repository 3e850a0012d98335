//! The Oracle: a piece of wisdom drawn from the codex.

use vstd::prelude::*;
use crate::repository::QuoteRow;
use crate::text::{chars_of, push_all, string_of};

verus! {

/// The Oracle's answer from a random quote and a random glossary entry: the
/// quote with its attribution when there is one, else `term: definition`
/// with no source, else nothing.
pub open spec fn spec_wisdom(
    quote: Option<(Seq<char>, Option<Seq<char>>)>,
    entry: Option<(Seq<char>, Seq<char>)>,
) -> Option<(Seq<char>, Option<Seq<char>>)> {
    match quote {
        Some(q) => Some(q),
        None => match entry {
            Some((term, definition)) => Some((term + ": "@ + definition, None)),
            None => None,
        },
    }
}

pub open spec fn opt_view(o: Option<String>) -> Option<Seq<char>> {
    match o {
        Some(s) => Some(s@),
        None => None,
    }
}

/// Picks the Oracle's wisdom (see [`spec_wisdom`]). The glossary entry is
/// only read when there is no quote, so a caller may skip drawing it then.
pub fn wisdom_from(quote: Option<QuoteRow>, entry: Option<(String, String)>) -> (r: Option<
    (String, Option<String>),
>)
    ensures
        match r {
            Some((w, s)) => spec_wisdom(
                match quote {
                    Some(q) => Some((q.0@, opt_view(q.1))),
                    None => None,
                },
                match entry {
                    Some(e) => Some((e.0@, e.1@)),
                    None => None,
                },
            ) == Some((w@, opt_view(s))),
            None => quote is None && entry is None,
        },
{
    match quote {
        Some((text, attribution, _book)) => Some((text, attribution)),
        None => match entry {
            Some((term, definition)) => {
                let mut out = chars_of(term.as_str());
                push_all(&mut out, &chars_of(": "));
                push_all(&mut out, &chars_of(definition.as_str()));
                Some((string_of(&out), None))
            },
            None => None,
        },
    }
}

} // verus!
