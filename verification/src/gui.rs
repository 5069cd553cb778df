//! Decision rules the interactive front-end applies: which stock
//! price stands in for an empty form field, and which validation
//! color each field gets after a configuration attempt.
use vstd::prelude::*;
use crate::ConfigParse;

verus! {

/// Validation color of a form field: untouched, accepted, or
/// rejected.
#[derive(Clone, Copy, Debug, PartialEq, Eq, Structural)]
pub enum Theme {
    Normal,
    Good,
    Bad,
}

impl Default for Theme {
    fn default() -> (t: Theme)
        ensures
            t == Theme::Normal,
    {
        Theme::Normal
    }
}

/// An empty form field falls back to its stock price text; anything
/// typed is taken as is.
pub fn price_or_default<'a>(value: &'a str, default: &'a str) -> (r: &'a str)
    ensures
        value@.len() == 0 ==> r@ == default@,
        value@.len() > 0 ==> r@ == value@,
{
    if value.unicode_len() == 0 {
        default
    } else {
        value
    }
}

/// The color each of the four price fields gets after a
/// configuration attempt: all plain on success, otherwise red for
/// the rejected fields and green for the accepted ones.
pub fn field_themes(parse: &ConfigParse) -> (v: Vec<Theme>)
    requires
        parse.errors@.len() == 4,
    ensures
        v@.len() == 4,
        parse.config is Some ==> forall|i: int| 0 <= i < 4 ==> v@[i] == Theme::Normal,
        parse.config is None ==> forall|i: int|
            0 <= i < 4 ==> v@[i] == (if parse.errors@[i] {
                Theme::Bad
            } else {
                Theme::Good
            }),
{
    let mut v: Vec<Theme> = Vec::new();
    match parse.config {
        Some(_) => {
            v.push(Theme::Normal);
            v.push(Theme::Normal);
            v.push(Theme::Normal);
            v.push(Theme::Normal);
        },
        None => {
            let mut i: usize = 0;
            while i < 4
                invariant
                    0 <= i <= 4,
                    parse.errors@.len() == 4,
                    v@.len() == i,
                    forall|j: int|
                        0 <= j < i ==> v@[j] == (if parse.errors@[j] {
                            Theme::Bad
                        } else {
                            Theme::Good
                        }),
                decreases 4 - i,
            {
                if parse.errors[i] {
                    v.push(Theme::Bad);
                } else {
                    v.push(Theme::Good);
                }
                i = i + 1;
            }
        },
    }
    v
}

} // verus!
