//! Display form of a path with every backslash written as a forward slash,
//! so that messages naming paths read the same on every platform.

use crate::text::push_char;
use vstd::prelude::*;

verus! {

/// `s` with each backslash replaced by a forward slash.
pub open spec fn slashed(s: Seq<char>) -> Seq<char> {
    s.map_values(|c: char| if c == '\\' { '/' } else { c })
}

/// Formats a path's text with forward slashes only.
pub fn slash_text(s: &str) -> (r: String)
    ensures
        r@ == slashed(s@),
{
    let n = s.unicode_len();
    let mut r = String::new();
    let mut i: usize = 0;
    while i < n
        invariant
            n == s@.len(),
            i <= n,
            r@ == slashed(s@.subrange(0, i as int)),
        decreases n - i,
    {
        let c = s.get_char(i);
        let d = if c == '\\' { '/' } else { c };
        push_char(&mut r, d);
        i = i + 1;
        assert(r@ =~= slashed(s@.subrange(0, i as int)));
    }
    assert(s@.subrange(0, n as int) =~= s@);
    r
}

/// A value whose display text can be given with forward slashes only.
pub trait SlashFmt {
    /// The text that is formatted.
    spec fn display_text(&self) -> Seq<char>;

    fn to_slash_fmt(&self) -> (r: String)
        ensures
            r@ == slashed(self.display_text()),
    ;
}

impl SlashFmt for str {
    open spec fn display_text(&self) -> Seq<char> {
        self@
    }

    fn to_slash_fmt(&self) -> (r: String) {
        slash_text(self)
    }
}

impl SlashFmt for String {
    open spec fn display_text(&self) -> Seq<char> {
        self@
    }

    fn to_slash_fmt(&self) -> (r: String) {
        slash_text(self.as_str())
    }
}

} // verus!
