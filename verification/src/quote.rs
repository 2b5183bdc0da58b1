//! Quote tracking: which kind of quoted span, if any, a scan is inside.

use vstd::prelude::*;

verus! {

/// The two quote flags of a scan.
#[derive(Clone, Copy, Debug, PartialEq, Eq, Structural)]
pub struct Quotes {
    pub single: bool,
    pub double: bool,
}

impl Quotes {
    /// Outside every quoted span.
    pub open spec fn outside(self) -> bool {
        !self.single && !self.double
    }
}

/// The flags before any character has been read.
pub open spec fn no_quotes() -> Quotes {
    Quotes { single: false, double: false }
}

/// The flags after reading `c` in state `q`: `"` toggles the double flag
/// unless inside single quotes, `'` toggles the single flag unless inside
/// double quotes, every other character leaves both as they are.
pub open spec fn after(q: Quotes, c: char) -> Quotes {
    if c == '"' && !q.single {
        Quotes { single: q.single, double: !q.double }
    } else if c == '\'' && !q.double {
        Quotes { single: !q.single, double: q.double }
    } else {
        q
    }
}

/// The flags after reading the first `n` characters of `s`.
pub open spec fn quotes_at(s: Seq<char>, n: int) -> Quotes
    decreases n,
{
    if n <= 0 {
        no_quotes()
    } else {
        after(quotes_at(s, n - 1), s[n - 1])
    }
}

/// Starts a scan outside every quoted span.
pub fn start() -> (q: Quotes)
    ensures
        q == no_quotes(),
{
    Quotes { single: false, double: false }
}

/// Reads one character.
pub fn advance(q: Quotes, c: char) -> (r: Quotes)
    ensures
        r == after(q, c),
{
    if c == '"' && !q.single {
        Quotes { single: q.single, double: !q.double }
    } else if c == '\'' && !q.double {
        Quotes { single: !q.single, double: q.double }
    } else {
        q
    }
}

/// A scan is never inside a single-quoted and a double-quoted span at once.
pub proof fn lemma_quotes_exclusive(s: Seq<char>, n: int)
    ensures
        !(quotes_at(s, n).single && quotes_at(s, n).double),
    decreases n,
{
    if n > 0 {
        lemma_quotes_exclusive(s, n - 1);
    }
}

} // verus!
