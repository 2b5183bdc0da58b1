//! Substituting `${name}` references in command text.

use crate::error::{text_result, Failure, ShellError};
use crate::quote::{advance, after, no_quotes, start, Quotes};
use crate::text::{blank, chars_of, string_of};
use crate::token::{lemma_quoted_text_is_one_token, tokens};
use vstd::hash_map::StringHashMap;
use vstd::prelude::*;

verus! {

/// The values of the variables that command text may refer to, by name.
pub struct SymbolTable {
    map: StringHashMap<String>,
}

impl View for SymbolTable {
    type V = Map<Seq<char>, Seq<char>>;

    closed spec fn view(&self) -> Map<Seq<char>, Seq<char>> {
        self.map@.map_values(|v: String| v@)
    }
}

impl SymbolTable {
    /// A table without entries.
    pub fn new() -> (t: SymbolTable)
        ensures
            t@ == Map::<Seq<char>, Seq<char>>::empty(),
    {
        let t = SymbolTable { map: StringHashMap::new() };
        assert(t@ =~= Map::<Seq<char>, Seq<char>>::empty());
        t
    }

    /// Gives `name` the value `value`, in place of any value it had.
    pub fn insert(&mut self, name: String, value: String)
        ensures
            final(self)@ == old(self)@.insert(name@, value@),
    {
        self.map.insert(name, value);
        assert(self@ =~= old(self)@.insert(name@, value@));
    }

    /// The value of `name`, if it has one.
    pub fn get(&self, name: &str) -> (r: Option<&String>)
        ensures
            match r {
                Some(v) => self@.contains_key(name@) && v@ == self@[name@],
                None => !self@.contains_key(name@),
            },
    {
        self.map.get(name)
    }
}

/// Whether `c` ends the reading of a name: the closing brace, or one of the
/// characters before which a reference must have closed.
pub open spec fn ends_name(c: char) -> bool {
    c == '}' || c == ';' || c == '\n'
}

/// Where the reading of a name that starts at `from` stops: at the first
/// character from there on that ends a name, or at the end of `s`.
pub open spec fn name_stop(s: Seq<char>, from: int) -> int
    decreases s.len() - from,
{
    if from < 0 || from >= s.len() {
        s.len() as int
    } else if ends_name(s[from]) {
        from
    } else {
        name_stop(s, from + 1)
    }
}

/// Whether a reference opens at `i`, read with the flags `q`: a `$` with a
/// `{` behind it, outside single quotes.
pub open spec fn opens_reference(s: Seq<char>, i: int, q: Quotes) -> bool {
    !q.single && 0 <= i && i + 1 < s.len() && s[i] == '$' && s[i + 1] == '{'
}

/// What takes the place of a reference to a variable with this value: the
/// value as it is inside double quotes, the value in double quotes elsewhere.
pub open spec fn spliced(value: Seq<char>, in_double: bool) -> Seq<char> {
    if in_double {
        value
    } else {
        seq!['"'] + value + seq!['"']
    }
}

/// `r` with `head` in front of its text.
pub open spec fn behind(head: Seq<char>, r: Result<Seq<char>, Failure>) -> Result<
    Seq<char>,
    Failure,
> {
    match r {
        Ok(rest) => Ok(head + rest),
        Err(e) => Err(e),
    }
}

/// The resolution of `s` from `i` on, where the scan arrives with the flags
/// `q`. The first reference that is broken or undefined decides the failure.
pub open spec fn resolve_from(
    s: Seq<char>,
    table: Map<Seq<char>, Seq<char>>,
    i: int,
    q: Quotes,
) -> Result<Seq<char>, Failure>
    decreases s.len() - i,
{
    if i < 0 || i >= s.len() {
        Ok(Seq::empty())
    } else {
        let q = after(q, s[i]);
        if opens_reference(s, i, q) {
            let stop = name_stop(s, i + 2);
            let name = s.subrange(i + 2, stop);
            if stop >= s.len() || s[stop] != '}' {
                Err(Failure::MalformedReference { name })
            } else if !table.contains_key(name) {
                Err(Failure::UndefinedVariable { name })
            } else {
                proof {
                    lemma_name_stop_bounds(s, i + 2);
                }
                behind(spliced(table[name], q.double), resolve_from(s, table, stop + 1, q))
            }
        } else {
            behind(seq![s[i]], resolve_from(s, table, i + 1, q))
        }
    }
}

/// `s` with each reference replaced by the value of its variable.
pub open spec fn resolved(s: Seq<char>, table: Map<Seq<char>, Seq<char>>) -> Result<
    Seq<char>,
    Failure,
> {
    resolve_from(s, table, 0, no_quotes())
}

/// The reading of a name stops at or behind the place where it starts, and
/// not behind the end of the text.
pub proof fn lemma_name_stop_bounds(s: Seq<char>, from: int)
    requires
        0 <= from <= s.len(),
    ensures
        from <= name_stop(s, from) <= s.len(),
    decreases s.len() - from,
{
    if from < s.len() && !ends_name(s[from]) {
        lemma_name_stop_bounds(s, from + 1);
    }
}

/// Replaces each `${name}` in `src` that stands outside single quotes by the
/// value that `st` gives to `name`: as it is inside double quotes, wrapped in
/// double quotes elsewhere. Fails at the first reference that is not closed
/// or whose name `st` does not hold.
pub fn resolve_name(src: &str, st: &SymbolTable) -> (r: Result<String, ShellError>)
    ensures
        text_result(r) == resolved(src@, st@),
{
    let input = chars_of(src);
    let len = input.len();
    let mut output = String::new();
    let mut q = start();
    let mut i: usize = 0;
    while i < len
        invariant
            i <= len == input.len(),
            input@ == src@,
            resolved(src@, st@) == behind(output@, resolve_from(src@, st@, i as int, q)),
        decreases len - i,
    {
        let c = input[i];
        q = advance(q, c);
        if !q.single && c == '$' && i + 1 < len && input[i + 1] == '{' {
            let from = i + 2;
            let mut stop: usize = from;
            while stop < len && !(input[stop] == '}' || input[stop] == ';' || input[stop] == '\n')
                invariant
                    from <= stop <= len == input.len(),
                    input@ == src@,
                    name_stop(src@, from as int) == name_stop(src@, stop as int),
                decreases len - stop,
            {
                stop += 1;
            }
            let name = string_of(&input, from, stop);
            if stop >= len || input[stop] != '}' {
                return Err(ShellError::MalformedReference { name });
            }
            match st.get(name.as_str()) {
                None => {
                    return Err(ShellError::UndefinedVariable { name });
                },
                Some(value) => {
                    let ghost before = output@;
                    if q.double {
                        output.append(value.as_str());
                    } else {
                        output.push('"');
                        output.append(value.as_str());
                        output.push('"');
                    }
                    assert(output@ =~= before + spliced(value@, q.double));
                    proof {
                        let rest = resolve_from(src@, st@, stop + 1, q);
                        if let Ok(tail) = rest {
                            assert(before + (spliced(value@, q.double) + tail) =~= output@ + tail);
                        }
                    }
                },
            }
            i = stop + 1;
        } else {
            let ghost before = output@;
            output.push(c);
            proof {
                let rest = resolve_from(src@, st@, i + 1, q);
                if let Ok(tail) = rest {
                    assert(before + (seq![c] + tail) =~= output@ + tail);
                }
            }
            i += 1;
        }
    }
    assert(output@ + Seq::<char>::empty() =~= output@);
    Ok(output)
}

proof fn lemma_plain_from(s: Seq<char>, table: Map<Seq<char>, Seq<char>>, i: int, q: Quotes)
    requires
        0 <= i <= s.len(),
        forall|k: int| 0 <= k < s.len() ==> s[k] != '$',
    ensures
        resolve_from(s, table, i, q) == Ok::<Seq<char>, Failure>(s.skip(i)),
    decreases s.len() - i,
{
    if i < s.len() {
        lemma_plain_from(s, table, i + 1, after(q, s[i]));
        assert(seq![s[i]] + s.skip(i + 1) =~= s.skip(i));
    } else {
        assert(s.skip(i) =~= Seq::<char>::empty());
    }
}

/// Text without a `$` resolves to itself, whatever the table holds.
pub proof fn lemma_plain_text_resolves_to_itself(s: Seq<char>, table: Map<Seq<char>, Seq<char>>)
    requires
        forall|k: int| 0 <= k < s.len() ==> s[k] != '$',
    ensures
        resolved(s, table) == Ok::<Seq<char>, Failure>(s),
{
    lemma_plain_from(s, table, 0, no_quotes());
    assert(s.skip(0) =~= s);
}

/// What takes the place of a reference outside quotes is one argument, the
/// value itself, where the value is not blank and holds neither a double
/// quote nor a line feed: white space in a value parts no arguments.
pub proof fn lemma_bare_value_is_one_token(value: Seq<char>)
    requires
        !blank(value),
        forall|k: int| 0 <= k < value.len() ==> value[k] != '"' && value[k] != '\n',
    ensures
        tokens(spliced(value, false)) == seq![value],
{
    lemma_quoted_text_is_one_token(value);
}

} // verus!
