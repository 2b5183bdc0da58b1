//! Characters and character sequences: white space, blank text, trimming.

use vstd::prelude::*;

verus! {

/// `String::push` of the standard library: the string afterwards is the
/// string before with `c` appended to its end.
pub assume_specification[ String::push ](s: &mut String, c: char)
    ensures
        final(s)@ == old(s)@.push(c),
;

/// White space: the code points that carry Unicode's `White_Space` property.
pub open spec fn is_space(c: char) -> bool {
    let u = c as u32;
    ||| 0x09 <= u <= 0x0D
    ||| u == 0x20
    ||| u == 0x85
    ||| u == 0xA0
    ||| u == 0x1680
    ||| 0x2000 <= u <= 0x200A
    ||| u == 0x2028
    ||| u == 0x2029
    ||| u == 0x202F
    ||| u == 0x205F
    ||| u == 0x3000
}

/// Text that holds nothing but white space; the empty text is blank.
pub open spec fn blank(s: Seq<char>) -> bool {
    forall|i: int| 0 <= i < s.len() ==> is_space(#[trigger] s[i])
}

/// The texts of a list of strings, in order.
pub open spec fn strs(v: Seq<String>) -> Seq<Seq<char>> {
    Seq::new(v.len(), |i: int| v[i]@)
}

/// `s` without its leading white space.
pub open spec fn trim_start(s: Seq<char>) -> Seq<char>
    decreases s.len(),
{
    if s.len() > 0 && is_space(s[0]) {
        trim_start(s.drop_first())
    } else {
        s
    }
}

/// `s` without its trailing white space.
pub open spec fn trim_end(s: Seq<char>) -> Seq<char>
    decreases s.len(),
{
    if s.len() > 0 && is_space(s.last()) {
        trim_end(s.drop_last())
    } else {
        s
    }
}

/// `s` without its leading and trailing white space.
pub open spec fn trimmed(s: Seq<char>) -> Seq<char> {
    trim_end(trim_start(s))
}

/// Whether `c` is white space.
pub fn is_whitespace(c: char) -> (b: bool)
    ensures
        b == is_space(c),
{
    let u: u32 = c as u32;
    (0x09 <= u && u <= 0x0D) || u == 0x20 || u == 0x85 || u == 0xA0 || u == 0x1680 || (0x2000 <= u
        && u <= 0x200A) || u == 0x2028 || u == 0x2029 || u == 0x202F || u == 0x205F || u == 0x3000
}

/// The characters of `s`, one element each.
pub(crate) fn chars_of(s: &str) -> (v: Vec<char>)
    ensures
        v@ == s@,
{
    let mut v: Vec<char> = Vec::new();
    for c in it: s.chars()
        invariant
            v@ == s@.take(it.index() as int),
            it.seq() == s@,
    {
        v.push(c);
    }
    v
}

/// The characters `v[from..to]` as a string.
pub(crate) fn string_of(v: &Vec<char>, from: usize, to: usize) -> (r: String)
    requires
        from <= to <= v.len(),
    ensures
        r@ == v@.subrange(from as int, to as int),
{
    let mut r = String::new();
    let mut i: usize = from;
    while i < to
        invariant
            from <= i <= to <= v.len(),
            r@ == v@.subrange(from as int, i as int),
        decreases to - i,
    {
        r.push(v[i]);
        i += 1;
    }
    r
}

/// Whether `s` is blank.
pub fn is_blank(s: &str) -> (b: bool)
    ensures
        b == blank(s@),
{
    for c in it: s.chars()
        invariant
            it.seq() == s@,
            blank(s@.take(it.index() as int)),
    {
        if !is_whitespace(c) {
            return false;
        }
    }
    assert(s@.take(s@.len() as int) =~= s@);
    true
}

proof fn lemma_trim_start_skip(s: Seq<char>, i: int)
    requires
        0 <= i <= s.len(),
        blank(s.take(i)),
    ensures
        trim_start(s) == trim_start(s.skip(i)),
    decreases i,
{
    if i > 0 {
        assert(s.take(i)[0] == s[0]);
        assert forall|k: int| 0 <= k < i - 1 implies is_space(
            #[trigger] s.drop_first().take(i - 1)[k],
        ) by {
            assert(s.take(i)[k + 1] == s.drop_first().take(i - 1)[k]);
        }
        lemma_trim_start_skip(s.drop_first(), i - 1);
        assert(s.drop_first().skip(i - 1) =~= s.skip(i));
    } else {
        assert(s.skip(0) =~= s);
    }
}

proof fn lemma_trim_end_take(s: Seq<char>, j: int)
    requires
        0 <= j <= s.len(),
        blank(s.skip(j)),
    ensures
        trim_end(s) == trim_end(s.take(j)),
    decreases s.len() - j,
{
    if j < s.len() {
        assert(s.skip(j)[s.len() - j - 1] == s.last());
        assert forall|k: int| 0 <= k < s.len() - 1 - j implies is_space(
            #[trigger] s.drop_last().skip(j)[k],
        ) by {
            assert(s.skip(j)[k] == s.drop_last().skip(j)[k]);
        }
        lemma_trim_end_take(s.drop_last(), j);
        assert(s.drop_last().take(j) =~= s.take(j));
    } else {
        assert(s.take(j) =~= s);
    }
}

/// `s` without its leading and trailing white space.
pub fn trim(s: &str) -> (r: String)
    ensures
        r@ == trimmed(s@),
{
    let v = chars_of(s);
    let n = v.len();
    let mut i: usize = 0;
    while i < n && is_whitespace(v[i])
        invariant
            i <= n == v.len(),
            blank(v@.take(i as int)),
        decreases n - i,
    {
        i += 1;
    }
    let mut j: usize = n;
    while j > i && is_whitespace(v[j - 1])
        invariant
            i <= j <= n == v.len(),
            forall|k: int| j <= k < n ==> is_space(#[trigger] v@[k]),
        decreases j,
    {
        j -= 1;
    }
    proof {
        let rest = v@.skip(i as int);
        assert forall|k: int| 0 <= k < rest.skip(j - i).len() implies is_space(
            #[trigger] rest.skip(j - i)[k],
        ) by {
            assert(rest.skip(j - i)[k] == v@[j + k]);
        }
        lemma_trim_start_skip(v@, i as int);
        assert(trim_start(rest) == rest);
        lemma_trim_end_take(rest, j - i);
        assert(rest.take(j - i) =~= v@.subrange(i as int, j as int));
        assert(trim_end(v@.subrange(i as int, j as int)) == v@.subrange(i as int, j as int));
    }
    string_of(&v, i, j)
}

} // verus!
