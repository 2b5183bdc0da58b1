//! Cutting command text into pieces: arguments, pipeline stages, commands.
//!
//! Every cut works in two passes. The first scans the text with the quote
//! flags and replaces each boundary by a line feed; the second cuts the
//! marked text at the line feeds and drops the blank pieces.

use crate::quote::{advance, quotes_at, start, Quotes};
use crate::text::{blank, is_blank, is_space, is_whitespace, strs};
use vstd::prelude::*;

verus! {

/// Whether `c`, read with the flags `q`, ends an argument: a quote character
/// that opens or closes a span, or white space outside every span.
pub open spec fn is_boundary(q: Quotes, c: char) -> bool {
    ||| c == '"' && !q.single
    ||| c == '\'' && !q.double
    ||| q.outside() && is_space(c)
}

/// `s` with a line feed in place of each argument boundary.
pub open spec fn mark_args(s: Seq<char>) -> Seq<char> {
    Seq::new(
        s.len(),
        |i: int|
            if is_boundary(quotes_at(s, i), s[i]) {
                '\n'
            } else {
                s[i]
            },
    )
}

/// `s` with a line feed in place of each `sep` that stands outside every
/// quoted span, the flags taken after `sep` itself has been read.
pub open spec fn mark_seps(s: Seq<char>, sep: char) -> Seq<char> {
    Seq::new(
        s.len(),
        |i: int|
            if s[i] == sep && quotes_at(s, i + 1).outside() {
                '\n'
            } else {
                s[i]
            },
    )
}

/// `s` cut at each line feed: one piece more than `s` has line feeds.
pub open spec fn lines(s: Seq<char>) -> Seq<Seq<char>>
    decreases s.len(),
{
    if s.len() == 0 {
        seq![Seq::empty()]
    } else {
        let before = lines(s.drop_last());
        if s.last() == '\n' {
            before.push(Seq::empty())
        } else {
            before.drop_last().push(before.last().push(s.last()))
        }
    }
}

/// The pieces of `ls` that are not blank, in order.
pub open spec fn drop_blank(ls: Seq<Seq<char>>) -> Seq<Seq<char>> {
    ls.filter(|p: Seq<char>| !blank(p))
}

/// The pieces of `s` between line feeds that are not blank, in order.
pub open spec fn pieces(s: Seq<char>) -> Seq<Seq<char>> {
    drop_blank(lines(s))
}

/// The argument vector of the command `s`.
pub open spec fn tokens(s: Seq<char>) -> Seq<Seq<char>> {
    pieces(mark_args(s))
}

/// The segments of `s` between separators `sep`.
pub open spec fn segments(s: Seq<char>, sep: char) -> Seq<Seq<char>> {
    pieces(mark_seps(s, sep))
}

/// Marks the argument boundaries of one command.
pub fn parse_args(s: &str) -> (r: String)
    ensures
        r@ == mark_args(s@),
{
    let mut q = start();
    let mut r = String::new();
    for c in it: s.chars()
        invariant
            it.seq() == s@,
            q == quotes_at(s@, it.index() as int),
            r@ == mark_args(s@).take(it.index() as int),
    {
        let ghost i = it.index() as int;
        let boundary = (c == '"' && !q.single) || (c == '\'' && !q.double) || (!q.single
            && !q.double && is_whitespace(c));
        q = advance(q, c);
        if boundary {
            r.push('\n');
        } else {
            r.push(c);
        }
        assert(r@ =~= mark_args(s@).take(i + 1));
    }
    assert(mark_args(s@).take(s@.len() as int) =~= mark_args(s@));
    r
}

/// Marks each `sep` of `s` that stands outside quotes.
pub fn parse_seps(s: &str, sep: char) -> (r: String)
    ensures
        r@ == mark_seps(s@, sep),
{
    let mut q = start();
    let mut r = String::new();
    for c in it: s.chars()
        invariant
            it.seq() == s@,
            q == quotes_at(s@, it.index() as int),
            r@ == mark_seps(s@, sep).take(it.index() as int),
    {
        let ghost i = it.index() as int;
        q = advance(q, c);
        if c == sep && !q.single && !q.double {
            r.push('\n');
        } else {
            r.push(c);
        }
        assert(r@ =~= mark_seps(s@, sep).take(i + 1));
    }
    assert(mark_seps(s@, sep).take(s@.len() as int) =~= mark_seps(s@, sep));
    r
}

/// Marks the `;` that part the commands of a sequence.
pub fn parse_cmds(s: &str) -> (r: String)
    ensures
        r@ == mark_seps(s@, ';'),
{
    parse_seps(s, ';')
}

/// Marks the `|` that part the stages of a pipeline.
pub fn parse_pipes(s: &str) -> (r: String)
    ensures
        r@ == mark_seps(s@, '|'),
{
    parse_seps(s, '|')
}

proof fn lemma_lines_nonempty(s: Seq<char>)
    ensures
        lines(s).len() >= 1,
    decreases s.len(),
{
    if s.len() > 0 {
        lemma_lines_nonempty(s.drop_last());
    }
}

proof fn lemma_drop_blank_push(ls: Seq<Seq<char>>, p: Seq<char>)
    ensures
        drop_blank(ls.push(p)) == if blank(p) {
            drop_blank(ls)
        } else {
            drop_blank(ls).push(p)
        },
{
    reveal(Seq::filter);
    assert(ls.push(p).drop_last() =~= ls);
}

/// Cuts marked text at its line feeds and drops the blank pieces.
pub fn parse_argv(s: &str) -> (r: Vec<String>)
    ensures
        strs(r@) == pieces(s@),
{
    let mut out: Vec<String> = Vec::new();
    let mut cur = String::new();
    proof {
        reveal(Seq::filter);
        assert(s@.take(0) =~= Seq::<char>::empty());
        assert(lines(s@.take(0)).drop_last() =~= Seq::<Seq<char>>::empty());
        assert(strs(out@) =~= drop_blank(lines(s@.take(0)).drop_last()));
    }
    for c in it: s.chars()
        invariant
            it.seq() == s@,
            strs(out@) == drop_blank(lines(s@.take(it.index() as int)).drop_last()),
            cur@ == lines(s@.take(it.index() as int)).last(),
    {
        let ghost i = it.index() as int;
        let ghost before = lines(s@.take(i));
        proof {
            lemma_lines_nonempty(s@.take(i));
            assert(s@.take(i + 1).drop_last() =~= s@.take(i));
            assert(s@.take(i + 1).last() == c);
            assert(before =~= before.drop_last().push(before.last()));
        }
        if c == '\n' {
            proof {
                lemma_drop_blank_push(before.drop_last(), before.last());
                assert(lines(s@.take(i + 1)).drop_last() =~= before);
            }
            if !is_blank(cur.as_str()) {
                let ghost old_out = out@;
                out.push(cur);
                assert(strs(out@) =~= strs(old_out).push(cur@));
            }
            cur = String::new();
        } else {
            cur.push(c);
            assert(lines(s@.take(i + 1)).drop_last() =~= before.drop_last());
        }
    }
    proof {
        let all = lines(s@);
        assert(s@.take(s@.len() as int) =~= s@);
        lemma_lines_nonempty(s@);
        assert(all =~= all.drop_last().push(all.last()));
        lemma_drop_blank_push(all.drop_last(), all.last());
    }
    if !is_blank(cur.as_str()) {
        let ghost old_out = out@;
        out.push(cur);
        assert(strs(out@) =~= strs(old_out).push(cur@));
    }
    out
}

/// The argument vector of one command: its text cut at white space and at
/// quote characters outside quoted spans, the quote characters removed.
pub fn tokenize(text: &str) -> (argv: Vec<String>)
    ensures
        strs(argv@) == tokens(text@),
{
    let marked = parse_args(text);
    parse_argv(marked.as_str())
}

/// The non-blank segments of `text` between the separators `sep` that stand
/// outside quotes; quote characters stay in the segments.
pub fn split_segments(text: &str, sep: char) -> (segs: Vec<String>)
    ensures
        strs(segs@) == segments(text@, sep),
{
    let marked = parse_seps(text, sep);
    parse_argv(marked.as_str())
}

/// Marking keeps every character in its place, and a `sep` inside a quoted
/// span is no boundary: it stays as it is.
pub proof fn lemma_quoted_separator_stays(s: Seq<char>, sep: char, i: int)
    requires
        0 <= i < s.len(),
        !quotes_at(s, i + 1).outside(),
    ensures
        mark_seps(s, sep).len() == s.len(),
        mark_seps(s, sep)[i] == s[i],
{
}

/// No piece of cut text holds a line feed.
pub proof fn lemma_lines_hold_no_feed(s: Seq<char>, i: int, k: int)
    requires
        0 <= i < lines(s).len(),
        0 <= k < lines(s)[i].len(),
    ensures
        lines(s)[i][k] != '\n',
    decreases s.len(),
{
    if s.len() > 0 {
        let before = lines(s.drop_last());
        lemma_lines_nonempty(s.drop_last());
        if s.last() == '\n' {
            if i < before.len() {
                lemma_lines_hold_no_feed(s.drop_last(), i, k);
            }
        } else {
            if i < before.len() - 1 {
                lemma_lines_hold_no_feed(s.drop_last(), i, k);
            } else if k < before.last().len() {
                lemma_lines_hold_no_feed(s.drop_last(), i, k);
            }
        }
    }
}

/// Every piece that a cut gives holds something but white space, and no
/// line feed: no argument and no segment is empty or blank.
pub proof fn lemma_pieces_are_clean(s: Seq<char>, i: int)
    requires
        0 <= i < pieces(s).len(),
    ensures
        !blank(pieces(s)[i]),
        pieces(s)[i].len() > 0,
        forall|k: int| 0 <= k < pieces(s)[i].len() ==> #[trigger] pieces(s)[i][k] != '\n',
{
    let keep = |p: Seq<char>| !blank(p);
    let piece = pieces(s)[i];
    lines(s).lemma_filter_pred(keep, i);
    assert(lines(s).filter(keep).contains(piece));
    lines(s).lemma_filter_contains_rev(keep, piece);
    let j = choose|j: int| 0 <= j < lines(s).len() && lines(s)[j] == piece;
    assert forall|k: int| 0 <= k < piece.len() implies #[trigger] piece[k] != '\n' by {
        lemma_lines_hold_no_feed(s, j, k);
    }
}

proof fn lemma_line_chars_from_text(m: Seq<char>, i: int, k: int) -> (j: int)
    requires
        0 <= i < lines(m).len(),
        0 <= k < lines(m)[i].len(),
    ensures
        0 <= j < m.len(),
        m[j] == lines(m)[i][k],
    decreases m.len(),
{
    if m.len() == 0 {
        0
    } else {
        let before = lines(m.drop_last());
        lemma_lines_nonempty(m.drop_last());
        if m.last() == '\n' || i < before.len() - 1 || k < before.last().len() {
            lemma_line_chars_from_text(m.drop_last(), i, k)
        } else {
            m.len() - 1
        }
    }
}

proof fn lemma_piece_chars_from_text(m: Seq<char>, i: int, k: int) -> (j: int)
    requires
        0 <= i < pieces(m).len(),
        0 <= k < pieces(m)[i].len(),
    ensures
        0 <= j < m.len(),
        m[j] == pieces(m)[i][k],
        m[j] != '\n',
{
    let keep = |p: Seq<char>| !blank(p);
    let piece = pieces(m)[i];
    assert(lines(m).filter(keep).contains(piece));
    lines(m).lemma_filter_contains_rev(keep, piece);
    let l = choose|l: int| 0 <= l < lines(m).len() && lines(m)[l] == piece;
    lemma_lines_hold_no_feed(m, l, k);
    lemma_line_chars_from_text(m, l, k)
}

/// Every character of an argument stood in the text at a place that is no
/// boundary. So a quote character in an argument stood inside a span of the
/// other kind, and white space in an argument stood inside a span.
pub proof fn lemma_token_chars_are_kept(s: Seq<char>, i: int, k: int) -> (j: int)
    requires
        0 <= i < tokens(s).len(),
        0 <= k < tokens(s)[i].len(),
    ensures
        0 <= j < s.len(),
        s[j] == tokens(s)[i][k],
        !is_boundary(quotes_at(s, j), s[j]),
{
    lemma_piece_chars_from_text(mark_args(s), i, k)
}

/// Every character of a segment stood in the text, and is no separator that
/// stood outside quotes: quote characters stay in the segments.
pub proof fn lemma_segment_chars_are_kept(s: Seq<char>, sep: char, i: int, k: int) -> (j: int)
    requires
        0 <= i < segments(s, sep).len(),
        0 <= k < segments(s, sep)[i].len(),
    ensures
        0 <= j < s.len(),
        s[j] == segments(s, sep)[i][k],
        !(s[j] == sep && quotes_at(s, j + 1).outside()),
{
    lemma_piece_chars_from_text(mark_seps(s, sep), i, k)
}

proof fn lemma_quotes_stay_double(w: Seq<char>, n: int)
    requires
        1 <= n < w.len(),
        w[0] == '"',
        forall|k: int| 1 <= k < n ==> w[k] != '"',
    ensures
        quotes_at(w, n) == (Quotes { single: false, double: true }),
    decreases n,
{
    if n > 1 {
        lemma_quotes_stay_double(w, n - 1);
    } else {
        assert(quotes_at(w, 0) == crate::quote::no_quotes());
    }
}

proof fn lemma_lines_behind_feed(v: Seq<char>)
    requires
        forall|k: int| 0 <= k < v.len() ==> v[k] != '\n',
    ensures
        lines(seq!['\n'] + v) == seq![Seq::<char>::empty(), v],
    decreases v.len(),
{
    let w = seq!['\n'] + v;
    let none = Seq::<char>::empty();
    if v.len() == 0 {
        assert(w.drop_last() =~= none);
        assert(lines(none) == seq![none]);
        assert(w.last() == '\n');
        assert(v =~= none);
        assert(seq![none].push(none) =~= seq![none, v]);
    } else {
        lemma_lines_behind_feed(v.drop_last());
        assert(w.drop_last() =~= seq!['\n'] + v.drop_last());
        assert(w.last() == v.last());
        let before = seq![none, v.drop_last()];
        assert(before.last().push(v.last()) =~= v);
        assert(before.drop_last().push(v) =~= seq![none, v]);
    }
}

/// Text in double quotes that is not blank and holds neither a double quote
/// nor a line feed is one argument: the text between the quotes.
pub proof fn lemma_quoted_text_is_one_token(v: Seq<char>)
    requires
        !blank(v),
        forall|k: int| 0 <= k < v.len() ==> v[k] != '"' && v[k] != '\n',
    ensures
        tokens(seq!['"'] + v + seq!['"']) == seq![v],
{
    let w = seq!['"'] + v + seq!['"'];
    let marked = seq!['\n'] + v + seq!['\n'];
    assert forall|i: int| 0 <= i < w.len() implies mark_args(w)[i] == marked[i] by {
        if i >= 1 {
            assert forall|k: int| 1 <= k < i implies w[k] != '"' by {
                assert(w[k] == v[k - 1]);
            }
            lemma_quotes_stay_double(w, i);
            if i < w.len() - 1 {
                assert(w[i] == v[i - 1]);
            }
        }
    }
    assert(mark_args(w) =~= marked);
    let none = Seq::<char>::empty();
    lemma_lines_behind_feed(v);
    assert(marked.drop_last() =~= seq!['\n'] + v);
    assert(lines(marked) =~= seq![none, v, none]);
    let nothing = Seq::<Seq<char>>::empty();
    assert(drop_blank(nothing) =~= nothing) by {
        reveal(Seq::filter);
    }
    lemma_drop_blank_push(nothing, none);
    lemma_drop_blank_push(nothing.push(none), v);
    lemma_drop_blank_push(nothing.push(none).push(v), none);
    assert(nothing.push(none).push(v).push(none) =~= seq![none, v, none]);
    assert(drop_blank(seq![none, v, none]) =~= seq![v]);
}

} // verus!
