//! Cutting a character sequence into pieces: at a separator, at runs of
//! whitespace, at line endings; and joining pieces again.

use crate::text::{find_char, is_space, is_whitespace, position, trimmed_start};
use vstd::prelude::*;

verus! {

/// The character sequences that the slices of `parts` hold.
pub open spec fn views(parts: Seq<&[char]>) -> Seq<Seq<char>> {
    Seq::new(parts.len(), |i: int| parts[i]@)
}

/// The pieces of `s` between the occurrences of `sep`. There is always at
/// least one piece; two separators in a row enclose an empty piece.
pub open spec fn pieces(s: Seq<char>, sep: char) -> Seq<Seq<char>>
    decreases s.len(),
{
    let i = position(s, sep);
    if 0 <= i < s.len() {
        seq![s.take(i)] + pieces(s.skip(i + 1), sep)
    } else {
        seq![s]
    }
}

/// A sequence without the separator is its own single piece.
pub proof fn lemma_pieces_single(s: Seq<char>, sep: char)
    requires
        !s.contains(sep),
    ensures
        pieces(s, sep) == seq![s],
{
    crate::text::lemma_position(s, sep);
}

/// Where `a` holds no separator, the pieces of `a`, a separator and `b` are
/// `a` followed by the pieces of `b`.
pub proof fn lemma_pieces_cons(a: Seq<char>, sep: char, b: Seq<char>)
    requires
        !a.contains(sep),
    ensures
        pieces(a + seq![sep] + b, sep) == seq![a] + pieces(b, sep),
{
    let s = a + seq![sep] + b;
    assert forall|j: int| 0 <= j < a.len() implies s[j] != sep by {
        assert(s[j] == a[j]);
        assert(a.contains(a[j]));
    }
    assert(s[a.len() as int] == sep);
    crate::text::lemma_position_is(s, sep, a.len() as int);
    assert(s.take(a.len() as int) == a);
    assert(s.skip(a.len() as int + 1) == b);
}

/// Cuts `s` at every `sep`.
pub fn split<'a>(s: &'a [char], sep: char) -> (parts: Vec<&'a [char]>)
    ensures
        views(parts@) == pieces(s@, sep),
        parts@.len() >= 1,
{
    let mut parts: Vec<&'a [char]> = Vec::new();
    let mut start: usize = 0;
    let n = s.len();
    assert(s@.skip(0) == s@);
    assert(views(parts@) == Seq::<Seq<char>>::empty());
    loop
        invariant_except_break
            pieces(s@, sep) == views(parts@) + pieces(s@.skip(start as int), sep),
        invariant
            n == s@.len(),
            start <= n,
        ensures
            views(parts@) == pieces(s@, sep),
            parts@.len() >= 1,
        decreases n - start,
    {
        let rest = &s[start..n];
        assert(rest@ == s@.skip(start as int));
        let ghost before = views(parts@);
        match find_char(rest, sep) {
            Some(i) => {
                parts.push(&rest[0..i]);
                proof {
                    assert(views(parts@) == before.push(rest@.take(i as int)));
                    assert(rest@.skip(i as int + 1) == s@.skip(start as int + i as int + 1));
                    assert(before + (seq![rest@.take(i as int)] + pieces(
                        rest@.skip(i as int + 1),
                        sep,
                    )) == before.push(rest@.take(i as int)) + pieces(rest@.skip(i as int + 1), sep));
                }
                start = start + i + 1;
            },
            None => {
                parts.push(rest);
                proof {
                    assert(views(parts@) == before.push(rest@));
                    assert(before + seq![rest@] == before.push(rest@));
                }
                break ;
            },
        }
    }
    parts
}

/// The number of characters before the first whitespace of `s`.
pub open spec fn word_len(s: Seq<char>) -> int
    decreases s.len(),
{
    if s.len() == 0 || is_whitespace(s[0]) {
        0
    } else {
        1 + word_len(s.drop_first())
    }
}

/// The maximal runs of characters of `s` that are not whitespace, in order.
pub open spec fn words(s: Seq<char>) -> Seq<Seq<char>>
    decreases s.len(),
{
    let t = trimmed_start(s);
    let n = word_len(t);
    if 0 < n <= t.len() <= s.len() {
        seq![t.take(n)] + words(t.skip(n))
    } else {
        Seq::empty()
    }
}

/// The first word ends within the sequence, and is not empty where the
/// sequence begins with a character that is no whitespace.
pub proof fn lemma_word_len(s: Seq<char>)
    ensures
        0 <= word_len(s) <= s.len(),
        s.len() > 0 && !is_whitespace(s[0]) ==> word_len(s) >= 1,
        forall|j: int| 0 <= j < word_len(s) ==> !is_whitespace(s[j]),
        word_len(s) < s.len() ==> is_whitespace(s[word_len(s)]),
    decreases s.len(),
{
    if s.len() == 0 || is_whitespace(s[0]) {
    } else {
        let t = s.drop_first();
        lemma_word_len(t);
        assert forall|j: int| 0 <= j < word_len(s) implies !is_whitespace(s[j]) by {
            if j > 0 {
                assert(s[j] == t[j - 1]);
            }
        }
    }
}

/// The index of the first character at or after `from` that is no
/// whitespace.
fn skip_spaces(s: &[char], from: usize) -> (a: usize)
    requires
        from <= s@.len(),
    ensures
        from <= a <= s@.len(),
        trimmed_start(s@.skip(from as int)) == s@.skip(a as int),
{
    let mut a = from;
    while a < s.len() && is_space(s[a])
        invariant
            from <= a <= s@.len(),
            trimmed_start(s@.skip(from as int)) == trimmed_start(s@.skip(a as int)),
        decreases s@.len() - a,
    {
        assert(s@.skip(a as int).drop_first() == s@.skip(a as int + 1));
        a += 1;
    }
    a
}

/// The index of the first whitespace at or after `from`.
fn skip_word(s: &[char], from: usize) -> (b: usize)
    requires
        from <= s@.len(),
    ensures
        from <= b <= s@.len(),
        word_len(s@.skip(from as int)) == b - from,
{
    let mut b = from;
    while b < s.len() && !is_space(s[b])
        invariant
            from <= b <= s@.len(),
            word_len(s@.skip(from as int)) == (b - from) + word_len(s@.skip(b as int)),
        decreases s@.len() - b,
    {
        assert(s@.skip(b as int).drop_first() == s@.skip(b as int + 1));
        b += 1;
    }
    b
}

/// Cuts `s` at runs of whitespace; no piece is empty.
pub fn split_whitespace<'a>(s: &'a [char]) -> (parts: Vec<&'a [char]>)
    ensures
        views(parts@) == words(s@),
{
    let mut parts: Vec<&'a [char]> = Vec::new();
    let mut i: usize = 0;
    let n = s.len();
    assert(s@.skip(0) == s@);
    assert(views(parts@) == Seq::<Seq<char>>::empty());
    loop
        invariant_except_break
            words(s@) == views(parts@) + words(s@.skip(i as int)),
        invariant
            n == s@.len(),
            i <= n,
        ensures
            views(parts@) == words(s@),
        decreases n - i,
    {
        let a = skip_spaces(s, i);
        let b = skip_word(s, a);
        let ghost cur = s@.skip(i as int);
        let ghost t = s@.skip(a as int);
        proof {
            lemma_word_len(t);
        }
        if b == a {
            assert(words(cur) == Seq::<Seq<char>>::empty());
            assert(views(parts@) + Seq::<Seq<char>>::empty() == views(parts@));
            break ;
        }
        let ghost before = views(parts@);
        parts.push(&s[a..b]);
        proof {
            assert(t.take(b - a) == s@.subrange(a as int, b as int));
            assert(t.skip(b - a) == s@.skip(b as int));
            assert(views(parts@) == before.push(t.take(b - a)));
            assert(words(cur) == seq![t.take(b - a)] + words(t.skip(b - a)));
            assert(before + (seq![t.take(b - a)] + words(t.skip(b - a))) == before.push(
                t.take(b - a),
            ) + words(t.skip(b - a)));
        }
        i = b;
    }
    parts
}

/// `line` without one carriage return at its end.
pub open spec fn without_return(line: Seq<char>) -> Seq<char> {
    if line.len() > 0 && line.last() == '\r' {
        line.drop_last()
    } else {
        line
    }
}

/// The lines of `s`. A line ends at a line feed, or at a carriage return
/// directly followed by a line feed, neither of which belongs to the line;
/// characters after the last line feed are a line of their own as they stand.
pub open spec fn lines_of(s: Seq<char>) -> Seq<Seq<char>>
    decreases s.len(),
{
    let i = position(s, '\n');
    if s.len() == 0 {
        Seq::empty()
    } else if 0 <= i < s.len() {
        seq![without_return(s.take(i))] + lines_of(s.skip(i + 1))
    } else {
        seq![s]
    }
}

/// Cuts `s` into its lines.
pub fn lines<'a>(s: &'a [char]) -> (parts: Vec<&'a [char]>)
    ensures
        views(parts@) == lines_of(s@),
{
    let mut parts: Vec<&'a [char]> = Vec::new();
    let mut start: usize = 0;
    let n = s.len();
    assert(s@.skip(0) == s@);
    assert(views(parts@) == Seq::<Seq<char>>::empty());
    while start < n
        invariant
            n == s@.len(),
            start <= n,
            lines_of(s@) == views(parts@) + lines_of(s@.skip(start as int)),
        decreases n - start,
    {
        let rest = &s[start..n];
        assert(rest@ == s@.skip(start as int));
        let ghost before = views(parts@);
        match find_char(rest, '\n') {
            Some(i) => {
                let end = if i > 0 && rest[i - 1] == '\r' {
                    i - 1
                } else {
                    i
                };
                parts.push(&rest[0..end]);
                proof {
                    let line = without_return(rest@.take(i as int));
                    assert(rest@.take(end as int) == line);
                    assert(views(parts@) == before.push(line));
                    assert(rest@.skip(i as int + 1) == s@.skip(start as int + i as int + 1));
                    assert(before + (seq![line] + lines_of(rest@.skip(i as int + 1)))
                        == before.push(line) + lines_of(rest@.skip(i as int + 1)));
                }
                start = start + i + 1;
            },
            None => {
                parts.push(rest);
                proof {
                    assert(views(parts@) == before.push(rest@));
                    assert(before + seq![rest@] == before.push(rest@));
                    assert(s@.skip(n as int).len() == 0);
                    assert(lines_of(s@.skip(n as int)) == Seq::<Seq<char>>::empty());
                    assert(before.push(rest@) + Seq::<Seq<char>>::empty() == before.push(rest@));
                }
                start = n;
            },
        }
    }
    proof {
        assert(s@.skip(n as int).len() == 0);
        assert(views(parts@) + Seq::<Seq<char>>::empty() == views(parts@));
    }
    parts
}

/// The pieces of `parts` with `sep` between each two neighbours.
pub open spec fn joined(parts: Seq<Seq<char>>, sep: Seq<char>) -> Seq<char>
    decreases parts.len(),
{
    if parts.len() == 0 {
        Seq::empty()
    } else if parts.len() == 1 {
        parts[0]
    } else {
        joined(parts.drop_last(), sep) + sep + parts.last()
    }
}

} // verus!
