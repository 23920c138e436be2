//! Text utilities: splitting on a separator, splitting into lines, decimal rendering.
//!
//! Each executable function is specified by a spec function over `Seq<char>`.

use vstd::prelude::*;

verus! {

/// Claimed of std's `String::push`: it appends the given character to the end of the
/// string and leaves the rest as it was.
pub assume_specification[ String::push ](s: &mut String, c: char)
    ensures
        final(s)@ == old(s)@.push(c),
;

/// The pieces of `s` that lie between occurrences of `sep`, in order.
///
/// A text without any separator is one piece; `k` separators give `k + 1` pieces, some of
/// which may be empty (between two adjacent separators, before a leading one, after a
/// trailing one).
pub open spec fn segments(s: Seq<char>, sep: char) -> Seq<Seq<char>>
    decreases s.len(),
{
    if s.len() == 0 {
        seq![Seq::<char>::empty()]
    } else {
        let before = segments(s.drop_last(), sep);
        if s.last() == sep {
            before.push(Seq::<char>::empty())
        } else {
            before.drop_last().push(before.last().push(s.last()))
        }
    }
}

/// The pieces joined again, with `sep` between neighbours.
pub open spec fn joined(pieces: Seq<Seq<char>>, sep: char) -> Seq<char>
    decreases pieces.len(),
{
    if pieces.len() == 0 {
        Seq::<char>::empty()
    } else if pieces.len() == 1 {
        pieces[0]
    } else {
        joined(pieces.drop_last(), sep).push(sep) + pieces.last()
    }
}

/// No piece of `pieces` contains the separator.
pub open spec fn free_of(pieces: Seq<Seq<char>>, sep: char) -> bool {
    forall|i: int, j: int|
        0 <= i < pieces.len() && 0 <= j < pieces[i].len() ==> #[trigger] pieces[i][j] != sep
}

/// There is always at least one piece.
pub proof fn lemma_segments_nonempty(s: Seq<char>, sep: char)
    ensures
        segments(s, sep).len() >= 1,
    decreases s.len(),
{
    if s.len() > 0 {
        lemma_segments_nonempty(s.drop_last(), sep);
    }
}

/// No piece of a text contains the separator.
pub proof fn lemma_segments_free_of_separator(s: Seq<char>, sep: char)
    ensures
        free_of(segments(s, sep), sep),
    decreases s.len(),
{
    if s.len() > 0 {
        lemma_segments_nonempty(s.drop_last(), sep);
        lemma_segments_free_of_separator(s.drop_last(), sep);
    }
}

/// Joining the pieces with the separator gives the text back.
pub proof fn lemma_segments_rejoin(s: Seq<char>, sep: char)
    ensures
        joined(segments(s, sep), sep) == s,
    decreases s.len(),
{
    if s.len() == 0 {
        assert(joined(segments(s, sep), sep) =~= s);
    } else {
        let front = s.drop_last();
        let before = segments(front, sep);
        lemma_segments_nonempty(front, sep);
        lemma_segments_rejoin(front, sep);
        if s.last() == sep {
            let all = before.push(Seq::<char>::empty());
            assert(all.drop_last() =~= before);
            assert(joined(all, sep) =~= joined(before, sep).push(sep));
            assert(front.push(sep) =~= s);
        } else {
            let grown = before.last().push(s.last());
            let all = before.drop_last().push(grown);
            if before.len() == 1 {
                assert(joined(before, sep) == before[0]);
                assert(joined(all, sep) == grown);
                assert(grown =~= s);
            } else {
                assert(all.drop_last() =~= before.drop_last());
                assert(joined(before, sep) == joined(before.drop_last(), sep).push(sep)
                    + before.last());
                assert(joined(all, sep) == joined(before.drop_last(), sep).push(sep) + grown);
                assert(joined(all, sep) =~= joined(before, sep).push(s.last()));
                assert(front.push(s.last()) =~= s);
            }
        }
    }
}

/// The pieces of a text are the only way to write it as separator-free pieces joined by the
/// separator.
pub proof fn lemma_segments_unique(pieces: Seq<Seq<char>>, s: Seq<char>, sep: char)
    requires
        pieces.len() >= 1,
        free_of(pieces, sep),
        joined(pieces, sep) == s,
    ensures
        pieces == segments(s, sep),
    decreases s.len(),
{
    let last = pieces.last();
    let front = pieces.drop_last();
    if pieces.len() >= 2 {
        assert(joined(pieces, sep) == joined(front, sep).push(sep) + last);
    }
    if s.len() == 0 {
        assert(pieces.len() == 1);
        assert(pieces[0] =~= Seq::<char>::empty());
        assert(pieces =~= seq![Seq::<char>::empty()]);
    } else if last.len() == 0 {
        assert(pieces.len() >= 2);
        assert(s =~= joined(front, sep).push(sep));
        assert(s.drop_last() =~= joined(front, sep));
        assert(free_of(front, sep)) by {
            assert forall|i: int, j: int|
                0 <= i < front.len() && 0 <= j < front[i].len() implies #[trigger] front[i][j]
                != sep by {
                assert(pieces[i][j] != sep);
            }
        }
        lemma_segments_unique(front, s.drop_last(), sep);
        assert(last =~= Seq::<char>::empty());
        assert(pieces =~= front.push(Seq::<char>::empty()));
    } else {
        let shorter = front.push(last.drop_last());
        assert(shorter.drop_last() =~= front);
        assert(last[last.len() - 1] != sep);
        if pieces.len() == 1 {
            assert(joined(shorter, sep) == last.drop_last());
            assert(s.drop_last() =~= last.drop_last());
        } else {
            assert(joined(shorter, sep) == joined(front, sep).push(sep) + last.drop_last());
            assert(s.drop_last() =~= joined(shorter, sep));
        }
        assert(s.last() == last.last());
        assert(free_of(shorter, sep)) by {
            assert forall|i: int, j: int|
                0 <= i < shorter.len() && 0 <= j < shorter[i].len() implies #[trigger] shorter[i][j]
                != sep by {
                assert(pieces[i][j] != sep);
            }
        }
        lemma_segments_unique(shorter, s.drop_last(), sep);
        assert(last =~= last.drop_last().push(s.last()));
        assert(pieces =~= shorter.drop_last().push(shorter.last().push(s.last())));
    }
}

/// Reading further never changes a piece that a separator has already closed.
pub proof fn lemma_segments_closed_pieces_stay(s: Seq<char>, sep: char, k: int, i: int)
    requires
        0 <= k <= s.len(),
        0 <= i < segments(s.take(k), sep).len() - 1,
    ensures
        i < segments(s, sep).len() - 1,
        segments(s, sep)[i] == segments(s.take(k), sep)[i],
    decreases s.len() - k,
{
    if k == s.len() {
        assert(s.take(k) =~= s);
    } else {
        assert(s.take(k + 1).drop_last() =~= s.take(k));
        lemma_segments_closed_pieces_stay(s, sep, k + 1, i);
    }
}

/// The `n`-th piece (counting from zero) of `s` split on `sep`, if there are that many.
pub fn nth_segment(s: &str, sep: char, n: usize) -> (found: Option<String>)
    ensures
        n < segments(s@, sep).len() ==> found is Some && found->0@ == segments(s@, sep)[n as int],
        n >= segments(s@, sep).len() ==> found is None,
{
    let mut closed: usize = 0;
    let mut piece = String::new();
    for c in it: s.chars()
        invariant
            it.seq() == s@,
            closed <= n,
            closed + 1 == segments(s@.take(it.index() as int), sep).len(),
            closed == n ==> piece@ == segments(s@.take(it.index() as int), sep).last(),
            closed < n ==> piece@.len() == 0,
    {
        proof {
            assert(s@.take(it.index() + 1).drop_last() =~= s@.take(it.index() as int));
            assert(s@.take(it.index() + 1).last() == c);
        }
        if c == sep {
            if closed == n {
                proof {
                    lemma_segments_closed_pieces_stay(s@, sep, it.index() + 1, n as int);
                }
                return Some(piece);
            }
            closed = closed + 1;
        } else if closed == n {
            piece.push(c);
        }
    }
    proof {
        assert(s@.take(s@.len() as int) =~= s@);
    }
    if closed == n {
        Some(piece)
    } else {
        None
    }
}

/// A line's content once the carriage return before its line feed, if any, is removed.
pub open spec fn without_trailing_cr(line: Seq<char>) -> Seq<char> {
    if line.len() > 0 && line.last() == '\r' {
        line.drop_last()
    } else {
        line
    }
}

/// The lines of a text.
///
/// A line ends at a line feed, or at a carriage return directly followed by a line feed;
/// neither is part of the line. What follows the last line feed is a line only if it is
/// not empty, so a final line ending is optional.
pub open spec fn lines_of(text: Seq<char>) -> Seq<Seq<char>> {
    let parts = segments(text, '\n');
    let ended = parts.drop_last().map_values(|part: Seq<char>| without_trailing_cr(part));
    if parts.last().len() == 0 {
        ended
    } else {
        ended.push(parts.last())
    }
}

/// The texts held by a sequence of strings.
pub open spec fn contents(strings: Seq<String>) -> Seq<Seq<char>> {
    strings.map_values(|s: String| s@)
}

/// Splits a text into its lines.
pub fn lines(text: &str) -> (out: Vec<String>)
    ensures
        contents(out@) == lines_of(text@),
{
    let mut out: Vec<String> = Vec::new();
    let mut line = String::new();
    let mut held_cr = false;
    for c in it: text.chars()
        invariant
            it.seq() == text@,
            contents(out@) == segments(text@.take(it.index() as int), '\n').drop_last().map_values(
                |part: Seq<char>| without_trailing_cr(part),
            ),
            segments(text@.take(it.index() as int), '\n').len() >= 1,
            segments(text@.take(it.index() as int), '\n').last() == if held_cr {
                line@.push('\r')
            } else {
                line@
            },
            !held_cr && line@.len() > 0 ==> line@.last() != '\r',
    {
        let ghost seen = text@.take(it.index() as int);
        let ghost next = text@.take(it.index() + 1);
        let ghost before = segments(seen, '\n');
        proof {
            assert(next.drop_last() =~= seen);
            assert(next.last() == c);
        }
        if c == '\n' {
            proof {
                let after = segments(next, '\n');
                assert(after == before.push(Seq::<char>::empty()));
                assert(after.drop_last() =~= before);
                assert(before =~= before.drop_last().push(before.last()));
                assert(without_trailing_cr(before.last()) == line@) by {
                    if held_cr {
                        assert(line@.push('\r').drop_last() =~= line@);
                    }
                }
                assert(contents(out@.push(line)) =~= contents(out@).push(line@));
                assert(before.map_values(|part: Seq<char>| without_trailing_cr(part))
                    =~= before.drop_last().map_values(
                    |part: Seq<char>| without_trailing_cr(part),
                ).push(without_trailing_cr(before.last())));
            }
            out.push(line);
            line = String::new();
            held_cr = false;
        } else {
            proof {
                let after = segments(next, '\n');
                assert(after == before.drop_last().push(before.last().push(c)));
                assert(after.drop_last() =~= before.drop_last());
            }
            if held_cr {
                line.push('\r');
            }
            if c == '\r' {
                held_cr = true;
            } else {
                line.push(c);
                held_cr = false;
            }
        }
    }
    proof {
        assert(text@.take(text@.len() as int) =~= text@);
    }
    if held_cr {
        line.push('\r');
    }
    if !line.as_str().is_empty() {
        proof {
            assert(contents(out@.push(line)) =~= contents(out@).push(line@));
        }
        out.push(line);
    }
    out
}

/// The character that writes a decimal digit.
pub open spec fn digit_char(d: int) -> char
    recommends
        0 <= d < 10,
{
    seq!['0', '1', '2', '3', '4', '5', '6', '7', '8', '9'][d]
}

/// The decimal numeral of `n`: most significant digit first, no leading zero but for zero
/// itself.
pub open spec fn decimal(n: nat) -> Seq<char>
    decreases n,
{
    if n < 10 {
        seq![digit_char(n as int)]
    } else {
        decimal(n / 10).push(digit_char((n % 10) as int))
    }
}

/// The digit that a character writes, for the ten characters that write one.
pub open spec fn digit_value(c: char) -> nat {
    if c == '1' {
        1
    } else if c == '2' {
        2
    } else if c == '3' {
        3
    } else if c == '4' {
        4
    } else if c == '5' {
        5
    } else if c == '6' {
        6
    } else if c == '7' {
        7
    } else if c == '8' {
        8
    } else if c == '9' {
        9
    } else {
        0
    }
}

/// The number that a decimal numeral writes.
pub open spec fn numeral_value(digits: Seq<char>) -> nat
    decreases digits.len(),
{
    if digits.len() == 0 {
        0
    } else {
        10 * numeral_value(digits.drop_last()) + digit_value(digits.last())
    }
}

/// The decimal numeral of a number writes that number, has at least one digit, and begins
/// with a zero only when the number is zero.
pub proof fn lemma_decimal_reads_back(n: nat)
    ensures
        numeral_value(decimal(n)) == n,
        decimal(n).len() >= 1,
        decimal(n)[0] == '0' <==> n == 0,
    decreases n,
{
    if n < 10 {
        assert(decimal(n).drop_last() =~= Seq::<char>::empty());
        assert(numeral_value(decimal(n)) == 10 * numeral_value(decimal(n).drop_last())
            + digit_value(decimal(n).last()));
    } else {
        lemma_decimal_reads_back(n / 10);
        let front = decimal(n / 10);
        assert(decimal(n).drop_last() =~= front);
        assert(decimal(n)[0] == front[0]);
    }
}

fn digit(d: u64) -> (c: char)
    requires
        d < 10,
    ensures
        c == digit_char(d as int),
{
    if d == 0 {
        '0'
    } else if d == 1 {
        '1'
    } else if d == 2 {
        '2'
    } else if d == 3 {
        '3'
    } else if d == 4 {
        '4'
    } else if d == 5 {
        '5'
    } else if d == 6 {
        '6'
    } else if d == 7 {
        '7'
    } else if d == 8 {
        '8'
    } else {
        '9'
    }
}

/// Writes `n` as a decimal numeral.
pub fn to_decimal(n: u64) -> (text: String)
    ensures
        text@ == decimal(n as nat),
{
    let mut low_first: Vec<char> = Vec::new();
    low_first.push(digit(n % 10));
    let mut rest: u64 = n / 10;
    while rest > 0
        invariant
            decimal(n as nat) == (if rest > 0 {
                decimal(rest as nat)
            } else {
                Seq::<char>::empty()
            }) + low_first@.reverse(),
        decreases rest,
    {
        let ghost earlier = low_first@;
        low_first.push(digit(rest % 10));
        proof {
            assert(low_first@.reverse() =~= seq![digit_char((rest % 10) as int)]
                + earlier.reverse());
        }
        rest = rest / 10;
    }
    let mut text = String::new();
    let mut left: usize = low_first.len();
    while left > 0
        invariant
            left <= low_first.len(),
            text@ == low_first@.reverse().take(low_first.len() - left),
        decreases left,
    {
        left = left - 1;
        text.push(low_first[left]);
        proof {
            let digits = low_first@.reverse();
            let written = low_first.len() - left;
            assert(digits.take(written) =~= digits.take(written - 1).push(digits[written - 1]));
        }
    }
    proof {
        assert(low_first@.reverse().take(low_first.len() as int) =~= low_first@.reverse());
    }
    text
}

} // verus!
